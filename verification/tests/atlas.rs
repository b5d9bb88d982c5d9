use piano_fall::atlas::{font_atlas_data, ATLAS_HEIGHT, ATLAS_WIDTH};

#[test]
fn atlas_dimensions() {
    let px = font_atlas_data();
    assert_eq!(px.len(), ATLAS_WIDTH * ATLAS_HEIGHT);
    assert_eq!(px.len(), 96 * 8);
    assert!(px.iter().all(|&p| p == 0 || p == 255));
}

#[test]
fn atlas_glyph_c() {
    let px = font_atlas_data();
    // Row 1 of C is 0x18 = 0b0001_1000: pixels 3 and 4 lit.
    let row1: Vec<u8> = (0..8).map(|x| px[96 + x]).collect();
    assert_eq!(row1, vec![0, 0, 0, 255, 255, 0, 0, 0]);
    // Top and bottom rows are blank.
    assert!((0..96).all(|x| px[x] == 0));
    assert!((0..96).all(|x| px[7 * 96 + x] == 0));
}

#[test]
fn atlas_glyph_b_sharp_column() {
    let px = font_atlas_data();
    // A# (glyph 10), row 3 is 0xF2 = 0b1111_0010.
    let row: Vec<u8> = (0..8).map(|x| px[3 * 96 + 80 + x]).collect();
    assert_eq!(row, vec![255, 255, 255, 255, 0, 0, 255, 0]);
    // B (glyph 11), row 2 is 0x24 = 0b0010_0100.
    let row: Vec<u8> = (0..8).map(|x| px[2 * 96 + 88 + x]).collect();
    assert_eq!(row, vec![0, 0, 255, 0, 0, 255, 0, 0]);
}
