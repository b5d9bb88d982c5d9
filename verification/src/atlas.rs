//! The 96x8 bitmap atlas holding the note-name glyphs drawn on falling notes.

use vstd::prelude::*;

verus! {

/// Width of the atlas in pixels: twelve 8-pixel glyphs side by side.
pub const ATLAS_WIDTH: usize = 96;

/// Height of the atlas in pixels.
pub const ATLAS_HEIGHT: usize = 8;

/// 8x8 glyphs for C, C#, D, D#, E, F, F#, G, G#, A, A#, B; glyph `g` row `r`
/// is entry `8 * g + r`, bit 7 is the leftmost pixel. Natural notes are
/// centred; sharps have the letter on the left and `#` on the right.
pub open spec fn glyph_rows() -> Seq<u8> {
    seq![
        0x00u8, 0x18, 0x24, 0x20, 0x24, 0x18, 0x00, 0x00, // C
        0x00, 0x62, 0x97, 0x82, 0x97, 0x62, 0x00, 0x00, // C#
        0x00, 0x38, 0x24, 0x24, 0x24, 0x38, 0x00, 0x00, // D
        0x00, 0xE2, 0x97, 0x92, 0x97, 0xE2, 0x00, 0x00, // D#
        0x00, 0x3C, 0x20, 0x38, 0x20, 0x3C, 0x00, 0x00, // E
        0x00, 0x3C, 0x20, 0x38, 0x20, 0x20, 0x00, 0x00, // F
        0x00, 0xF2, 0x87, 0xE2, 0x87, 0x82, 0x00, 0x00, // F#
        0x00, 0x18, 0x20, 0x2C, 0x24, 0x18, 0x00, 0x00, // G
        0x00, 0x62, 0x87, 0xB2, 0x97, 0x62, 0x00, 0x00, // G#
        0x00, 0x18, 0x24, 0x3C, 0x24, 0x24, 0x00, 0x00, // A
        0x00, 0x62, 0x97, 0xF2, 0x97, 0x92, 0x00, 0x00, // A#
        0x00, 0x38, 0x24, 0x38, 0x24, 0x38, 0x00, 0x00, // B
    ]
}

/// Pixel `(x, y)` of the atlas: 255 where the glyph bit is set, 0 elsewhere.
pub open spec fn atlas_pixel(x: int, y: int) -> u8 {
    let bits = glyph_rows()[8 * (x / 8) + y];
    let col = (x % 8) as u8;
    (((bits >> (7 - col) as u8) & 1u8) * 255) as u8
}

/// Builds the atlas, row by row: byte `y * 96 + x` is pixel `(x, y)`.
pub fn font_atlas_data() -> (pixels: Vec<u8>)
    ensures
        pixels@.len() == ATLAS_WIDTH * ATLAS_HEIGHT,
        forall|y: int, x: int|
            0 <= y < ATLAS_HEIGHT && 0 <= x < ATLAS_WIDTH ==> #[trigger] pixels@[y * 96 + x] == atlas_pixel(x, y),
{
    let glyphs: [u8; 96] = [
        0x00, 0x18, 0x24, 0x20, 0x24, 0x18, 0x00, 0x00, // C
        0x00, 0x62, 0x97, 0x82, 0x97, 0x62, 0x00, 0x00, // C#
        0x00, 0x38, 0x24, 0x24, 0x24, 0x38, 0x00, 0x00, // D
        0x00, 0xE2, 0x97, 0x92, 0x97, 0xE2, 0x00, 0x00, // D#
        0x00, 0x3C, 0x20, 0x38, 0x20, 0x3C, 0x00, 0x00, // E
        0x00, 0x3C, 0x20, 0x38, 0x20, 0x20, 0x00, 0x00, // F
        0x00, 0xF2, 0x87, 0xE2, 0x87, 0x82, 0x00, 0x00, // F#
        0x00, 0x18, 0x20, 0x2C, 0x24, 0x18, 0x00, 0x00, // G
        0x00, 0x62, 0x87, 0xB2, 0x97, 0x62, 0x00, 0x00, // G#
        0x00, 0x18, 0x24, 0x3C, 0x24, 0x24, 0x00, 0x00, // A
        0x00, 0x62, 0x97, 0xF2, 0x97, 0x92, 0x00, 0x00, // A#
        0x00, 0x38, 0x24, 0x38, 0x24, 0x38, 0x00, 0x00, // B
    ];
    assert(glyphs@ == glyph_rows());
    let mut pixels: Vec<u8> = Vec::new();
    let mut p: usize = 0;
    while p < ATLAS_WIDTH * ATLAS_HEIGHT
        invariant
            p <= ATLAS_WIDTH * ATLAS_HEIGHT,
            glyphs@ == glyph_rows(),
            pixels@.len() == p,
            forall|q: int| 0 <= q < p ==> #[trigger] pixels@[q] == atlas_pixel(q % 96, q / 96),
        decreases ATLAS_WIDTH * ATLAS_HEIGHT - p,
    {
        let row = p / ATLAS_WIDTH;
        let x = p % ATLAS_WIDTH;
        let gi = x / 8;
        let col = (x % 8) as u8;
        let bits = glyphs[gi * 8 + row];
        let lit = (bits >> (7 - col)) & 1;
        proof {
            assert(lit <= 1) by (bit_vector)
                requires
                    lit == (bits >> (7 - col) as u8) & 1u8,
            ;
        }
        pixels.push(lit * 255);
        p = p + 1;
    }
    assert forall|y: int, x: int| 0 <= y < ATLAS_HEIGHT && 0 <= x < ATLAS_WIDTH implies #[trigger] pixels@[y
        * 96 + x] == atlas_pixel(x, y) by {
        let q = y * 96 + x;
        assert(0 <= q < 768);
        assert(q % 96 == x && q / 96 == y);
    }
    pixels
}

/// Every atlas pixel is either fully off (0) or fully on (255).
pub proof fn lemma_atlas_is_binary(x: int, y: int)
    requires
        0 <= x < ATLAS_WIDTH,
        0 <= y < ATLAS_HEIGHT,
    ensures
        atlas_pixel(x, y) == 0 || atlas_pixel(x, y) == 255,
{
    let bits = glyph_rows()[8 * (x / 8) + y];
    let col = (x % 8) as u8;
    assert((bits >> (7 - col) as u8) & 1u8 == 0u8 || (bits >> (7 - col) as u8) & 1u8 == 1u8) by (bit_vector);
}


/// Row `r` of the glyph for pitch class `g` (C = 0 .. B = 11) in the atlas.
pub open spec fn glyph_row(g: int, r: int) -> u8 {
    glyph_rows()[8 * g + r]
}

/// The atlas holds, in pitch-class order, these bitmaps: C, C#, D, D#, E,
/// F, F#, G, G#, A, A#, B.
pub proof fn lemma_glyph_bitmaps()
    ensures
        glyph_rows().len() == 96,
        glyph_rows().subrange(0, 8) == seq![0x00u8, 0x18, 0x24, 0x20, 0x24, 0x18, 0x00, 0x00],
        glyph_rows().subrange(8, 16) == seq![0x00u8, 0x62, 0x97, 0x82, 0x97, 0x62, 0x00, 0x00],
        glyph_rows().subrange(16, 24) == seq![0x00u8, 0x38, 0x24, 0x24, 0x24, 0x38, 0x00, 0x00],
        glyph_rows().subrange(24, 32) == seq![0x00u8, 0xE2, 0x97, 0x92, 0x97, 0xE2, 0x00, 0x00],
        glyph_rows().subrange(32, 40) == seq![0x00u8, 0x3C, 0x20, 0x38, 0x20, 0x3C, 0x00, 0x00],
        glyph_rows().subrange(40, 48) == seq![0x00u8, 0x3C, 0x20, 0x38, 0x20, 0x20, 0x00, 0x00],
        glyph_rows().subrange(48, 56) == seq![0x00u8, 0xF2, 0x87, 0xE2, 0x87, 0x82, 0x00, 0x00],
        glyph_rows().subrange(56, 64) == seq![0x00u8, 0x18, 0x20, 0x2C, 0x24, 0x18, 0x00, 0x00],
        glyph_rows().subrange(64, 72) == seq![0x00u8, 0x62, 0x87, 0xB2, 0x97, 0x62, 0x00, 0x00],
        glyph_rows().subrange(72, 80) == seq![0x00u8, 0x18, 0x24, 0x3C, 0x24, 0x24, 0x00, 0x00],
        glyph_rows().subrange(80, 88) == seq![0x00u8, 0x62, 0x97, 0xF2, 0x97, 0x92, 0x00, 0x00],
        glyph_rows().subrange(88, 96) == seq![0x00u8, 0x38, 0x24, 0x38, 0x24, 0x38, 0x00, 0x00],
{
    assert(glyph_rows().subrange(0, 8) =~= seq![0x00u8, 0x18, 0x24, 0x20, 0x24, 0x18, 0x00, 0x00]);
    assert(glyph_rows().subrange(8, 16) =~= seq![0x00u8, 0x62, 0x97, 0x82, 0x97, 0x62, 0x00, 0x00]);
    assert(glyph_rows().subrange(16, 24) =~= seq![0x00u8, 0x38, 0x24, 0x24, 0x24, 0x38, 0x00, 0x00]);
    assert(glyph_rows().subrange(24, 32) =~= seq![0x00u8, 0xE2, 0x97, 0x92, 0x97, 0xE2, 0x00, 0x00]);
    assert(glyph_rows().subrange(32, 40) =~= seq![0x00u8, 0x3C, 0x20, 0x38, 0x20, 0x3C, 0x00, 0x00]);
    assert(glyph_rows().subrange(40, 48) =~= seq![0x00u8, 0x3C, 0x20, 0x38, 0x20, 0x20, 0x00, 0x00]);
    assert(glyph_rows().subrange(48, 56) =~= seq![0x00u8, 0xF2, 0x87, 0xE2, 0x87, 0x82, 0x00, 0x00]);
    assert(glyph_rows().subrange(56, 64) =~= seq![0x00u8, 0x18, 0x20, 0x2C, 0x24, 0x18, 0x00, 0x00]);
    assert(glyph_rows().subrange(64, 72) =~= seq![0x00u8, 0x62, 0x87, 0xB2, 0x97, 0x62, 0x00, 0x00]);
    assert(glyph_rows().subrange(72, 80) =~= seq![0x00u8, 0x18, 0x24, 0x3C, 0x24, 0x24, 0x00, 0x00]);
    assert(glyph_rows().subrange(80, 88) =~= seq![0x00u8, 0x62, 0x97, 0xF2, 0x97, 0x92, 0x00, 0x00]);
    assert(glyph_rows().subrange(88, 96) =~= seq![0x00u8, 0x38, 0x24, 0x38, 0x24, 0x38, 0x00, 0x00]);
}

/// Each atlas pixel shows its glyph's bit: pixel `(x, y)` is lit (255) when
/// bit `7 - x % 8` of row `y` of glyph `x / 8` is set, and dark (0)
/// otherwise; bit 7 is the leftmost pixel of a glyph.
pub proof fn lemma_pixel_shows_bit(x: int, y: int)
    requires
        0 <= x < ATLAS_WIDTH,
        0 <= y < ATLAS_HEIGHT,
    ensures
        atlas_pixel(x, y) == (if (glyph_row(x / 8, y) >> ((7 - x % 8) as u8)) & 1u8 == 1u8 { 255u8 } else { 0u8 }),
{
    let bits = glyph_rows()[8 * (x / 8) + y];
    let col = (x % 8) as u8;
    assert(0 <= x % 8 < 8);
    assert((7 - col) as u8 == (7 - x % 8) as u8);
    let b = (bits >> (7 - col) as u8) & 1u8;
    assert(b == 0u8 || b == 1u8) by (bit_vector)
        requires
            b == (bits >> (7 - col) as u8) & 1u8,
    ;
}

} // verus!
