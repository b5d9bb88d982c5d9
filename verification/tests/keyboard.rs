use piano_fall::keyboard::{
    black_neighbors, count_white_keys_in_range, is_black_key, is_visible, key_span, pitch_class,
    visible_white_count, white_key_index_before, white_position, KeySpan, UNITS_PER_WHITE_KEY,
    VISIBLE_END, VISIBLE_START,
};

/// Converts a key span to pixels for a keyboard `total_width` pixels wide.
fn span_to_pixels(span: KeySpan, total_width: f32) -> (f32, f32) {
    let white_key_width = total_width / visible_white_count() as f32;
    let unit = white_key_width / UNITS_PER_WHITE_KEY as f32;
    (span.left as f32 * unit, span.width as f32 * unit)
}

#[test]
fn test_is_black_key() {
    assert!(!is_black_key(0)); // A0 = white
    assert!(is_black_key(1)); // A#0 = black
    assert!(!is_black_key(2)); // B0 = white
    assert!(!is_black_key(3)); // C1 = white
    assert!(is_black_key(4)); // C#1 = black
    assert!(!is_black_key(5)); // D1 = white
    assert!(!is_black_key(87)); // C8 = white
}

#[test]
fn test_visible_white_key_count() {
    // 7 octaves (C1-B7) = 7 * 7 = 49 white keys
    assert_eq!(visible_white_count(), 49);
}

#[test]
fn test_visible_range() {
    assert!(!is_visible(0)); // A0 - below range
    assert!(!is_visible(2)); // B0 - below range
    assert!(is_visible(3)); // C1 - start
    assert!(is_visible(86)); // B7 - end
    assert!(!is_visible(87)); // C8 - above range
}

#[test]
fn test_key_rect_first_visible() {
    // C1 = pitch 3, first visible white key
    let (x, _w) = span_to_pixels(key_span(3), 980.0);
    assert!((x - 0.0).abs() < 0.01);
    let white_w = 980.0 / 49.0;
    assert!((_w - white_w).abs() < 0.01);
}

#[test]
fn test_key_rect_black_key() {
    // C#1 = pitch 4, first visible black key
    let white_w = 980.0 / 49.0;
    let black_w = white_w * 0.6;
    let (x, w) = span_to_pixels(key_span(4), 980.0);
    let expected_x = 1.0 * white_w - black_w / 2.0;
    assert!((x - expected_x).abs() < 0.01);
    assert!((w - black_w).abs() < 0.01);
}

#[test]
fn whole_piano_has_52_white_and_36_black_keys() {
    let white = count_white_keys_in_range(0, 88);
    assert_eq!(white, 52);
    let black = (0u8..88).filter(|&p| is_black_key(p)).count();
    assert_eq!(black, 36);
}

#[test]
fn key_colors_repeat_every_octave() {
    for p in 0u8..200 {
        assert_eq!(is_black_key(p), is_black_key(p + 12));
    }
}

#[test]
fn pitch_classes_start_at_c() {
    assert_eq!(pitch_class(3), 0); // C1
    assert_eq!(pitch_class(4), 1); // C#1
    assert_eq!(pitch_class(0), 9); // A0
    assert_eq!(pitch_class(87), 0); // C8
    assert_eq!(pitch_class(246), 3);
}

#[test]
fn visible_bounds() {
    assert_eq!(VISIBLE_START, 3);
    assert_eq!(VISIBLE_END, 86);
    assert!(!is_visible(255));
}

#[test]
fn white_keys_tile_the_keyboard() {
    assert_eq!(key_span(3), KeySpan { left: 0, width: 10 }); // C1
    assert_eq!(key_span(5), KeySpan { left: 10, width: 10 }); // D1
    assert_eq!(key_span(7), KeySpan { left: 20, width: 10 }); // E1
    assert_eq!(key_span(8), KeySpan { left: 30, width: 10 }); // F1
    assert_eq!(key_span(86), KeySpan { left: 480, width: 10 }); // B7
    let mut prev_end = 0;
    for p in VISIBLE_START..=VISIBLE_END {
        if !is_black_key(p) {
            let s = key_span(p);
            assert_eq!(s.left, prev_end);
            prev_end = s.left + s.width;
        }
    }
    assert_eq!(prev_end, 490);
}

#[test]
fn black_keys_sit_on_the_seams() {
    assert_eq!(key_span(4), KeySpan { left: 7, width: 6 }); // C#1
    assert_eq!(key_span(6), KeySpan { left: 17, width: 6 }); // D#1
    for p in (VISIBLE_START + 1)..VISIBLE_END {
        if is_black_key(p) {
            let s = key_span(p);
            assert_eq!(s.left + s.width / 2, key_span(p + 1).left);
        }
    }
}

#[test]
fn keys_left_of_the_visible_range() {
    // A0, A#0 and B0 are clamped to the left edge.
    assert_eq!(key_span(0), KeySpan { left: 0, width: 10 });
    assert_eq!(key_span(2), KeySpan { left: 0, width: 10 });
    assert_eq!(key_span(1), KeySpan { left: 0, width: 6 });
    // C8 sits at the right edge, after the 49 visible white keys.
    assert_eq!(key_span(87), KeySpan { left: 490, width: 10 });
    let (x, _) = span_to_pixels(key_span(1), 980.0);
    assert_eq!(x, 0.0);
    let (x, _) = span_to_pixels(key_span(87), 980.0);
    assert!((x - 980.0).abs() < 0.01);
}

#[test]
fn white_index_before_black_keys() {
    assert_eq!(white_key_index_before(4), 0); // C#1 follows C1
    assert_eq!(white_key_index_before(6), 1); // D#1 follows D1
    assert_eq!(white_key_index_before(9), 3); // F#1 follows F1
    assert_eq!(white_key_index_before(1), 0);
    assert_eq!(white_key_index_before(87), 48);
}

#[test]
fn counting_white_keys_in_ranges() {
    assert_eq!(count_white_keys_in_range(3, 15), 7);
    assert_eq!(count_white_keys_in_range(10, 10), 0);
    assert_eq!(count_white_keys_in_range(20, 10), 0);
    assert_eq!(count_white_keys_in_range(250, 249), 0);
    assert_eq!(count_white_keys_in_range(255, 255), 0);
    assert_eq!(count_white_keys_in_range(3, 87), 49);
}

#[test]
fn black_neighbor_codes() {
    assert_eq!(black_neighbors(3), 2); // C: C# on the right
    assert_eq!(black_neighbors(5), 3); // D: both sides
    assert_eq!(black_neighbors(7), 1); // E: D# on the left
    assert_eq!(black_neighbors(0), 2); // A0: nothing left of the piano
    assert_eq!(black_neighbors(87), 0); // C8: nothing right of the piano
    assert_eq!(black_neighbors(2), 1); // B0
}

#[test]
fn white_positions_in_octave() {
    let expected = [0u8, 0, 1, 0, 2, 3, 0, 4, 0, 5, 0, 6];
    for pc in 0u8..12 {
        assert_eq!(white_position(pc), expected[pc as usize]);
    }
    assert_eq!(white_position(12), 0);
}
