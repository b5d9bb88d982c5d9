use piano_fall::samples::{nearest_sample, sample_pitch, semitone_offset, SAMPLE_COUNT};

#[test]
fn sample_pitches_are_cs() {
    let pitches: Vec<u8> = (0..SAMPLE_COUNT).map(sample_pitch).collect();
    assert_eq!(pitches, vec![3, 15, 27, 39, 51, 63, 75, 87]);
}

#[test]
fn nearest_sample_choice() {
    assert_eq!(nearest_sample(0), 0);
    assert_eq!(nearest_sample(3), 0);
    assert_eq!(nearest_sample(9), 0); // tie between C1 and C2: the lower wins
    assert_eq!(nearest_sample(10), 1);
    assert_eq!(nearest_sample(39), 3); // C4
    assert_eq!(nearest_sample(81), 6); // tie between C7 and C8: the lower wins
    assert_eq!(nearest_sample(82), 7);
    assert_eq!(nearest_sample(87), 7); // C8 has its own sample
    assert_eq!(nearest_sample(214), 7);
    assert_eq!(nearest_sample(215), 0); // nothing within 127 semitones
}

#[test]
fn offsets_stay_within_half_an_octave() {
    for p in 0u8..=87 {
        let idx = nearest_sample(p);
        assert!(semitone_offset(p, idx).abs() <= 6);
    }
    assert_eq!(semitone_offset(87, nearest_sample(87)), 0);
    assert_eq!(semitone_offset(0, 0), -3);
}
