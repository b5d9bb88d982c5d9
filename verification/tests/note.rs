use piano_fall::note::{demo_song, midi_to_pitch, Note};

#[test]
fn test_midi_to_pitch() {
    assert_eq!(midi_to_pitch(21), 0); // A0
    assert_eq!(midi_to_pitch(60), 39); // C4
    assert_eq!(midi_to_pitch(108), 87); // C8
}

#[test]
fn midi_below_a0_saturates() {
    assert_eq!(midi_to_pitch(0), 0);
    assert_eq!(midi_to_pitch(20), 0);
    assert_eq!(midi_to_pitch(255), 234);
}

#[test]
fn test_demo_song_has_notes() {
    let song = demo_song();
    assert!(!song.notes.is_empty());
    assert!(song.notes.len() > 20);
}

#[test]
fn test_demo_song_pitches_in_range() {
    let song = demo_song();
    for note in &song.notes {
        assert!(note.pitch <= 87, "Pitch {} out of range", note.pitch);
    }
}

#[test]
fn test_demo_song_times_positive() {
    let song = demo_song();
    for note in &song.notes {
        assert!(note.start_ms as f32 / 1000.0 >= 0.0);
        assert!(note.duration_ms as f32 / 1000.0 > 0.0);
    }
}

#[test]
fn demo_song_layout() {
    let song = demo_song();
    assert_eq!(song.bpm, 120);
    assert_eq!(song.notes.len(), 28);
    // C4 on the first beat, held 0.9 beat.
    assert_eq!(song.notes[0], Note { pitch: 39, start_ms: 0, duration_ms: 450, velocity_pct: 80 });
    // C5 tops the scale on the eighth beat.
    assert_eq!(song.notes[7], Note { pitch: 51, start_ms: 3500, duration_ms: 450, velocity_pct: 80 });
    // B4 starts the way down on beat 9.
    assert_eq!(song.notes[8], Note { pitch: 50, start_ms: 4000, duration_ms: 450, velocity_pct: 80 });
    assert_eq!(song.notes[14], Note { pitch: 39, start_ms: 7000, duration_ms: 450, velocity_pct: 80 });
    // C major chord on beat 17.
    assert_eq!(song.notes[15], Note { pitch: 39, start_ms: 8000, duration_ms: 1000, velocity_pct: 90 });
    assert_eq!(song.notes[17], Note { pitch: 46, start_ms: 8000, duration_ms: 1000, velocity_pct: 90 });
    // F, G chords.
    assert_eq!(song.notes[18], Note { pitch: 44, start_ms: 9000, duration_ms: 1000, velocity_pct: 90 });
    assert_eq!(song.notes[23], Note { pitch: 53, start_ms: 10000, duration_ms: 1000, velocity_pct: 90 });
    // Final C chord, four beats at full strength.
    assert_eq!(song.notes[27], Note { pitch: 51, start_ms: 11000, duration_ms: 2000, velocity_pct: 100 });
}
