use piano_fall::note::{demo_song, Note, Song};
use piano_fall::playback::{
    active_keys, centring_range, fire_sounding, is_sounding, loop_due, rearm_after, rearm_between,
    restart_if_due, song_end_ms, upcoming_leads, KEY_COUNT, LOOKAHEAD_MS, LOOP_GAP_MS,
};

fn note(pitch: u8, start_ms: u32, duration_ms: u32) -> Note {
    Note { pitch, start_ms, duration_ms, velocity_pct: 80 }
}

fn song(notes: Vec<Note>) -> Song {
    Song { notes, bpm: 120 }
}

#[test]
fn sounding_is_half_open() {
    let n = note(39, 1000, 500);
    assert!(!is_sounding(&n, 999));
    assert!(is_sounding(&n, 1000));
    assert!(is_sounding(&n, 1499));
    assert!(!is_sounding(&n, 1500));
    let long = note(39, u32::MAX - 1, 10);
    assert!(is_sounding(&long, u32::MAX));
}

#[test]
fn keys_go_down_with_their_notes() {
    let s = demo_song();
    let keys = active_keys(&s, 8000);
    assert_eq!(keys.len(), KEY_COUNT);
    // C major chord: C4 (39), E4 (43), G4 (46).
    let down: Vec<usize> = (0..KEY_COUNT).filter(|&k| keys[k]).collect();
    assert_eq!(down, vec![39, 43, 46]);
    // Between scale notes (0.9 beat held) no key is down.
    let keys = active_keys(&s, 460);
    assert!(keys.iter().all(|&k| !k));
}

#[test]
fn notes_fire_once() {
    let s = demo_song();
    let mut triggered = vec![false; s.notes.len()];
    let started = fire_sounding(&s, &mut triggered, 8000);
    assert_eq!(started, vec![15, 16, 17]);
    assert!(triggered[15] && triggered[16] && triggered[17]);
    assert_eq!(triggered.iter().filter(|&&t| t).count(), 3);
    // Same instant again: nothing new.
    let again = fire_sounding(&s, &mut triggered, 8000);
    assert!(again.is_empty());
    // Later, the chord is still marked; the next chord fires.
    let next = fire_sounding(&s, &mut triggered, 9000);
    assert_eq!(next, vec![18, 19, 20]);
}

#[test]
fn scrubbing_back_rearms_later_notes() {
    let s = demo_song();
    let mut triggered = vec![true; s.notes.len()];
    rearm_after(&s, &mut triggered, 8000);
    for (i, n) in s.notes.iter().enumerate() {
        assert_eq!(triggered[i], n.start_ms <= 8000);
    }
}

#[test]
fn rewind_step_rearms_passed_onsets() {
    let s = demo_song();
    let mut triggered = vec![true; s.notes.len()];
    rearm_between(&s, &mut triggered, 3000, 4000);
    for (i, n) in s.notes.iter().enumerate() {
        let passed = n.start_ms >= 3000 && n.start_ms < 4000;
        assert_eq!(triggered[i], !passed);
    }
    // Notes at 3000 and 3500 were passed.
    assert!(!triggered[6] && !triggered[7]);
    assert!(triggered[8]);
}

#[test]
fn song_ends_with_its_last_note() {
    let s = demo_song();
    assert_eq!(song_end_ms(&s), 13000);
    assert_eq!(song_end_ms(&song(vec![])), 0);
    assert!(!loop_due(&s, 13000 + LOOP_GAP_MS));
    assert!(loop_due(&s, 13000 + LOOP_GAP_MS + 1));
}

#[test]
fn looping_rearms_everything() {
    let s = demo_song();
    let mut triggered = vec![true; s.notes.len()];
    assert!(!restart_if_due(&s, &mut triggered, 14000));
    assert!(triggered.iter().all(|&t| t));
    assert!(restart_if_due(&s, &mut triggered, 15001));
    assert!(triggered.iter().all(|&t| !t));
}

#[test]
fn keys_light_up_before_their_notes() {
    let s = song(vec![note(40, 1000, 100), note(40, 1500, 100), note(50, 2000, 100), note(60, 900, 50)]);
    let leads = upcoming_leads(&s, 900);
    assert_eq!(leads.len(), KEY_COUNT);
    assert_eq!(leads[40], Some(100)); // nearest of 1000 and 1500
    assert_eq!(leads[50], None); // 1100 ms away, beyond the look-ahead
    assert_eq!(leads[60], None); // starting now: not upcoming
    assert_eq!(leads.iter().filter(|l| l.is_some()).count(), 1);
    let leads = upcoming_leads(&s, 2000 - LOOKAHEAD_MS);
    assert_eq!(leads[50], None); // exactly at the look-ahead edge
    let leads = upcoming_leads(&s, 2001 - LOOKAHEAD_MS);
    assert_eq!(leads[50], Some(LOOKAHEAD_MS - 1));
}

#[test]
fn off_piano_pitches_never_light() {
    let s = song(vec![note(200, 100, 10)]);
    let leads = upcoming_leads(&s, 0);
    assert!(leads.iter().all(|l| l.is_none()));
}

#[test]
fn centring_narrow_songs_only() {
    let s = demo_song();
    assert_eq!(centring_range(&s), Some((39, 53)));
    assert_eq!(centring_range(&song(vec![])), None);
    // Notes reaching both ends of the keyboard: no centring.
    let wide = song(vec![note(8, 0, 10), note(81, 0, 10)]);
    assert_eq!(centring_range(&wide), None);
    let low = song(vec![note(8, 0, 10), note(60, 0, 10)]);
    assert_eq!(centring_range(&low), Some((8, 60)));
    let high = song(vec![note(9, 0, 10), note(81, 0, 10)]);
    assert_eq!(centring_range(&high), Some((9, 81)));
}

#[test]
fn scrubbed_back_notes_fire_again() {
    let s = demo_song();
    let mut triggered = vec![false; s.notes.len()];
    assert_eq!(fire_sounding(&s, &mut triggered, 8000), vec![15, 16, 17]);
    // Scrub back to before the chord, then reach it again.
    rearm_after(&s, &mut triggered, 7999);
    assert_eq!(fire_sounding(&s, &mut triggered, 8500), vec![15, 16, 17]);
    // Scrubbing back to a point inside the chord does not re-arm it.
    rearm_after(&s, &mut triggered, 8000);
    assert!(fire_sounding(&s, &mut triggered, 8500).is_empty());
}

#[test]
fn well_formed_songs() {
    assert!(demo_song().is_well_formed());
    assert!(song(vec![]).is_well_formed());
    assert!(!song(vec![note(88, 0, 10)]).is_well_formed());
    assert!(song(vec![note(87, u32::MAX - 10, 10)]).is_well_formed());
    assert!(!song(vec![note(87, u32::MAX - 10, 11)]).is_well_formed());
}
