//! Notes and songs. Times are whole milliseconds from the start of the song,
//! velocities are percentages of full strength.

use vstd::prelude::*;

verus! {

/// A single note in the song.
#[derive(Clone, Copy, Debug, PartialEq, Eq, Structural)]
pub struct Note {
    /// 0..=87, A0 = 0, C8 = 87.
    pub pitch: u8,
    /// Onset, in milliseconds from the start of the song.
    pub start_ms: u32,
    /// Length, in milliseconds.
    pub duration_ms: u32,
    /// Strength, 0..=100 percent.
    pub velocity_pct: u8,
}

/// A song: its notes and its tempo in beats per minute.
pub struct Song {
    pub notes: Vec<Note>,
    pub bpm: u32,
}

impl Note {
    /// Millisecond at which the note stops sounding.
    pub open spec fn end_ms(self) -> int {
        self.start_ms + self.duration_ms
    }

    /// A note is well formed when its pitch lies on the piano and its end
    /// time fits the clock.
    pub open spec fn wf(self) -> bool {
        &&& self.pitch <= 87
        &&& self.end_ms() <= u32::MAX
    }
}

impl Song {
    /// Every note of a well-formed song is well formed.
    pub open spec fn wf(&self) -> bool {
        forall|i: int| 0 <= i < self.notes@.len() ==> (#[trigger] self.notes@[i]).wf()
    }
}

impl Song {
    /// Checks that every note lies on the piano and ends within the clock's
    /// range, which the playback functions rely on.
    pub fn is_well_formed(&self) -> (ok: bool)
        ensures
            ok == self.wf(),
    {
        let mut i: usize = 0;
        while i < self.notes.len()
            invariant
                i <= self.notes@.len(),
                forall|j: int| 0 <= j < i ==> (#[trigger] self.notes@[j]).wf(),
            decreases self.notes@.len() - i,
        {
            let n = &self.notes[i];
            if n.pitch > 87 || n.duration_ms > u32::MAX - n.start_ms {
                assert(!self.notes@[i as int].wf());
                return false;
            }
            i = i + 1;
        }
        true
    }
}

/// MIDI note number to piano pitch: MIDI 21 (A0) is pitch 0, MIDI 108 (C8)
/// is pitch 87. Numbers below 21 saturate to 0.
pub open spec fn spec_midi_to_pitch(midi_note: int) -> int {
    if midi_note >= 21 {
        midi_note - 21
    } else {
        0
    }
}

/// Convert a MIDI note number (60 = C4) to a pitch (0-87).
pub fn midi_to_pitch(midi_note: u8) -> (pitch: u8)
    ensures
        pitch == spec_midi_to_pitch(midi_note as int),
{
    midi_note.saturating_sub(21)
}


/// The piano's MIDI range, 21 (A0) to 108 (C8), maps onto pitches 0 to 87,
/// one to one and in order.
pub proof fn lemma_midi_range(a: int, b: int)
    requires
        21 <= a < b <= 108,
    ensures
        0 <= spec_midi_to_pitch(a) < spec_midi_to_pitch(b) <= 87,
        spec_midi_to_pitch(21) == 0,
        spec_midi_to_pitch(108) == 87,
{
}

/// Notes built from `midis`, the `i`-th starting `step_ms * i` after
/// `start_ms`, all with the same length and velocity.
pub open spec fn note_run(midis: Seq<u8>, start_ms: int, step_ms: int, duration_ms: int, velocity_pct: int) -> Seq<Note> {
    Seq::new(
        midis.len(),
        |i: int|
            Note {
                pitch: spec_midi_to_pitch(midis[i] as int) as u8,
                start_ms: (start_ms + step_ms * i) as u32,
                duration_ms: duration_ms as u32,
                velocity_pct: velocity_pct as u8,
            },
    )
}

/// The demo song at 120 BPM (a beat is 500 ms): the C major scale up from C4
/// to C5 and back down in beats held for 0.9 of a beat, then the chords
/// C, F and G for two beats each and a final C chord for four beats.
pub open spec fn demo_notes() -> Seq<Note> {
    note_run(seq![60u8, 62, 64, 65, 67, 69, 71, 72], 0, 500, 450, 80)
        + note_run(seq![71u8, 69, 67, 65, 64, 62, 60], 4000, 500, 450, 80)
        + note_run(seq![60u8, 64, 67], 8000, 0, 1000, 90)
        + note_run(seq![65u8, 69, 72], 9000, 0, 1000, 90)
        + note_run(seq![67u8, 71, 74], 10000, 0, 1000, 90)
        + note_run(seq![60u8, 64, 67, 72], 11000, 0, 2000, 100)
}

/// Appends one note per entry of `midis`, spaced `step_ms` apart.
fn push_run(
    notes: &mut Vec<Note>,
    midis: &[u8],
    start_ms: u32,
    step_ms: u32,
    duration_ms: u32,
    velocity_pct: u8,
)
    requires
        start_ms + step_ms * midis@.len() <= u32::MAX,
    ensures
        final(notes)@ == old(notes)@ + note_run(midis@, start_ms as int, step_ms as int, duration_ms as int, velocity_pct as int),
{
    let ghost run = note_run(midis@, start_ms as int, step_ms as int, duration_ms as int, velocity_pct as int);
    let mut i: usize = 0;
    let mut at: u32 = start_ms;
    while i < midis.len()
        invariant
            0 <= i <= midis@.len(),
            i < midis@.len() ==> at == start_ms + step_ms * i,
            run == note_run(midis@, start_ms as int, step_ms as int, duration_ms as int, velocity_pct as int),
            start_ms + step_ms * midis@.len() <= u32::MAX,
            notes@ == old(notes)@ + run.take(i as int),
        decreases midis@.len() - i,
    {
        notes.push(Note { pitch: midi_to_pitch(midis[i]), start_ms: at, duration_ms, velocity_pct });
        assert(run.take(i + 1) =~= run.take(i as int).push(run[i as int]));
        i = i + 1;
        if i < midis.len() {
            proof {
                assert(step_ms * i <= step_ms * midis@.len()) by (nonlinear_arith)
                    requires
                        i <= midis@.len(),
                ;
                assert(step_ms * i == step_ms * (i - 1) + step_ms) by (nonlinear_arith);
            }
            at = at + step_ms;
        }
    }
    assert(run.take(midis@.len() as int) =~= run);
}

/// The demo song: C major scale ascending and descending, then chords.
pub fn demo_song() -> (song: Song)
    ensures
        song.bpm == 120,
        song.notes@ == demo_notes(),
        song.notes@.len() == 28,
        song.wf(),
        forall|i: int| 0 <= i < song.notes@.len() ==> (#[trigger] song.notes@[i]).duration_ms > 0,
{
    let bpm: u32 = 120;
    let beat: u32 = 60_000 / bpm;
    let held: u32 = beat * 9 / 10;
    let mut notes: Vec<Note> = Vec::new();

    // C major scale ascending: C4 D4 E4 F4 G4 A4 B4 C5
    let scale_up: [u8; 8] = [60, 62, 64, 65, 67, 69, 71, 72];
    push_run(&mut notes, &scale_up, 0, beat, held, 80);
    // C major scale descending: B4 A4 G4 F4 E4 D4 C4
    let scale_down: [u8; 7] = [71, 69, 67, 65, 64, 62, 60];
    push_run(&mut notes, &scale_down, 8 * beat, beat, held, 80);

    // Chords section
    let chord_offset: u32 = 16 * beat;
    // C major chord (C4-E4-G4)
    let c_major: [u8; 3] = [60, 64, 67];
    push_run(&mut notes, &c_major, chord_offset, 0, beat * 2, 90);
    // F major chord (F4-A4-C5)
    let f_major: [u8; 3] = [65, 69, 72];
    push_run(&mut notes, &f_major, chord_offset + beat * 2, 0, beat * 2, 90);
    // G major chord (G4-B4-D5)
    let g_major: [u8; 3] = [67, 71, 74];
    push_run(&mut notes, &g_major, chord_offset + beat * 4, 0, beat * 2, 90);
    // C major chord final (C4-E4-G4-C5)
    let c_final: [u8; 4] = [60, 64, 67, 72];
    push_run(&mut notes, &c_final, chord_offset + beat * 6, 0, beat * 4, 100);

    proof {
        assert(scale_up@ == seq![60u8, 62, 64, 65, 67, 69, 71, 72]);
        assert(notes@ == demo_notes());
    }
    Song { notes, bpm }
}

} // verus!
