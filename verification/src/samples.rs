//! Choice of the recorded piano sample that plays a pitch. One sample per
//! octave is recorded, at C1, C2, ..., C8; other pitches are played by
//! resampling the nearest one.

use vstd::prelude::*;

verus! {

/// Number of recorded samples.
pub const SAMPLE_COUNT: usize = 8;

/// Pitch of sample `i`: C1 (pitch 3), C2 (15), ..., C8 (87).
pub open spec fn spec_sample_pitch(i: int) -> int {
    3 + 12 * i
}

/// Returns the pitch of sample `i`.
pub fn sample_pitch(i: usize) -> (p: u8)
    requires
        i < SAMPLE_COUNT,
    ensures
        p == spec_sample_pitch(i as int),
{
    3 + 12 * (i as u8)
}

/// Distance in semitones between two pitches.
pub open spec fn distance(a: int, b: int) -> int {
    if a >= b {
        a - b
    } else {
        b - a
    }
}

/// The sample that plays `pitch`: the nearest one, the lower one on a tie.
/// A sample only counts when it lies within 127 semitones; above pitch 214
/// none does, and sample 0 is used.
pub open spec fn is_nearest_sample(pitch: int, idx: int) -> bool {
    &&& 0 <= idx < SAMPLE_COUNT
    &&& if pitch <= 214 {
        &&& forall|j: int| 0 <= j < SAMPLE_COUNT ==> distance(pitch, spec_sample_pitch(idx)) <= distance(pitch, #[trigger] spec_sample_pitch(j))
        &&& forall|j: int| 0 <= j < idx ==> distance(pitch, spec_sample_pitch(idx)) < distance(pitch, #[trigger] spec_sample_pitch(j))
    } else {
        idx == 0
    }
}

/// Index of the sample nearest to `pitch`, the lower one on a tie.
pub fn nearest_sample(pitch: u8) -> (idx: usize)
    ensures
        is_nearest_sample(pitch as int, idx as int),
{
    let mut best_idx: usize = 0;
    let mut best_dist: i16 = 128;
    let mut i: usize = 0;
    while i < SAMPLE_COUNT
        invariant
            i <= SAMPLE_COUNT,
            best_idx < SAMPLE_COUNT,
            i == 0 ==> best_idx == 0 && best_dist == 128,
            i > 0 && best_dist < 128 ==> best_idx < i && best_dist == distance(pitch as int, spec_sample_pitch(best_idx as int)),
            best_dist == 128 ==> best_idx == 0,
            best_dist <= 128,
            forall|j: int| 0 <= j < i ==> best_dist <= distance(pitch as int, #[trigger] spec_sample_pitch(j)),
            forall|j: int| 0 <= j < best_idx && best_dist < 128 ==> best_dist < distance(pitch as int, #[trigger] spec_sample_pitch(j)),
        decreases SAMPLE_COUNT - i,
    {
        let sp = sample_pitch(i);
        let dist: i16 = if pitch >= sp { (pitch - sp) as i16 } else { (sp - pitch) as i16 };
        if dist < best_dist {
            best_dist = dist;
            best_idx = i;
        }
        i = i + 1;
    }
    assert(distance(pitch as int, spec_sample_pitch(7)) == distance(pitch as int, 87));
    best_idx
}

/// Semitones from sample `idx` up to `pitch` (negative below it); the sample
/// is resampled by `2^(offset / 12)`.
pub fn semitone_offset(pitch: u8, idx: usize) -> (offset: i16)
    requires
        idx < SAMPLE_COUNT,
    ensures
        offset == pitch - spec_sample_pitch(idx as int),
{
    pitch as i16 - sample_pitch(idx) as i16
}

/// Every pitch of the piano (0..=87) is played from a sample at most six
/// semitones away, so no sample is shifted by more than half an octave.
pub proof fn lemma_shift_at_most_half_octave(pitch: int, idx: int)
    requires
        0 <= pitch <= 87,
        is_nearest_sample(pitch, idx),
    ensures
        distance(pitch, spec_sample_pitch(idx)) <= 6,
{
    let j: int = if pitch < 3 { 0 } else if (pitch - 3) % 12 <= 6 { (pitch - 3) / 12 } else { (pitch - 3) / 12 + 1 };
    assert(0 <= j < SAMPLE_COUNT);
    assert(distance(pitch, spec_sample_pitch(j)) <= 6);
}

} // verus!
