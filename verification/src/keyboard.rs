//! Layout of the 88-key piano. Pitch 0 is A0, pitch 87 is C8.
//! The visible range spans seven octaves, C1 (pitch 3) to B7 (pitch 86).

use vstd::prelude::*;

verus! {

/// First visible pitch (C1).
pub const VISIBLE_START: u8 = 3;

/// Last visible pitch (B7).
pub const VISIBLE_END: u8 = 86;

/// Pitch class with C as 0: C=0, C#=1, D=2, ..., B=11.
pub open spec fn spec_pitch_class(pitch: int) -> int {
    (pitch + 9) % 12
}

/// A pitch is a black key when its pitch class is C#, D#, F#, G# or A#.
pub open spec fn spec_is_black(pitch: int) -> bool {
    let pc = spec_pitch_class(pitch);
    pc == 1 || pc == 3 || pc == 6 || pc == 8 || pc == 10
}

/// Number of white keys among the pitches `from..to`.
pub open spec fn count_white(from: int, to: int) -> nat
    decreases to - from,
{
    if to <= from {
        0
    } else {
        count_white(from, to - 1) + if spec_is_black(to - 1) { 0nat } else { 1nat }
    }
}

/// Returns the pitch class of a pitch, with C as 0.
pub fn pitch_class(pitch: u8) -> (pc: u8)
    requires
        pitch <= 246,
    ensures
        pc == spec_pitch_class(pitch as int),
        pc < 12,
{
    (pitch + 9) % 12
}

/// Returns true if the given pitch is a black key.
pub fn is_black_key(pitch: u8) -> (black: bool)
    requires
        pitch <= 246,
    ensures
        black == spec_is_black(pitch as int),
{
    let note = (pitch + 9) % 12;
    note == 1 || note == 3 || note == 6 || note == 8 || note == 10
}

/// Returns true if the pitch is in the visible keyboard range.
pub fn is_visible(pitch: u8) -> (visible: bool)
    ensures
        visible == (VISIBLE_START <= pitch <= VISIBLE_END),
{
    pitch >= VISIBLE_START && pitch <= VISIBLE_END
}


/// Counting white keys over `a..c` splits at any `b` between them.
pub proof fn lemma_count_white_split(a: int, b: int, c: int)
    requires
        a <= b <= c,
    ensures
        count_white(a, c) == count_white(a, b) + count_white(b, c),
    decreases c - b,
{
    if c > b {
        lemma_count_white_split(a, b, c - 1);
    }
}

/// Every run of twelve consecutive pitches (one octave) holds seven white keys.
#[verifier::spinoff_prover]
#[verifier::rlimit(40)]
pub proof fn lemma_count_white_octave(a: int)
    ensures
        count_white(a, a + 12) == 7,
{
    let r = spec_pitch_class(a);
    reveal_with_fuel(count_white, 13);
    assert(0 <= r < 12);
    assert(spec_pitch_class(a + 1) == (r + 1) % 12);
    assert(spec_pitch_class(a + 2) == (r + 2) % 12);
    assert(spec_pitch_class(a + 3) == (r + 3) % 12);
    assert(spec_pitch_class(a + 4) == (r + 4) % 12);
    assert(spec_pitch_class(a + 5) == (r + 5) % 12);
    assert(spec_pitch_class(a + 6) == (r + 6) % 12);
    assert(spec_pitch_class(a + 7) == (r + 7) % 12);
    assert(spec_pitch_class(a + 8) == (r + 8) % 12);
    assert(spec_pitch_class(a + 9) == (r + 9) % 12);
    assert(spec_pitch_class(a + 10) == (r + 10) % 12);
    assert(spec_pitch_class(a + 11) == (r + 11) % 12);
}

/// `k` consecutive octaves hold `7 * k` white keys.
pub proof fn lemma_count_white_octaves(a: int, k: nat)
    ensures
        count_white(a, a + 12 * k) == 7 * k,
    decreases k,
{
    if k > 0 {
        lemma_count_white_octaves(a, (k - 1) as nat);
        lemma_count_white_split(a, a + 12 * (k - 1), a + 12 * k);
        lemma_count_white_octave(a + 12 * (k - 1));
    }
}

/// Number of white keys in the visible range C1..=B7.
pub fn visible_white_count() -> (n: u32)
    ensures
        n == count_white(VISIBLE_START as int, VISIBLE_END as int + 1),
        n == 49,
{
    proof {
        lemma_count_white_octaves(VISIBLE_START as int, 7);
    }
    count_white_keys_in_range(VISIBLE_START, VISIBLE_END + 1)
}

/// Number of white keys among the pitches `from..to` (none when `to <= from`).
pub fn count_white_keys_in_range(from: u8, to: u8) -> (n: u32)
    requires
        from < to ==> to <= 247,
    ensures
        n == count_white(from as int, to as int),
{
    let mut n: u32 = 0;
    let mut p: u8 = from;
    if to <= from {
        return 0;
    }
    while p < to
        invariant
            from <= p <= to,
            to <= 247,
            n == count_white(from as int, p as int),
            n <= p - from,
        decreases to - p,
    {
        if !is_black_key(p) {
            n = n + 1;
        }
        p = p + 1;
    }
    n
}


/// The full 88-key piano (pitches 0..=87) has 52 white keys, hence 36 black keys.
pub proof fn lemma_piano_white_key_count()
    ensures
        count_white(0, 88) == 52,
        88 - count_white(0, 88) == 36,
{
    lemma_count_white_octaves(0, 7);
    lemma_count_white_split(0, 84, 88);
    reveal_with_fuel(count_white, 5);
}

/// The black/white pattern repeats every octave.
pub proof fn lemma_key_color_periodic(pitch: int)
    ensures
        spec_is_black(pitch + 12) == spec_is_black(pitch),
        spec_pitch_class(pitch + 12) == spec_pitch_class(pitch),
{
}

/// The nearest white key at or below `pitch` (pitch 0, A0, is white).
pub open spec fn white_at_or_below(pitch: int) -> int
    decreases pitch,
{
    if pitch <= 0 || !spec_is_black(pitch) {
        pitch
    } else {
        white_at_or_below(pitch - 1)
    }
}

/// Index, among the visible white keys, of the nearest white key below `pitch`.
pub open spec fn spec_white_key_index_before(pitch: int) -> nat {
    count_white(VISIBLE_START as int, white_at_or_below(pitch - 1))
}

/// Index of the nearest white key below `pitch`, counted from C1.
pub fn white_key_index_before(pitch: u8) -> (idx: u32)
    requires
        1 <= pitch <= 247,
    ensures
        idx == spec_white_key_index_before(pitch as int),
{
    let mut p = pitch - 1;
    while is_black_key(p)
        invariant
            p <= 246,
            white_at_or_below(p as int) == white_at_or_below(pitch - 1),
        decreases p,
    {
        p -= 1;
    }
    count_white_keys_in_range(VISIBLE_START, p)
}


/// Horizontal extent of one key, in tenths of a white key's width, measured
/// from the left edge of C1. A white key is 10 units wide, a black key 6.
#[derive(Clone, Copy, Debug, PartialEq, Eq, Structural)]
pub struct KeySpan {
    pub left: u32,
    pub width: u32,
}

/// Layout units in one white key's width.
pub const UNITS_PER_WHITE_KEY: u32 = 10;

/// Width of a black key in layout units (60% of a white key).
pub const BLACK_KEY_UNITS: u32 = 6;

/// The span of `pitch`: a white key sits at its index among the visible white
/// keys; a black key is centred on the right edge of the white key below it.
/// Keys left of C1 are clamped to the left edge.
pub open spec fn spec_key_span(pitch: int) -> KeySpan {
    if pitch < VISIBLE_START {
        KeySpan { left: 0, width: if spec_is_black(pitch) { 6 } else { 10 } }
    } else if spec_is_black(pitch) {
        KeySpan {
            left: (10 * spec_white_key_index_before(pitch) + 7) as u32,
            width: 6,
        }
    } else {
        KeySpan { left: (10 * count_white(VISIBLE_START as int, pitch)) as u32, width: 10 }
    }
}

/// Returns the left edge and width of a key in layout units (tenths of a white
/// key). Keys left of C1 are clamped to the left edge; C8, right of B7, starts
/// at the right edge of B7.
pub fn key_span(pitch: u8) -> (span: KeySpan)
    requires
        pitch <= 246,
    ensures
        span == spec_key_span(pitch as int),
{
    if pitch < VISIBLE_START {
        let width = if is_black_key(pitch) { BLACK_KEY_UNITS } else { UNITS_PER_WHITE_KEY };
        KeySpan { left: 0, width }
    } else if is_black_key(pitch) {
        let white_index = white_key_index_before(pitch);
        proof {
            lemma_count_white_bound(VISIBLE_START as int, white_at_or_below(pitch - 1));
        }
        KeySpan { left: white_index * UNITS_PER_WHITE_KEY + 7, width: BLACK_KEY_UNITS }
    } else {
        let white_index = count_white_keys_in_range(VISIBLE_START, pitch);
        proof {
            lemma_count_white_bound(VISIBLE_START as int, pitch as int);
        }
        KeySpan { left: white_index * UNITS_PER_WHITE_KEY, width: UNITS_PER_WHITE_KEY }
    }
}

/// At most one white key per pitch.
pub proof fn lemma_count_white_bound(a: int, b: int)
    ensures
        count_white(a, b) <= if b > a { b - a } else { 0 },
    decreases b - a,
{
    if b > a {
        lemma_count_white_bound(a, b - 1);
    }
}

/// Keys outside the visible range sit at the edges of the keyboard: those
/// below C1 at the left edge, C8 at the right edge (490 units, 49 white keys).
pub proof fn lemma_outside_keys_at_edges(pitch: int)
    requires
        0 <= pitch <= 87,
        pitch < VISIBLE_START || pitch > VISIBLE_END,
    ensures
        pitch < VISIBLE_START ==> spec_key_span(pitch).left == 0,
        pitch > VISIBLE_END ==> spec_key_span(pitch).left == 10 * count_white(
            VISIBLE_START as int,
            VISIBLE_END as int + 1,
        ),
        pitch > VISIBLE_END ==> spec_key_span(pitch).left == 490,
{
    if pitch > VISIBLE_END {
        lemma_count_white_octaves(VISIBLE_START as int, 7);
        assert(!spec_is_black(87));
    }
}

/// Visible white keys are laid out left to right without overlapping, and
/// adjacent white keys touch.
pub proof fn lemma_white_keys_ordered(p: int, q: int)
    requires
        VISIBLE_START <= p < q <= 246,
        !spec_is_black(p),
        !spec_is_black(q),
    ensures
        spec_key_span(p).left + spec_key_span(p).width <= spec_key_span(q).left,
        count_white(p + 1, q) == 0 ==> spec_key_span(p).left + spec_key_span(p).width
            == spec_key_span(q).left,
{
    lemma_count_white_split(VISIBLE_START as int, p, q);
    lemma_count_white_split(p, p + 1, q);
    reveal_with_fuel(count_white, 2);
    lemma_count_white_bound(VISIBLE_START as int, q);
    lemma_count_white_bound(VISIBLE_START as int, p);
}

/// A visible black key is centred on the seam between its two white
/// neighbours: its middle is the left edge of the white key above it.
pub proof fn lemma_black_key_centred(p: int)
    requires
        VISIBLE_START < p < VISIBLE_END,
        spec_is_black(p),
    ensures
        !spec_is_black(p - 1),
        !spec_is_black(p + 1),
        spec_key_span(p).left + spec_key_span(p).width / 2 == spec_key_span(p + 1).left,
{
    assert(white_at_or_below(p - 1) == p - 1);
    lemma_count_white_split(VISIBLE_START as int, p - 1, p + 1);
    reveal_with_fuel(count_white, 3);
    lemma_count_white_bound(VISIBLE_START as int, p + 1);
}


/// Black neighbours of a key, encoded 1 = left only, 2 = right only, 3 = both,
/// 0 = none. The piano has no key left of pitch 0 nor right of pitch 87.
pub fn black_neighbors(pitch: u8) -> (code: u8)
    requires
        pitch <= 247,
    ensures
        code == (if pitch > 0 && spec_is_black(pitch - 1) { 1u8 } else { 0u8 }) + (if pitch < 87
            && spec_is_black(pitch + 1) { 2u8 } else { 0u8 }),
        code <= 3,
{
    let has_left = pitch > 0 && is_black_key(pitch - 1);
    let has_right = pitch < 87 && is_black_key(pitch + 1);
    (if has_left { 1u8 } else { 0u8 }) + (if has_right { 2u8 } else { 0u8 })
}

/// Position of a white pitch class within the octave: C=0, D=1, E=2, F=3,
/// G=4, A=5, B=6. Black pitch classes (and anything else) map to 0.
pub open spec fn spec_white_position(pc: int) -> int {
    if pc == 0 {
        0
    } else if pc == 2 {
        1
    } else if pc == 4 {
        2
    } else if pc == 5 {
        3
    } else if pc == 7 {
        4
    } else if pc == 9 {
        5
    } else if pc == 11 {
        6
    } else {
        0
    }
}

/// Returns the position of a white pitch class within its octave (C=0 .. B=6).
pub fn white_position(pc: u8) -> (pos: u8)
    ensures
        pos == spec_white_position(pc as int),
        pos <= 6,
{
    match pc {
        0 => 0,
        2 => 1,
        4 => 2,
        5 => 3,
        7 => 4,
        9 => 5,
        11 => 6,
        _ => 0,
    }
}

} // verus!
