//! What the song clock decides: which notes sound, which keys are down, which
//! notes must still fire their sound, which keys light up ahead of a note,
//! when the song loops, and how the view is centred on a song.

use vstd::prelude::*;
use crate::keyboard::{VISIBLE_START, VISIBLE_END};
use crate::note::{Note, Song};

verus! {

/// Number of keys on the piano.
pub const KEY_COUNT: usize = 88;

/// How far ahead of its onset a note lights its key, in milliseconds.
pub const LOOKAHEAD_MS: u32 = 800;

/// Silence after the last note before the song starts over, in milliseconds.
pub const LOOP_GAP_MS: u32 = 2000;

/// A note sounds from its onset (inclusive) to its end (exclusive).
pub open spec fn sounding(note: Note, t: int) -> bool {
    note.start_ms <= t && t < note.end_ms()
}

/// Returns whether `note` sounds at time `t`.
pub fn is_sounding(note: &Note, t: u32) -> (s: bool)
    ensures
        s == sounding(*note, t as int),
{
    let end: u64 = note.start_ms as u64 + note.duration_ms as u64;
    note.start_ms <= t && (t as u64) < end
}

/// Key `k` is down at `t` when some note on it sounds.
pub open spec fn key_down(notes: Seq<Note>, k: int, t: int) -> bool {
    exists|i: int| 0 <= i < notes.len() && notes[i].pitch == k && #[trigger] sounding(notes[i], t)
}

/// Returns, for each of the 88 keys, whether some note on it sounds at `t`.
pub fn active_keys(song: &Song, t: u32) -> (keys: Vec<bool>)
    requires
        song.wf(),
    ensures
        keys@.len() == KEY_COUNT,
        forall|k: int| 0 <= k < KEY_COUNT ==> #[trigger] keys@[k] == key_down(song.notes@, k, t as int),
{
    let mut keys: Vec<bool> = Vec::new();
    let mut k: usize = 0;
    while k < KEY_COUNT
        invariant
            k <= KEY_COUNT,
            keys@.len() == k,
            forall|j: int| 0 <= j < k ==> !#[trigger] keys@[j],
        decreases KEY_COUNT - k,
    {
        keys.push(false);
        k = k + 1;
    }
    let ghost notes = song.notes@;
    let mut i: usize = 0;
    while i < song.notes.len()
        invariant
            notes == song.notes@,
            song.wf(),
            i <= notes.len(),
            keys@.len() == KEY_COUNT,
            forall|k: int|
                0 <= k < KEY_COUNT ==> #[trigger] keys@[k] == exists|j: int|
                    0 <= j < i && notes[j].pitch == k && #[trigger] sounding(notes[j], t as int),
        decreases notes.len() - i,
    {
        let n = &song.notes[i];
        assert(notes[i as int].wf());
        if is_sounding(n, t) {
            keys.set(n.pitch as usize, true);
        }
        assert forall|k: int| 0 <= k < KEY_COUNT implies #[trigger] keys@[k] == exists|j: int|
            0 <= j < i + 1 && notes[j].pitch == k && #[trigger] sounding(notes[j], t as int) by {
            if notes[i as int].pitch == k && sounding(notes[i as int], t as int) {
                assert(0 <= i < i + 1 && notes[i as int].pitch == k && sounding(notes[i as int], t as int));
            }
        }
        i = i + 1;
    }
    keys
}


/// Trigger flags after re-arming every note that starts after `t`.
pub open spec fn rearmed_after(notes: Seq<Note>, triggered: Seq<bool>, t: int) -> Seq<bool> {
    Seq::new(triggered.len(), |i: int| triggered[i] && !(notes[i].start_ms > t))
}

/// Scrubbing back to `t` re-arms every note that starts after `t`, so it fires
/// again when the clock reaches it; other notes keep their state.
pub fn rearm_after(song: &Song, triggered: &mut Vec<bool>, t: u32)
    requires
        old(triggered)@.len() == song.notes@.len(),
    ensures
        final(triggered)@ == rearmed_after(song.notes@, old(triggered)@, t as int),
{
    let mut i: usize = 0;
    while i < song.notes.len()
        invariant
            i <= song.notes@.len(),
            triggered@.len() == song.notes@.len(),
            forall|j: int|
                0 <= j < i ==> #[trigger] triggered@[j] == (old(triggered)@[j] && !(
                song.notes@[j].start_ms > t)),
            forall|j: int| i <= j < song.notes@.len() ==> #[trigger] triggered@[j] == old(triggered)@[j],
        decreases song.notes@.len() - i,
    {
        if song.notes[i].start_ms > t {
            triggered.set(i, false);
        }
        i = i + 1;
    }
    assert(triggered@ =~= rearmed_after(song.notes@, old(triggered)@, t as int));
}

/// A rewind step from `prev` back to `now` re-arms the notes whose onset it
/// passed over (`now <= start < prev`); other notes keep their state.
pub fn rearm_between(song: &Song, triggered: &mut Vec<bool>, now: u32, prev: u32)
    requires
        old(triggered)@.len() == song.notes@.len(),
    ensures
        final(triggered)@.len() == old(triggered)@.len(),
        forall|i: int|
            0 <= i < song.notes@.len() ==> #[trigger] final(triggered)@[i] == (old(triggered)@[i]
                && !(now <= song.notes@[i].start_ms && song.notes@[i].start_ms < prev)),
{
    let mut i: usize = 0;
    while i < song.notes.len()
        invariant
            i <= song.notes@.len(),
            triggered@.len() == song.notes@.len(),
            forall|j: int|
                0 <= j < i ==> #[trigger] triggered@[j] == (old(triggered)@[j] && !(now
                    <= song.notes@[j].start_ms && song.notes@[j].start_ms < prev)),
            forall|j: int| i <= j < song.notes@.len() ==> #[trigger] triggered@[j] == old(triggered)@[j],
        decreases song.notes@.len() - i,
    {
        let start = song.notes[i].start_ms;
        if start >= now && start < prev {
            triggered.set(i, false);
        }
        i = i + 1;
    }
}

/// Indices, in increasing order, of the first `n` notes that sound at `t` and
/// have not fired yet.
pub open spec fn newly_sounding(notes: Seq<Note>, triggered: Seq<bool>, t: int, n: int) -> Seq<usize>
    decreases n,
{
    if n <= 0 {
        Seq::empty()
    } else {
        let rest = newly_sounding(notes, triggered, t, n - 1);
        if sounding(notes[n - 1], t) && !triggered[n - 1] {
            rest.push((n - 1) as usize)
        } else {
            rest
        }
    }
}

/// Trigger flags after firing every note that sounds at `t`.
pub open spec fn fired(notes: Seq<Note>, triggered: Seq<bool>, t: int) -> Seq<bool> {
    Seq::new(triggered.len(), |i: int| triggered[i] || sounding(notes[i], t))
}

/// Fires every note that sounds at `t` and has not fired yet: marks it and
/// returns its index, in increasing order, so that its sound can be played.
pub fn fire_sounding(song: &Song, triggered: &mut Vec<bool>, t: u32) -> (started: Vec<usize>)
    requires
        old(triggered)@.len() == song.notes@.len(),
    ensures
        final(triggered)@ == fired(song.notes@, old(triggered)@, t as int),
        started@ == newly_sounding(song.notes@, old(triggered)@, t as int, song.notes@.len() as int),
{
    let ghost notes = song.notes@;
    let ghost trig0 = triggered@;
    let mut started: Vec<usize> = Vec::new();
    let mut i: usize = 0;
    while i < song.notes.len()
        invariant
            notes == song.notes@,
            i <= notes.len(),
            trig0.len() == notes.len(),
            triggered@.len() == notes.len(),
            forall|j: int| 0 <= j < i ==> #[trigger] triggered@[j] == (trig0[j] || sounding(notes[j], t as int)),
            forall|j: int| i <= j < notes.len() ==> #[trigger] triggered@[j] == trig0[j],
            started@ == newly_sounding(notes, trig0, t as int, i as int),
        decreases notes.len() - i,
    {
        if is_sounding(&song.notes[i], t) && !triggered[i] {
            triggered.set(i, true);
            started.push(i);
        }
        i = i + 1;
    }
    assert(triggered@ =~= fired(notes, trig0, t as int));
    started
}

/// Every note that has fired is marked, and no note can fire twice at the
/// same instant: firing again at `t` starts nothing and changes nothing.
pub proof fn lemma_fire_once(notes: Seq<Note>, triggered: Seq<bool>, t: int)
    requires
        triggered.len() == notes.len(),
    ensures
        forall|i: int| 0 <= i < notes.len() && sounding(notes[i], t) ==> #[trigger] fired(notes, triggered, t)[i],
        fired(notes, fired(notes, triggered, t), t) == fired(notes, triggered, t),
        newly_sounding(notes, fired(notes, triggered, t), t, notes.len() as int) == Seq::<usize>::empty(),
{
    let f = fired(notes, triggered, t);
    assert(fired(notes, f, t) =~= f);
    lemma_nothing_new(notes, f, t, notes.len() as int);
}

/// A key that is down at `t` is held by a note whose sound has been fired
/// once `fire_sounding` has run at `t`.
pub proof fn lemma_down_keys_have_fired(notes: Seq<Note>, triggered: Seq<bool>, t: int, k: int)
    requires
        triggered.len() == notes.len(),
        key_down(notes, k, t),
    ensures
        exists|i: int| 0 <= i < notes.len() && notes[i].pitch == k && #[trigger] fired(notes, triggered, t)[i],
{
    let i = choose|i: int| 0 <= i < notes.len() && notes[i].pitch == k && #[trigger] sounding(notes[i], t);
    assert(fired(notes, triggered, t)[i]);
}

/// The notes that fire at `t` are exactly those that sound at `t` and have
/// not fired yet.
pub proof fn lemma_newly_sounding_members(notes: Seq<Note>, triggered: Seq<bool>, t: int, n: int)
    requires
        0 <= n <= notes.len(),
        triggered.len() == notes.len(),
        notes.len() <= usize::MAX,
    ensures
        forall|k: int|
            0 <= k < newly_sounding(notes, triggered, t, n).len() ==> #[trigger] newly_sounding(
                notes,
                triggered,
                t,
                n,
            )[k] < n,
        forall|i: int|
            0 <= i < notes.len() ==> (#[trigger] newly_sounding(notes, triggered, t, n).contains(i as usize)
                <==> (i < n && sounding(notes[i], t) && !triggered[i])),
    decreases n,
{
    if n > 0 {
        lemma_newly_sounding_members(notes, triggered, t, n - 1);
        let rest = newly_sounding(notes, triggered, t, n - 1);
        let cur = newly_sounding(notes, triggered, t, n);
        let last = (n - 1) as usize;
        assert(last as int == n - 1);
        if sounding(notes[n - 1], t) && !triggered[n - 1] {
            assert(cur == rest.push(last));
            assert(cur[rest.len() as int] == last);
            assert forall|i: int| 0 <= i < notes.len() && i != n - 1 implies (#[trigger] cur.contains(i as usize)
                <==> rest.contains(i as usize)) by {
                assert((i as usize) as int == i);
                if cur.contains(i as usize) {
                    let k = choose|k: int| 0 <= k < cur.len() && #[trigger] cur[k] == i as usize;
                    assert(k < rest.len());
                    assert(rest[k] == i as usize);
                }
                if rest.contains(i as usize) {
                    let k = choose|k: int| 0 <= k < rest.len() && #[trigger] rest[k] == i as usize;
                    assert(cur[k] == i as usize);
                }
            }
            assert forall|k: int| 0 <= k < cur.len() implies #[trigger] cur[k] < n by {
                if k < rest.len() {
                    assert(cur[k] == rest[k]);
                }
            }
        } else {
            assert(cur == rest);
            assert(!rest.contains(last)) by {
                if rest.contains(last) {
                    let k = choose|k: int| 0 <= k < rest.len() && #[trigger] rest[k] == last;
                    assert(rest[k] < n - 1);
                }
            }
        }
        assert forall|i: int| 0 <= i < notes.len() implies (#[trigger] cur.contains(i as usize) <==> (i < n
            && sounding(notes[i], t) && !triggered[i])) by {
            if i != n - 1 {
                assert(rest.contains(i as usize) <==> (i < n - 1 && sounding(notes[i], t) && !triggered[i]));
            }
        }
    }
}

/// Scrubbing back re-arms the notes ahead: after re-arming at `t`, a note
/// that starts after `t` fires again whenever the clock finds it sounding.
pub proof fn lemma_rearmed_note_fires_again(notes: Seq<Note>, triggered: Seq<bool>, t: int, later: int, i: int)
    requires
        triggered.len() == notes.len(),
        notes.len() <= usize::MAX,
        0 <= i < notes.len(),
        notes[i].start_ms > t,
        sounding(notes[i], later),
    ensures
        newly_sounding(notes, rearmed_after(notes, triggered, t), later, notes.len() as int).contains(
            i as usize,
        ),
{
    lemma_newly_sounding_members(notes, rearmed_after(notes, triggered, t), later, notes.len() as int);
}

proof fn lemma_nothing_new(notes: Seq<Note>, triggered: Seq<bool>, t: int, n: int)
    requires
        0 <= n <= notes.len(),
        triggered.len() == notes.len(),
        forall|i: int| 0 <= i < notes.len() && sounding(notes[i], t) ==> #[trigger] triggered[i],
    ensures
        newly_sounding(notes, triggered, t, n) == Seq::<usize>::empty(),
    decreases n,
{
    if n > 0 {
        lemma_nothing_new(notes, triggered, t, n - 1);
    }
}


/// Latest end time among the first `n` notes, 0 when there are none.
pub open spec fn last_end(notes: Seq<Note>, n: int) -> int
    decreases n,
{
    if n <= 0 {
        0
    } else {
        let rest = last_end(notes, n - 1);
        if notes[n - 1].end_ms() > rest {
            notes[n - 1].end_ms()
        } else {
            rest
        }
    }
}

/// The song ends when its last note ends (at 0 for an empty song).
pub fn song_end_ms(song: &Song) -> (end: u32)
    requires
        song.wf(),
    ensures
        end == last_end(song.notes@, song.notes@.len() as int),
{
    let mut end: u32 = 0;
    let mut i: usize = 0;
    while i < song.notes.len()
        invariant
            song.wf(),
            i <= song.notes@.len(),
            end == last_end(song.notes@, i as int),
        decreases song.notes@.len() - i,
    {
        let n = &song.notes[i];
        assert(song.notes@[i as int].wf());
        let e: u32 = n.start_ms + n.duration_ms;
        if e > end {
            end = e;
        }
        i = i + 1;
    }
    end
}

/// No note ends after the song's end, and a non-empty song has a note that
/// ends exactly there.
pub proof fn lemma_last_end_is_max(notes: Seq<Note>, n: int)
    requires
        0 <= n <= notes.len(),
    ensures
        forall|i: int| 0 <= i < n ==> #[trigger] notes[i].end_ms() <= last_end(notes, n),
        n > 0 && last_end(notes, n) > 0 ==> exists|i: int|
            0 <= i < n && #[trigger] notes[i].end_ms() == last_end(notes, n),
        last_end(notes, n) >= 0,
    decreases n,
{
    if n > 0 {
        lemma_last_end_is_max(notes, n - 1);
        if notes[n - 1].end_ms() > last_end(notes, n - 1) {
            assert(notes[n - 1].end_ms() == last_end(notes, n));
        }
    }
}

/// The song starts over once the clock is more than two seconds past its end.
pub fn loop_due(song: &Song, t: u32) -> (due: bool)
    requires
        song.wf(),
    ensures
        due == (t > last_end(song.notes@, song.notes@.len() as int) + LOOP_GAP_MS),
{
    let end = song_end_ms(song);
    (t as u64) > (end as u64) + (LOOP_GAP_MS as u64)
}

/// Starts the song over when it is due: every note is re-armed and true is
/// returned (the caller sets the clock back to 0 and clears the sparks);
/// otherwise nothing changes.
pub fn restart_if_due(song: &Song, triggered: &mut Vec<bool>, t: u32) -> (restarted: bool)
    requires
        song.wf(),
    ensures
        restarted == (t > last_end(song.notes@, song.notes@.len() as int) + LOOP_GAP_MS),
        restarted ==> final(triggered)@ == Seq::new(old(triggered)@.len(), |i: int| false),
        !restarted ==> final(triggered)@ == old(triggered)@,
{
    if loop_due(song, t) {
        let n = triggered.len();
        let mut i: usize = 0;
        while i < n
            invariant
                i <= n,
                triggered@.len() == n,
                n == old(triggered)@.len(),
                forall|j: int| 0 <= j < i ==> !#[trigger] triggered@[j],
            decreases n - i,
        {
            triggered.set(i, false);
            i = i + 1;
        }
        assert(triggered@ =~= Seq::new(old(triggered)@.len(), |i: int| false));
        true
    } else {
        false
    }
}

/// A note is upcoming at `t` when its onset lies strictly inside the
/// look-ahead window after `t`.
pub open spec fn upcoming(note: Note, t: int) -> bool {
    t < note.start_ms && note.start_ms - t < LOOKAHEAD_MS
}

/// Time left until the nearest upcoming note on key `k`, if there is one.
pub open spec fn lead_is(notes: Seq<Note>, k: int, t: int, lead: Option<u32>) -> bool {
    match lead {
        Some(m) => {
            &&& exists|i: int|
                0 <= i < notes.len() && notes[i].pitch == k && #[trigger] upcoming(notes[i], t)
                    && notes[i].start_ms - t == m
            &&& forall|i: int|
                0 <= i < notes.len() && notes[i].pitch == k && #[trigger] upcoming(notes[i], t)
                    ==> m <= notes[i].start_ms - t
        },
        None => forall|i: int|
            0 <= i < notes.len() && notes[i].pitch == k ==> !#[trigger] upcoming(notes[i], t),
    }
}

/// For each of the 88 keys, the time left until the nearest note on it that
/// starts within the look-ahead window; keys light up as that time shrinks.
pub fn upcoming_leads(song: &Song, t: u32) -> (leads: Vec<Option<u32>>)
    ensures
        leads@.len() == KEY_COUNT,
        forall|k: int| 0 <= k < KEY_COUNT ==> lead_is(song.notes@, k, t as int, #[trigger] leads@[k]),
{
    let ghost notes = song.notes@;
    let mut leads: Vec<Option<u32>> = Vec::new();
    let mut k: usize = 0;
    while k < KEY_COUNT
        invariant
            k <= KEY_COUNT,
            leads@.len() == k,
            forall|j: int| 0 <= j < k ==> #[trigger] leads@[j] == None::<u32>,
        decreases KEY_COUNT - k,
    {
        leads.push(None);
        k = k + 1;
    }
    let mut i: usize = 0;
    while i < song.notes.len()
        invariant
            notes == song.notes@,
            i <= notes.len(),
            leads@.len() == KEY_COUNT,
            forall|k: int| 0 <= k < KEY_COUNT ==> lead_is(notes.take(i as int), k, t as int, #[trigger] leads@[k]),
        decreases notes.len() - i,
    {
        let n = &song.notes[i];
        let idx = n.pitch as usize;
        let ghost before = leads@;
        if t < n.start_ms && n.start_ms - t < LOOKAHEAD_MS && idx < KEY_COUNT {
            let lead = n.start_ms - t;
            let better = match leads[idx] {
                Some(m) => lead < m,
                None => true,
            };
            if better {
                leads.set(idx, Some(lead));
            }
        }
        assert forall|k: int| 0 <= k < KEY_COUNT implies lead_is(notes.take(i + 1), k, t as int, #[trigger] leads@[k]) by {
            let pre = notes.take(i as int);
            let post = notes.take(i + 1);
            assert(post =~= pre.push(notes[i as int]));
            assert(lead_is(pre, k, t as int, before[k]));
            assert(forall|j: int| 0 <= j < i ==> post[j] == pre[j]);
            assert(post[i as int] == notes[i as int]);
            match leads@[k] {
                Some(m) => {
                    if k == idx && upcoming(notes[i as int], t as int) && m == notes[i as int].start_ms - t {
                        assert(0 <= i < post.len() && post[i as int].pitch == k && upcoming(post[i as int], t as int)
                            && post[i as int].start_ms - t == m);
                    } else {
                        let w = choose|j: int|
                            0 <= j < pre.len() && pre[j].pitch == k && #[trigger] upcoming(pre[j], t as int)
                                && pre[j].start_ms - t == m;
                        assert(0 <= w < post.len() && post[w].pitch == k && upcoming(post[w], t as int)
                            && post[w].start_ms - t == m);
                    }
                },
                None => {},
            }
        }
        i = i + 1;
    }
    assert(notes.take(notes.len() as int) =~= notes);
    leads
}

/// The pitch range a view centres on: `None` for an empty song or one whose
/// notes reach within five keys of both ends of the visible keyboard,
/// otherwise the lowest and highest pitch played.
pub open spec fn centring_range_is(notes: Seq<Note>, range: Option<(u8, u8)>) -> bool {
    match range {
        None => notes.len() == 0 || ((exists|i: int|
            0 <= i < notes.len() && #[trigger] notes[i].pitch <= VISIBLE_START + 5) && (exists|
            i: int|
            0 <= i < notes.len() && #[trigger] notes[i].pitch >= VISIBLE_END - 5)),
        Some((lo, hi)) => {
            &&& exists|i: int| 0 <= i < notes.len() && #[trigger] notes[i].pitch == lo
            &&& exists|i: int| 0 <= i < notes.len() && #[trigger] notes[i].pitch == hi
            &&& forall|i: int| 0 <= i < notes.len() ==> lo <= #[trigger] notes[i].pitch <= hi
            &&& !(lo <= VISIBLE_START + 5 && hi >= VISIBLE_END - 5)
        },
    }
}

/// The range of pitches to centre the view on, if the song needs centring.
pub fn centring_range(song: &Song) -> (range: Option<(u8, u8)>)
    ensures
        centring_range_is(song.notes@, range),
{
    let ghost notes = song.notes@;
    if song.notes.len() == 0 {
        return None;
    }
    let mut lo: u8 = song.notes[0].pitch;
    let mut hi: u8 = song.notes[0].pitch;
    let mut i: usize = 1;
    while i < song.notes.len()
        invariant
            notes == song.notes@,
            1 <= i <= notes.len(),
            exists|j: int| 0 <= j < i && #[trigger] notes[j].pitch == lo,
            exists|j: int| 0 <= j < i && #[trigger] notes[j].pitch == hi,
            forall|j: int| 0 <= j < i ==> lo <= #[trigger] notes[j].pitch <= hi,
        decreases notes.len() - i,
    {
        let p = song.notes[i].pitch;
        if p < lo {
            lo = p;
        }
        if p > hi {
            hi = p;
        }
        i = i + 1;
    }
    if lo <= VISIBLE_START + 5 && hi >= VISIBLE_END - 5 {
        None
    } else {
        Some((lo, hi))
    }
}


/// When a note sounds, in terms of its fields alone: from its onset up to,
/// but not including, onset plus length.
pub proof fn lemma_sounding_window(note: Note, t: int)
    ensures
        sounding(note, t) == (note.start_ms <= t && t < note.start_ms + note.duration_ms),
        note.end_ms() == note.start_ms + note.duration_ms,
{
}

/// A key is down at `t` exactly when some note on it has `t` inside its
/// window from onset to onset plus length.
pub proof fn lemma_key_down_meaning(notes: Seq<Note>, k: int, t: int)
    ensures
        key_down(notes, k, t) <==> exists|i: int|
            0 <= i < notes.len() && #[trigger] notes[i].pitch == k && notes[i].start_ms <= t && t
                < notes[i].start_ms + notes[i].duration_ms,
{
    if key_down(notes, k, t) {
        let i = choose|i: int| 0 <= i < notes.len() && notes[i].pitch == k && #[trigger] sounding(notes[i], t);
        assert(notes[i].pitch == k);
    }
    if exists|i: int|
        0 <= i < notes.len() && #[trigger] notes[i].pitch == k && notes[i].start_ms <= t && t
            < notes[i].start_ms + notes[i].duration_ms {
        let i = choose|i: int|
            0 <= i < notes.len() && #[trigger] notes[i].pitch == k && notes[i].start_ms <= t && t
                < notes[i].start_ms + notes[i].duration_ms;
        assert(sounding(notes[i], t));
    }
}

/// Firing at `t` sets a note's flag only when the note sounds at `t`: every
/// other note keeps its flag, and no flag is ever cleared.
pub proof fn lemma_fire_sets_only_sounding(notes: Seq<Note>, triggered: Seq<bool>, t: int)
    requires
        triggered.len() == notes.len(),
    ensures
        fired(notes, triggered, t).len() == triggered.len(),
        forall|i: int|
            0 <= i < notes.len() ==> #[trigger] fired(notes, triggered, t)[i] == (triggered[i] || (
            notes[i].start_ms <= t && t < notes[i].start_ms + notes[i].duration_ms)),
        forall|i: int|
            0 <= i < notes.len() && !(notes[i].start_ms <= t && t < notes[i].start_ms
                + notes[i].duration_ms) ==> #[trigger] fired(notes, triggered, t)[i] == triggered[i],
{
}

/// The notes reported as started at `t` are exactly those whose window holds
/// `t` and whose flag was clear.
pub proof fn lemma_started_notes(notes: Seq<Note>, triggered: Seq<bool>, t: int)
    requires
        triggered.len() == notes.len(),
        notes.len() <= usize::MAX,
    ensures
        forall|i: int|
            0 <= i < notes.len() ==> (#[trigger] newly_sounding(notes, triggered, t, notes.len() as int).contains(
                i as usize,
            ) <==> (notes[i].start_ms <= t && t < notes[i].start_ms + notes[i].duration_ms
                && !triggered[i])),
{
    lemma_newly_sounding_members(notes, triggered, t, notes.len() as int);
}

/// Re-arming at `t` only ever clears flags, and only those of notes that
/// start after `t`: a note starting at or before `t` keeps its flag.
pub proof fn lemma_rearm_only_clears(notes: Seq<Note>, triggered: Seq<bool>, t: int)
    requires
        triggered.len() == notes.len(),
    ensures
        rearmed_after(notes, triggered, t).len() == triggered.len(),
        forall|i: int|
            0 <= i < notes.len() ==> #[trigger] rearmed_after(notes, triggered, t)[i] == (triggered[i]
                && notes[i].start_ms <= t),
        forall|i: int|
            0 <= i < notes.len() && #[trigger] rearmed_after(notes, triggered, t)[i] ==> triggered[i],
        forall|i: int|
            0 <= i < notes.len() && notes[i].start_ms <= t ==> #[trigger] rearmed_after(notes, triggered, t)[i]
                == triggered[i],
{
}

/// Whether a note is upcoming depends on its onset and `t` only: it starts
/// after `t` and less than 800 ms later, whatever its pitch, length or
/// strength.
pub proof fn lemma_upcoming_window(a: Note, b: Note, t: int)
    ensures
        upcoming(a, t) == (t < a.start_ms && a.start_ms < t + 800),
        a.start_ms == b.start_ms ==> upcoming(a, t) == upcoming(b, t),
{
}

/// What the look-ahead reports, in terms of note fields alone: `Some(m)` is
/// the least time until an onset on key `k` in the next 800 ms, and `None`
/// means no note on `k` starts in that window.
pub proof fn lemma_lead_meaning(notes: Seq<Note>, k: int, t: int, lead: Option<u32>)
    requires
        lead_is(notes, k, t, lead),
    ensures
        lead is None ==> forall|i: int|
            0 <= i < notes.len() && #[trigger] notes[i].pitch == k ==> !(t < notes[i].start_ms
                && notes[i].start_ms < t + 800),
        lead is Some ==> forall|i: int|
            0 <= i < notes.len() && #[trigger] notes[i].pitch == k && t < notes[i].start_ms
                && notes[i].start_ms < t + 800 ==> lead->0 <= notes[i].start_ms - t,
        lead is Some ==> exists|i: int|
            0 <= i < notes.len() && #[trigger] notes[i].pitch == k && t < notes[i].start_ms
                && notes[i].start_ms < t + 800 && notes[i].start_ms - t == lead->0,
{
    match lead {
        Some(m) => {
            let i = choose|i: int|
                0 <= i < notes.len() && notes[i].pitch == k && #[trigger] upcoming(notes[i], t)
                    && notes[i].start_ms - t == m;
            assert(notes[i].pitch == k);
            assert forall|j: int|
                0 <= j < notes.len() && #[trigger] notes[j].pitch == k && t < notes[j].start_ms
                    && notes[j].start_ms < t + 800 implies m <= notes[j].start_ms - t by {
                assert(upcoming(notes[j], t));
            }
        },
        None => {
            assert forall|j: int| 0 <= j < notes.len() && #[trigger] notes[j].pitch == k implies !(t
                < notes[j].start_ms && notes[j].start_ms < t + 800) by {
                assert(!upcoming(notes[j], t));
            }
        },
    }
}

/// A note starting on key `k` within the next 800 ms always lights the key,
/// with at most the time left until it.
pub proof fn lemma_upcoming_note_lights_key(notes: Seq<Note>, t: int, lead: Option<u32>, i: int)
    requires
        0 <= i < notes.len(),
        t < notes[i].start_ms < t + 800,
        lead_is(notes, notes[i].pitch as int, t, lead),
    ensures
        lead is Some,
        lead->0 <= notes[i].start_ms - t,
{
    lemma_lead_meaning(notes, notes[i].pitch as int, t, lead);
}

} // verus!
