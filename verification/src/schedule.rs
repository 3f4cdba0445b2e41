//! Cursors over beat-ordered schedules: how far a schedule has been passed,
//! and which palette colour and timing a colour cycle is at.

use vstd::prelude::*;

verus! {

/// Whether `stop` is where a cursor moved from `start` towards `end` over
/// the entries that `passed` said were passed ends up: every entry from
/// `start` up to `stop` was passed, and `stop` is `end` or an entry that
/// was not passed. A cursor already at or beyond `end` stays where it is.
pub open spec fn advanced_to<F: Fn(usize) -> bool>(passed: F, start: usize, end: usize, stop: usize) -> bool {
    &&& start >= end ==> stop == start
    &&& start < end ==> start <= stop <= end
    &&& forall|k: usize| start <= k < stop ==> #[trigger] passed.ensures((k,), true)
    &&& stop < end ==> passed.ensures((stop,), false)
}

/// Whether `passed` gives the same answer each time it is asked about the
/// same entry, as a comparison of the beat with a fixed timing does.
pub open spec fn answers_consistently<F: Fn(usize) -> bool>(passed: F) -> bool {
    forall|k: usize, a: bool, b: bool|
        #[trigger] passed.ensures((k,), a) && #[trigger] passed.ensures((k,), b) ==> a == b
}

/// Moves a cursor forward from `start` over the schedule entries that have
/// been passed, stopping at the first entry that has not been passed or at
/// `end`, and returns where it stopped.
///
/// `passed(k)` tells whether entry `k` of the schedule has been passed (for
/// a colour cycle, whether the beat is past its `k`-th timing; for a
/// sequence of shapes, whether the beat is past the time of shape `k`).
/// Entries are looked at in order, each at most once.
pub fn advance_while<F: Fn(usize) -> bool>(start: usize, end: usize, passed: &F) -> (stop: usize)
    requires
        forall|k: usize| start <= k < end ==> passed.requires((k,)),
    ensures
        advanced_to(*passed, start, end, stop),
{
    let mut k = start;
    while k < end
        invariant
            forall|j: usize| start <= j < end ==> passed.requires((j,)),
            start <= k,
            start < end ==> k <= end,
            start >= end ==> k == start,
            forall|j: usize| start <= j < k ==> passed.ensures((j,), true),
        decreases end - k,
    {
        if passed(k) {
            k = k + 1;
        } else {
            return k;
        }
    }
    k
}

/// Moving the cursor again from where it stopped, towards the same end and
/// with a schedule that answers consistently (the same beat), moves it
/// nowhere: each entry is passed at most once, and repeating a beat does
/// nothing more.
pub proof fn law_advance_again_stays<F: Fn(usize) -> bool>(
    passed: F,
    start: usize,
    end: usize,
    stop: usize,
    again: usize,
)
    requires
        answers_consistently(passed),
        advanced_to(passed, start, end, stop),
        advanced_to(passed, stop, end, again),
    ensures
        again == stop,
{
    if stop < end && again > stop {
        assert(passed.ensures((stop,), true));
        assert(passed.ensures((stop,), false));
    }
}

/// A cursor only moves forward, never past the end of its schedule unless
/// it was already there.
pub proof fn law_advance_moves_forward<F: Fn(usize) -> bool>(
    passed: F,
    start: usize,
    end: usize,
    stop: usize,
)
    requires
        advanced_to(passed, start, end, stop),
    ensures
        start <= stop,
        stop <= if start < end { end } else { start },
{
}

/// The palette slot of a colour cycle whose cursor is at `current_index`:
/// the cursor starts at 1, and each passed timing moves it on by one slot,
/// wrapping around the palette.
pub fn palette_slot(current_index: usize, palette_len: usize) -> (slot: usize)
    requires
        current_index >= 1,
        palette_len > 0,
    ensures
        slot == (current_index - 1) % (palette_len as int),
        slot < palette_len,
{
    (current_index - 1) % palette_len
}

/// The slot of the last timing a colour cycle has passed when its cursor
/// is at `current_index` among `timing_count` timings: the one before the
/// cursor, the cursor counting as at most `timing_count`, and slot 0 for a
/// cursor at 0.
pub open spec fn last_timing(current_index: nat, timing_count: nat) -> nat {
    if current_index == 0 {
        0
    } else if current_index < timing_count {
        (current_index - 1) as nat
    } else {
        (timing_count - 1) as nat
    }
}

/// The slot of the timing a colour cycle flashed at last, or `None` when it
/// has no timings.
pub fn timing_slot(current_index: usize, timing_count: usize) -> (slot: Option<usize>)
    ensures
        timing_count == 0 ==> slot is None,
        timing_count > 0 ==> slot == Some(last_timing(current_index as nat, timing_count as nat) as usize),
        slot matches Some(k) ==> k < timing_count,
{
    if timing_count == 0 {
        None
    } else {
        let capped = if current_index < timing_count {
            current_index
        } else {
            timing_count
        };
        Some(capped.saturating_sub(1))
    }
}

/// The shapes that fire in one update of a sequence of shapes: the first
/// shape on the first update the sequence gets (when it has one), then,
/// in order, the shapes from `start` up to `stop` that the beat has passed.
pub open spec fn fired_spec(first_update: bool, shape_count: nat, start: nat, stop: nat) -> Seq<usize> {
    let first: Seq<usize> = if first_update && shape_count > 0 {
        seq![0usize]
    } else {
        Seq::empty()
    };
    first + Seq::new((stop - start) as nat, |j: int| (start + j) as usize)
}

/// Lists, in firing order, the shapes that fire in one update of a sequence
/// of `shape_count` shapes: shape 0 if this is the sequence's first update,
/// then the passed shapes `start .. stop` that the cursor moved over.
pub fn shapes_to_fire(first_update: bool, shape_count: usize, start: usize, stop: usize) -> (fired: Vec<usize>)
    requires
        start <= stop,
        stop <= shape_count || stop == start,
    ensures
        fired@ == fired_spec(first_update, shape_count as nat, start as nat, stop as nat),
        !first_update ==> fired@.len() == stop - start,
        !first_update ==> forall|j: int| 0 <= j < fired@.len() ==> #[trigger] fired@[j] == start + j,
        first_update && shape_count > 0 ==> fired@.len() == stop - start + 1 && fired@[0] == 0,
        first_update && shape_count > 0 ==> forall|j: int|
            1 <= j < fired@.len() ==> #[trigger] fired@[j] == start + j - 1,
        first_update && shape_count == 0 ==> fired@.len() == stop - start,
{
    proof {
        law_fired_shapes(first_update, shape_count as nat, start as nat, stop as nat);
    }
    let mut fired: Vec<usize> = Vec::new();
    if first_update && shape_count > 0 {
        fired.push(0);
    }
    let ghost first = fired@;
    let mut k = start;
    while k < stop
        invariant
            start <= k <= stop,
            fired@ == first + Seq::new((k - start) as nat, |j: int| (start + j) as usize),
        decreases stop - k,
    {
        fired.push(k);
        k = k + 1;
        proof {
            assert(fired@ =~= first + Seq::new((k - start) as nat, |j: int| (start + j) as usize));
        }
    }
    proof {
        assert(fired@ =~= fired_spec(first_update, shape_count as nat, start as nat, stop as nat));
    }
    fired
}

/// Every shape that fires exists, and the shapes moved over fire once each,
/// in increasing order.
pub proof fn law_fired_shapes_exist_in_order(first_update: bool, shape_count: usize, start: usize, stop: usize)
    requires
        start <= stop,
        stop <= shape_count || stop == start,
    ensures
        ({
            let fired = fired_spec(first_update, shape_count as nat, start as nat, stop as nat);
            let first: int = if first_update && shape_count > 0 { 1 } else { 0 };
            &&& stop <= shape_count ==> forall|j: int| 0 <= j < fired.len() ==> #[trigger] fired[j] < shape_count
            &&& forall|i: int, j: int| first <= i < j < fired.len() ==> fired[i] < fired[j]
        }),
{
    let first: int = if first_update && shape_count > 0 { 1 } else { 0 };
    let head: Seq<usize> = if first_update && shape_count > 0 { seq![0usize] } else { Seq::empty() };
    let tail = Seq::new((stop - start) as nat, |j: int| (start + j) as usize);
    let fired = fired_spec(first_update, shape_count as nat, start as nat, stop as nat);
    assert(fired == head + tail);
    assert(head.len() == first);
    assert forall|k: int| first <= k < fired.len() implies #[trigger] fired[k] == start + k - first by {
        assert(fired[k] == tail[k - first]);
    }
}

/// Which shapes fire, stated on the inputs: a later update fires exactly
/// the shapes `start, start + 1, ..., stop - 1` that the cursor moved over,
/// and nothing else (shape 0 never fires again); the first update of a
/// sequence that has shapes fires shape 0 and then those shapes.
pub proof fn law_fired_shapes(first_update: bool, shape_count: nat, start: nat, stop: nat)
    requires
        start <= stop <= usize::MAX,
    ensures
        ({
            let fired = fired_spec(first_update, shape_count, start, stop);
            &&& !first_update ==> fired.len() == stop - start
            &&& !first_update ==> forall|j: int| 0 <= j < fired.len() ==> #[trigger] fired[j] == start + j
            &&& !first_update ==> forall|j: int| 0 <= j < fired.len() ==> fired[j] != 0 || start == 0
            &&& first_update && shape_count > 0 ==> fired.len() == stop - start + 1 && fired[0] == 0
            &&& first_update && shape_count > 0 ==> forall|j: int|
                1 <= j < fired.len() ==> #[trigger] fired[j] == start + j - 1
            &&& first_update && shape_count == 0 ==> fired.len() == stop - start
        }),
{
    let head: Seq<usize> = if first_update && shape_count > 0 {
        seq![0usize]
    } else {
        Seq::empty()
    };
    let tail = Seq::new((stop - start) as nat, |j: int| (start + j) as usize);
    let fired = fired_spec(first_update, shape_count, start, stop);
    assert(fired == head + tail);
    assert forall|j: int| head.len() <= j < fired.len() implies fired[j] == tail[j - head.len()] by {}
}

} // verus!
