//! Row selection over a fixed number of endpoints, with wraparound.
use vstd::prelude::*;

verus! {

/// The selection after moving one row down among `count` rows.
/// Without a selection, or without rows, there is nothing to select.
pub open spec fn spec_next(sel: Option<usize>, count: usize) -> Option<usize> {
    match sel {
        None => None,
        Some(i) => if count == 0 {
            None
        } else if i + 1 >= count {
            Some(0usize)
        } else {
            Some((i + 1) as usize)
        },
    }
}

/// The selection after moving one row up among `count` rows.
/// From the first row (or from an index past the end) it wraps to the last row.
pub open spec fn spec_previous(sel: Option<usize>, count: usize) -> Option<usize> {
    match sel {
        None => None,
        Some(i) => if count == 0 {
            None
        } else if i == 0 || i >= count {
            Some((count - 1) as usize)
        } else {
            Some((i - 1) as usize)
        },
    }
}

/// `spec_next` applied `k` times.
pub open spec fn next_times(sel: Option<usize>, count: usize, k: nat) -> Option<usize>
    decreases k,
{
    if k == 0 {
        sel
    } else {
        spec_next(next_times(sel, count, (k - 1) as nat), count)
    }
}

/// `spec_previous` applied `k` times.
pub open spec fn previous_times(sel: Option<usize>, count: usize, k: nat) -> Option<usize>
    decreases k,
{
    if k == 0 {
        sel
    } else {
        spec_previous(previous_times(sel, count, (k - 1) as nat), count)
    }
}

/// A selection that names one of `count` rows, or no selection when there are none.
pub open spec fn selection_valid(sel: Option<usize>, count: usize) -> bool {
    match sel {
        None => count == 0,
        Some(i) => i < count,
    }
}

pub fn next_selection(sel: Option<usize>, count: usize) -> (r: Option<usize>)
    ensures
        r == spec_next(sel, count),
        count == 0 ==> r is None,
        sel is Some && count > 0 ==> selection_valid(r, count),
{
    match sel {
        None => None,
        Some(i) => {
            if count == 0 {
                None
            } else if i >= count - 1 {
                Some(0)
            } else {
                Some(i + 1)
            }
        },
    }
}

pub fn previous_selection(sel: Option<usize>, count: usize) -> (r: Option<usize>)
    ensures
        r == spec_previous(sel, count),
        count == 0 ==> r is None,
        sel is Some && count > 0 ==> selection_valid(r, count),
{
    match sel {
        None => None,
        Some(i) => {
            if count == 0 {
                None
            } else if i == 0 || i >= count {
                Some(count - 1)
            } else {
                Some(i - 1)
            }
        },
    }
}

proof fn lemma_next_times_split(sel: Option<usize>, count: usize, a: nat, b: nat)
    ensures
        next_times(sel, count, a + b) == next_times(next_times(sel, count, a), count, b),
    decreases b,
{
    if b > 0 {
        lemma_next_times_split(sel, count, a, (b - 1) as nat);
        assert((a + b - 1) as nat == a + (b - 1) as nat);
    }
}

proof fn lemma_previous_times_split(sel: Option<usize>, count: usize, a: nat, b: nat)
    ensures
        previous_times(sel, count, a + b) == previous_times(
            previous_times(sel, count, a),
            count,
            b,
        ),
    decreases b,
{
    if b > 0 {
        lemma_previous_times_split(sel, count, a, (b - 1) as nat);
        assert((a + b - 1) as nat == a + (b - 1) as nat);
    }
}

/// Moving down `k` rows without passing the last row adds `k`.
proof fn lemma_next_times_climbs(i: usize, count: usize, k: nat)
    requires
        i + k < count,
    ensures
        next_times(Some(i), count, k) == Some((i + k) as usize),
    decreases k,
{
    if k > 0 {
        lemma_next_times_climbs(i, count, (k - 1) as nat);
    }
}

/// Moving up `k` rows without passing the first row subtracts `k`.
proof fn lemma_previous_times_descends(i: usize, count: usize, k: nat)
    requires
        i < count,
        k <= i,
    ensures
        previous_times(Some(i), count, k) == Some((i - k) as usize),
    decreases k,
{
    if k > 0 {
        lemma_previous_times_descends(i, count, (k - 1) as nat);
    }
}

/// Among `count` rows, moving down `count` times comes back to the row it started on.
pub proof fn lemma_next_full_cycle(i: usize, count: usize)
    requires
        i < count,
    ensures
        next_times(Some(i), count, count as nat) == Some(i),
{
    let up = (count - 1 - i) as nat;
    lemma_next_times_climbs(i, count, up);
    lemma_next_times_split(Some(i), count, up, 1);
    assert(next_times(Some(i), count, up + 1) == Some(0usize));
    lemma_next_times_climbs(0, count, i as nat);
    lemma_next_times_split(Some(i), count, up + 1, i as nat);
    assert(up + 1 + i == count as nat);
}

/// Among `count` rows, moving up `count` times comes back to the row it started on.
pub proof fn lemma_previous_full_cycle(i: usize, count: usize)
    requires
        i < count,
    ensures
        previous_times(Some(i), count, count as nat) == Some(i),
{
    let down = i as nat;
    lemma_previous_times_descends(i, count, down);
    lemma_previous_times_split(Some(i), count, down, 1);
    let last = (count - 1) as usize;
    assert(previous_times(Some(i), count, down + 1) == Some(last));
    let rest = (count - 1 - i) as nat;
    lemma_previous_times_descends(last, count, rest);
    lemma_previous_times_split(Some(i), count, down + 1, rest);
    assert(down + 1 + rest == count as nat);
}

/// Moving down one row and then up one row returns to the same row.
pub proof fn lemma_next_then_previous(i: usize, count: usize)
    requires
        i < count,
    ensures
        spec_previous(spec_next(Some(i), count), count) == Some(i),
{
}

/// Moving up one row and then down one row returns to the same row.
pub proof fn lemma_previous_then_next(i: usize, count: usize)
    requires
        i < count,
    ensures
        spec_next(spec_previous(Some(i), count), count) == Some(i),
{
}

/// With no rows, no number of moves in either direction yields a selection.
pub proof fn lemma_empty_never_selects(sel: Option<usize>, k: nat)
    ensures
        k > 0 ==> next_times(sel, 0, k) is None,
        k > 0 ==> previous_times(sel, 0, k) is None,
{
}

} // verus!
