//! Moving the entries of lists.

use vstd::prelude::*;

verus! {

/// The list with two entries exchanged.
pub open spec fn swapped<T>(entries: Seq<T>, first: int, second: int) -> Seq<T> {
    entries.update(first, entries[second]).update(second, entries[first])
}

/// The list with the entry at `from` moved before the entry that stood at `to`.
pub open spec fn moved<T>(entries: Seq<T>, from: int, to: int) -> Seq<T> {
    entries.remove(from).insert(
        if from < to {
            to - 1
        } else {
            to
        },
        entries[from],
    )
}

/// At most the last `count` entries.
pub open spec fn last_entries<T>(entries: Seq<T>, count: nat) -> Seq<T> {
    if entries.len() <= count {
        entries
    } else {
        entries.skip(entries.len() - count)
    }
}

/// The position before or after the given one, as far as there is one.
pub open spec fn neighbor(index: usize, delta: isize, count: nat) -> usize {
    if delta < 0 {
        if index == 0 {
            0
        } else {
            (index - 1) as usize
        }
    } else if index + 1 < count {
        (index + 1) as usize
    } else {
        index
    }
}

/// The position before or after the given one, as far as there is one.
pub fn neighbor_of(index: usize, delta: isize, count: usize) -> (to: usize)
    requires
        index < count,
    ensures
        to == neighbor(index, delta, count as nat),
        to < count,
{
    if delta < 0 {
        if index == 0 {
            0
        } else {
            index - 1
        }
    } else if index < count - 1 {
        index + 1
    } else {
        index
    }
}

/// Exchanges two entries.
pub fn swap_entries<T>(entries: &mut Vec<T>, first: usize, second: usize)
    requires
        first < old(entries)@.len(),
        second < old(entries)@.len(),
    ensures
        final(entries)@ == swapped(old(entries)@, first as int, second as int),
{
    let ghost start = entries@;
    if first == second {
        assert(entries@ =~= swapped(start, first as int, second as int));
        return;
    }
    let low: usize = if first < second {
        first
    } else {
        second
    };
    let high: usize = if first < second {
        second
    } else {
        first
    };
    let later = entries.remove(high);
    let earlier = entries.remove(low);
    entries.insert(low, later);
    entries.insert(high, earlier);
    assert(entries@ =~= swapped(start, first as int, second as int));
}

/// Moves the entry at `from` before the entry at `to`, or to the end.
pub fn move_entry<T>(entries: &mut Vec<T>, from: usize, to: usize)
    requires
        from < old(entries)@.len(),
        to <= old(entries)@.len(),
    ensures
        final(entries)@ == moved(old(entries)@, from as int, to as int),
{
    let entry = entries.remove(from);
    let place: usize = if from < to {
        to - 1
    } else {
        to
    };
    entries.insert(place, entry);
}

/// Drops the first entries until at most `count` are left.
pub fn keep_last_entries<T>(entries: &mut Vec<T>, count: usize)
    ensures
        final(entries)@ == last_entries(old(entries)@, count as nat),
{
    let ghost start = entries@;
    assert(start.skip(0) =~= start);
    let ghost mut dropped: int = 0;
    while entries.len() > count
        invariant
            0 <= dropped <= start.len(),
            entries@ == start.skip(dropped),
            dropped > 0 ==> entries@.len() >= count,
        decreases entries@.len(),
    {
        entries.remove(0);
        proof {
            dropped = dropped + 1;
        }
        assert(entries@ =~= start.skip(dropped));
    }
    assert(entries@ =~= last_entries(start, count as nat));
}

/// Exchanging two entries moves entries only, and exchanging them again undoes it.
pub proof fn swap_keeps_entries<T>(entries: Seq<T>, first: int, second: int)
    requires
        0 <= first < entries.len(),
        0 <= second < entries.len(),
    ensures
        swapped(entries, first, second).len() == entries.len(),
        swapped(entries, first, second).to_multiset() == entries.to_multiset(),
        swapped(swapped(entries, first, second), first, second) == entries,
{
    broadcast use vstd::seq_lib::group_to_multiset_ensures;

    let once = swapped(entries, first, second);
    assert(swapped(once, first, second) =~= entries);
    let middle = entries.update(first, entries[second]);
    assert(once.to_multiset() =~= entries.to_multiset());
}

/// Moving an entry moves entries only.
pub proof fn move_keeps_entries<T>(entries: Seq<T>, from: int, to: int)
    requires
        0 <= from < entries.len(),
        0 <= to <= entries.len(),
    ensures
        moved(entries, from, to).len() == entries.len(),
        moved(entries, from, to).to_multiset() == entries.to_multiset(),
{
    broadcast use vstd::seq_lib::group_to_multiset_ensures;

    let place = if from < to {
        to - 1
    } else {
        to
    };
    let rest = entries.remove(from);
    vstd::seq_lib::to_multiset_remove(entries, from);
    vstd::seq_lib::to_multiset_insert(rest, place, entries[from]);
    assert(entries.to_multiset().contains(entries[from]));
    assert(rest.to_multiset().insert(entries[from]) =~= entries.to_multiset());
}

/// Where dropping an entry would not move it, the list stays as it is.
pub proof fn move_in_place<T>(entries: Seq<T>, from: int)
    requires
        0 <= from < entries.len(),
    ensures
        moved(entries, from, from) == entries,
        moved(entries, from, from + 1) == entries,
{
    assert(moved(entries, from, from) =~= entries);
    assert(moved(entries, from, from + 1) =~= entries);
}

} // verus!
