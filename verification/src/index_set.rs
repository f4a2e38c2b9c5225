//! Sets of positions, kept as ascending lists.

use crate::counting;
use crate::grouping;
use vstd::prelude::*;

verus! {

/// The positions ascend, so that none occurs twice.
pub open spec fn ascending(indexes: Seq<usize>) -> bool {
    forall|i: int, j: int|
        0 <= i < j < indexes.len() ==> #[trigger] indexes[i] < #[trigger] indexes[j]
}

/// How many entries are below `index`: where it goes.
pub open spec fn place_for(indexes: Seq<usize>, index: usize) -> nat {
    counting::count(indexes.len(), |i: int| indexes[i] < index)
}

/// The set with one more position.
pub open spec fn with_index(indexes: Seq<usize>, index: usize) -> Seq<usize> {
    if indexes.contains(index) {
        indexes
    } else {
        indexes.insert(place_for(indexes, index) as int, index)
    }
}

/// The set with the given positions as well.
pub open spec fn with_indexes(indexes: Seq<usize>, added: Seq<usize>) -> Seq<usize>
    decreases added.len(),
{
    if added.len() == 0 {
        indexes
    } else {
        with_index(with_indexes(indexes, added.drop_last()), added.last())
    }
}

/// The condition to be another position.
pub open spec fn other_than(index: usize) -> spec_fn(usize) -> bool {
    |entry: usize| entry != index
}

/// The set without a position.
pub open spec fn without_index(indexes: Seq<usize>, index: usize) -> Seq<usize> {
    indexes.filter(other_than(index))
}

/// The set without the given positions.
pub open spec fn without_indexes(indexes: Seq<usize>, removed: Seq<usize>) -> Seq<usize>
    decreases removed.len(),
{
    if removed.len() == 0 {
        indexes
    } else {
        without_index(without_indexes(indexes, removed.drop_last()), removed.last())
    }
}

/// Adding a position keeps the list ascending and adds no other.
pub proof fn with_index_holds(indexes: Seq<usize>, index: usize)
    requires
        ascending(indexes),
    ensures
        ascending(with_index(indexes, index)),
        forall|entry: usize|
            with_index(indexes, index).contains(entry) <==> indexes.contains(entry) || entry
                == index,
{
    let below = |i: int| indexes[i] < index;
    let place = place_for(indexes, index) as int;
    counting::count_at_most(indexes.len(), below);
    let after = with_index(indexes, index);
    if !indexes.contains(index) {
        split_at_index(indexes, index, indexes.len());
        assert forall|i: int, j: int| 0 <= i < j < after.len() implies #[trigger] after[i]
            < #[trigger] after[j] by {
            let a = if i < place { i } else { i - 1 };
            let b = if j < place { j } else { j - 1 };
            if i == place {
                assert(!below(b));
                assert(indexes[b] != index);
            } else if j == place {
                assert(below(a));
            }
        }
        assert(after[place] == index);
        assert forall|entry: usize| after.contains(entry) <==> indexes.contains(entry) || entry
            == index by {
            if indexes.contains(entry) {
                let k = indexes.index_of(entry);
                let m = if k < place { k } else { k + 1 };
                assert(after[m] == entry);
            }
            if after.contains(entry) && entry != index {
                let k = after.index_of(entry);
                let m = if k < place { k } else { k - 1 };
                assert(indexes[m] == entry);
            }
        }
    }
}

/// In an ascending list the entries below a number come first.
proof fn split_at_index(indexes: Seq<usize>, index: usize, length: nat)
    requires
        ascending(indexes),
        length <= indexes.len(),
    ensures
        ({
            let below = |i: int| indexes[i] < index;
            let split = counting::count(length, below);
            &&& split <= length
            &&& forall|i: int| 0 <= i < split ==> #[trigger] below(i)
            &&& forall|i: int| split <= i < length ==> !#[trigger] below(i)
        }),
    decreases length,
{
    let below = |i: int| indexes[i] < index;
    if length > 0 {
        split_at_index(indexes, index, (length - 1) as nat);
        let split = counting::count((length - 1) as nat, below);
        if below(length - 1) {
            if split < length - 1 {
                assert(!below(split as int));
                assert(indexes[split as int] < indexes[length - 1]);
            }
        }
    }
}

/// Taking a position out keeps the list ascending and takes out no other.
pub proof fn without_index_holds(indexes: Seq<usize>, index: usize)
    requires
        ascending(indexes),
    ensures
        ascending(without_index(indexes, index)),
        forall|entry: usize|
            without_index(indexes, index).contains(entry) <==> indexes.contains(entry) && entry
                != index,
    decreases indexes.len(),
{
    reveal(Seq::filter);
    if indexes.len() > 0 {
        let rest = indexes.drop_last();
        let before = without_index(rest, index);
        let after = without_index(indexes, index);
        without_index_holds(rest, index);
        assert forall|entry: usize| after.contains(entry) <==> indexes.contains(entry) && entry
            != index by {
            if after.contains(entry) {
                let k = after.index_of(entry);
                if k < before.len() {
                    assert(before[k] == entry);
                    assert(before.contains(entry));
                    assert(rest.contains(entry));
                    let m = rest.index_of(entry);
                    assert(indexes[m] == entry);
                } else {
                    assert(indexes[indexes.len() - 1] == entry);
                }
            }
            if indexes.contains(entry) && entry != index {
                let k = indexes.index_of(entry);
                if k < rest.len() {
                    assert(rest[k] == entry);
                    assert(before.contains(entry));
                    let m = before.index_of(entry);
                    assert(after[m] == entry);
                } else {
                    assert(after[after.len() - 1] == entry);
                }
            }
        }
        assert forall|i: int, j: int| 0 <= i < j < after.len() implies #[trigger] after[i]
            < #[trigger] after[j] by {
            assert(after[i] == before[i]);
            if j == before.len() {
                assert(before.contains(before[i]));
                assert(rest.contains(before[i]));
                let m = rest.index_of(before[i]);
                assert(indexes[m] < indexes[indexes.len() - 1]);
            } else {
                assert(after[j] == before[j]);
            }
        }
    }
}

/// Adding positions keeps the list ascending and adds no others.
pub proof fn with_indexes_holds(indexes: Seq<usize>, added: Seq<usize>)
    requires
        ascending(indexes),
    ensures
        ascending(with_indexes(indexes, added)),
        forall|entry: usize|
            with_indexes(indexes, added).contains(entry) <==> indexes.contains(entry)
                || added.contains(entry),
    decreases added.len(),
{
    if added.len() > 0 {
        let rest = added.drop_last();
        with_indexes_holds(indexes, rest);
        with_index_holds(with_indexes(indexes, rest), added.last());
        assert forall|entry: usize| added.contains(entry) <==> rest.contains(entry) || entry
            == added.last() by {
            if added.contains(entry) {
                let k = added.index_of(entry);
                if k < rest.len() {
                    assert(rest[k] == entry);
                }
            }
            if rest.contains(entry) {
                let k = rest.index_of(entry);
                assert(added[k] == entry);
            }
            assert(added[added.len() - 1] == added.last());
        }
    }
}

/// Taking positions out keeps the list ascending and takes out no others.
pub proof fn without_indexes_holds(indexes: Seq<usize>, removed: Seq<usize>)
    requires
        ascending(indexes),
    ensures
        ascending(without_indexes(indexes, removed)),
        forall|entry: usize|
            without_indexes(indexes, removed).contains(entry) <==> indexes.contains(entry)
                && !removed.contains(entry),
    decreases removed.len(),
{
    if removed.len() > 0 {
        let rest = removed.drop_last();
        without_indexes_holds(indexes, rest);
        without_index_holds(without_indexes(indexes, rest), removed.last());
        assert forall|entry: usize| removed.contains(entry) <==> rest.contains(entry) || entry
            == removed.last() by {
            if removed.contains(entry) {
                let k = removed.index_of(entry);
                if k < rest.len() {
                    assert(rest[k] == entry);
                }
            }
            if rest.contains(entry) {
                let k = rest.index_of(entry);
                assert(removed[k] == entry);
            }
            assert(removed[removed.len() - 1] == removed.last());
        }
    }
}

/// Whether the list holds a position.
pub fn contains_index(indexes: &Vec<usize>, index: usize) -> (found: bool)
    ensures
        found == indexes@.contains(index),
{
    let mut at: usize = 0;
    while at < indexes.len()
        invariant
            at <= indexes@.len(),
            forall|i: int| 0 <= i < at ==> #[trigger] indexes@[i] != index,
        decreases indexes@.len() - at,
    {
        if indexes[at] == index {
            assert(indexes@[at as int] == index);
            return true;
        }
        at += 1;
    }
    false
}

/// The condition that the list holds a position at a place.
pub open spec fn holds_at(indexes: Seq<usize>, index: usize) -> spec_fn(int) -> bool {
    |i: int| indexes[i] == index
}

/// Where a position stands in the list.
pub open spec fn position_of(indexes: Seq<usize>, index: usize) -> Option<usize> {
    counting::first_where(indexes.len(), holds_at(indexes, index))
}

/// Where a position stands in the list.
pub fn find_index(indexes: &Vec<usize>, index: usize) -> (position: Option<usize>)
    ensures
        position == position_of(indexes@, index),
        position matches Some(at) ==> at < indexes@.len() && indexes@[at as int] == index,
        position is None ==> !indexes@.contains(index),
{
    let ghost all = indexes@;
    let ghost wanted = holds_at(all, index);
    let mut at: usize = 0;
    while at < indexes.len()
        invariant
            at <= indexes@.len(),
            all == indexes@,
            wanted == holds_at(all, index),
            forall|i: int| 0 <= i < at ==> !#[trigger] wanted(i),
        decreases indexes@.len() - at,
    {
        if indexes[at] == index {
            proof {
                assert(wanted(at as int));
                assert(indexes.len() == indexes@.len());
                counting::first_where_is(indexes@.len(), wanted, at as int);
            }
            return Some(at);
        }
        at += 1;
    }
    proof {
        assert(indexes.len() == indexes@.len());
        counting::first_where_none(indexes@.len(), wanted);
        assert forall|i: int| 0 <= i < indexes@.len() implies indexes@[i] != index by {
            assert(!wanted(i));
        }
    }
    None
}

/// Adds a position; returns whether it was not there before.
pub fn insert_index(indexes: &mut Vec<usize>, index: usize) -> (added: bool)
    ensures
        added == !old(indexes)@.contains(index),
        final(indexes)@ == with_index(old(indexes)@, index),
{
    if contains_index(indexes, index) {
        return false;
    }
    let ghost below = |i: int| indexes@[i] < index;
    let mut place: usize = 0;
    let mut at: usize = 0;
    while at < indexes.len()
        invariant
            at <= indexes@.len(),
            place <= at,
            below == (|i: int| indexes@[i] < index),
            place == counting::count(at as nat, below),
        decreases indexes@.len() - at,
    {
        if indexes[at] < index {
            place += 1;
        }
        at += 1;
    }
    indexes.insert(place, index);
    true
}

/// Adds positions.
pub fn insert_indexes(indexes: &mut Vec<usize>, added: &Vec<usize>)
    ensures
        final(indexes)@ == with_indexes(old(indexes)@, added@),
{
    let ghost start = indexes@;
    let mut at: usize = 0;
    assert(added@.take(0) =~= Seq::empty());
    while at < added.len()
        invariant
            at <= added@.len(),
            indexes@ == with_indexes(start, added@.take(at as int)),
        decreases added@.len() - at,
    {
        assert(added@.take(at + 1).drop_last() =~= added@.take(at as int));
        insert_index(indexes, added[at]);
        at += 1;
    }
    assert(added@.take(added@.len() as int) =~= added@);
}

/// Takes a position out.
pub fn remove_index(indexes: &mut Vec<usize>, index: usize)
    ensures
        final(indexes)@ == without_index(old(indexes)@, index),
{
    let ghost start = indexes@;
    let ghost keep = other_than(index);
    let mut kept: Vec<usize> = Vec::new();
    let mut at: usize = 0;
    proof {
        grouping::filter_all_or_none(start.take(0), keep);
        assert(start.take(0).filter(keep) =~= Seq::empty());
    }
    while at < indexes.len()
        invariant
            at <= indexes@.len(),
            indexes@ == start,
            keep == other_than(index),
            kept@ == start.take(at as int).filter(keep),
        decreases indexes@.len() - at,
    {
        proof {
            grouping::filter_next(start, keep, at as int);
        }
        if indexes[at] != index {
            kept.push(indexes[at]);
        }
        at += 1;
    }
    assert(start.take(start.len() as int) =~= start);
    *indexes = kept;
}

/// Takes positions out.
pub fn remove_indexes(indexes: &mut Vec<usize>, removed: &Vec<usize>)
    ensures
        final(indexes)@ == without_indexes(old(indexes)@, removed@),
{
    let ghost start = indexes@;
    let mut at: usize = 0;
    assert(removed@.take(0) =~= Seq::empty());
    while at < removed.len()
        invariant
            at <= removed@.len(),
            indexes@ == without_indexes(start, removed@.take(at as int)),
        decreases removed@.len() - at,
    {
        assert(removed@.take(at + 1).drop_last() =~= removed@.take(at as int));
        remove_index(indexes, removed[at]);
        at += 1;
    }
    assert(removed@.take(removed@.len() as int) =~= removed@);
}

/// The condition to be a position below a length.
pub open spec fn below(length: usize) -> spec_fn(usize) -> bool {
    |index: usize| index < length
}

/// The positions below a length.
pub fn indexes_below(indexes: &Vec<usize>, length: usize) -> (kept: Vec<usize>)
    ensures
        kept@ == indexes@.filter(below(length)),
{
    let ghost keep = below(length);
    let ghost all = indexes@;
    let mut kept: Vec<usize> = Vec::new();
    let mut at: usize = 0;
    proof {
        grouping::filter_all_or_none(all.take(0), keep);
        assert(all.take(0).filter(keep) =~= Seq::empty());
    }
    while at < indexes.len()
        invariant
            at <= indexes@.len(),
            all == indexes@,
            keep == below(length),
            kept@ == all.take(at as int).filter(keep),
        decreases indexes@.len() - at,
    {
        proof {
            grouping::filter_next(all, keep, at as int);
        }
        if indexes[at] < length {
            kept.push(indexes[at]);
        }
        at += 1;
    }
    assert(all.take(all.len() as int) =~= all);
    kept
}

/// A copy of a list of positions.
pub fn copy_indexes(indexes: &Vec<usize>) -> (copy: Vec<usize>)
    ensures
        copy@ == indexes@,
{
    let copy = indexes.clone();
    assert(copy@ =~= indexes@);
    copy
}

} // verus!
