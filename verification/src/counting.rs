//! Positions that satisfy a condition: how many there are, and the first of them.

use vstd::prelude::*;

verus! {

/// How many of the positions below `length` satisfy `holds`.
pub open spec fn count(length: nat, holds: spec_fn(int) -> bool) -> nat
    decreases length,
{
    if length == 0 {
        0
    } else {
        count((length - 1) as nat, holds) + if holds(length - 1) {
            1nat
        } else {
            0nat
        }
    }
}

/// No more positions are counted than there are.
pub proof fn count_at_most(length: nat, holds: spec_fn(int) -> bool)
    ensures
        count(length, holds) <= length,
    decreases length,
{
    if length > 0 {
        count_at_most((length - 1) as nat, holds);
    }
}

/// Where two conditions agree on all positions, they have the same count.
pub proof fn count_agrees(length: nat, first: spec_fn(int) -> bool, second: spec_fn(int) -> bool)
    requires
        forall|i: int| 0 <= i < length ==> #[trigger] first(i) == second(i),
    ensures
        count(length, first) == count(length, second),
    decreases length,
{
    if length > 0 {
        count_agrees((length - 1) as nat, first, second);
        assert(first(length - 1) == second(length - 1));
    }
}

/// Where exactly the positions below `split` satisfy the condition, the count is `split`.
pub proof fn count_of_prefix(length: nat, split: nat, holds: spec_fn(int) -> bool)
    requires
        split <= length,
        forall|i: int| 0 <= i < split ==> #[trigger] holds(i),
        forall|i: int| split <= i < length ==> !#[trigger] holds(i),
    ensures
        count(length, holds) == split,
    decreases length,
{
    if length > 0 {
        if split < length {
            assert(!holds(length - 1));
            count_of_prefix((length - 1) as nat, split, holds);
        } else {
            assert(holds(length - 1));
            count_of_prefix((length - 1) as nat, (split - 1) as nat, holds);
        }
    }
}

/// Of disjoint conditions the counts add up.
pub proof fn count_splits(
    length: nat,
    whole: spec_fn(int) -> bool,
    first: spec_fn(int) -> bool,
    second: spec_fn(int) -> bool,
)
    requires
        forall|i: int|
            0 <= i < length ==> #[trigger] whole(i) == (first(i) || second(i)) && !(first(i)
                && second(i)),
    ensures
        count(length, whole) == count(length, first) + count(length, second),
    decreases length,
{
    if length > 0 {
        count_splits((length - 1) as nat, whole, first, second);
        assert(whole(length - 1) == (first(length - 1) || second(length - 1)));
    }
}

/// The first of the positions below `length` that satisfies `holds`.
pub open spec fn first_where(length: nat, holds: spec_fn(int) -> bool) -> Option<usize>
    decreases length,
{
    if length == 0 {
        None
    } else {
        match first_where((length - 1) as nat, holds) {
            Some(index) => Some(index),
            None => if holds(length - 1) {
                Some((length - 1) as usize)
            } else {
                None
            },
        }
    }
}

/// The first position is one that satisfies the condition, and none before it does; where
/// there is none, no position does.
pub proof fn first_where_holds(length: nat, holds: spec_fn(int) -> bool)
    requires
        length <= usize::MAX,
    ensures
        match first_where(length, holds) {
            Some(index) => index < length && holds(index as int) && forall|i: int|
                0 <= i < index ==> !#[trigger] holds(i),
            None => forall|i: int| 0 <= i < length ==> !#[trigger] holds(i),
        },
    decreases length,
{
    if length > 0 {
        first_where_holds((length - 1) as nat, holds);
    }
}

/// A position that satisfies the condition, with none before it that does, is the first.
pub proof fn first_where_is(length: nat, holds: spec_fn(int) -> bool, index: int)
    requires
        0 <= index < length <= usize::MAX,
        holds(index),
        forall|i: int| 0 <= i < index ==> !#[trigger] holds(i),
    ensures
        first_where(length, holds) == Some(index as usize),
    decreases length,
{
    first_where_holds(length, holds);
    if let Some(first) = first_where(length, holds) {
        if first < index {
            assert(!holds(first as int));
        }
    }
}

/// Where no position satisfies the condition, there is no first.
pub proof fn first_where_none(length: nat, holds: spec_fn(int) -> bool)
    requires
        length <= usize::MAX,
        forall|i: int| 0 <= i < length ==> !#[trigger] holds(i),
    ensures
        first_where(length, holds) is None,
{
    first_where_holds(length, holds);
}

/// The positions below `length` that satisfy `holds`, in ascending order.
pub open spec fn indexes_where(length: nat, holds: spec_fn(int) -> bool) -> Seq<usize>
    decreases length,
{
    if length == 0 {
        Seq::empty()
    } else {
        let before = indexes_where((length - 1) as nat, holds);
        if holds(length - 1) {
            before.push((length - 1) as usize)
        } else {
            before
        }
    }
}

/// The list holds exactly the positions that satisfy the condition, in ascending order.
pub proof fn indexes_where_holds(length: nat, holds: spec_fn(int) -> bool)
    requires
        length <= usize::MAX,
    ensures
        forall|i: int|
            0 <= i < indexes_where(length, holds).len() ==> {
                let index = #[trigger] indexes_where(length, holds)[i];
                index < length && holds(index as int)
            },
        forall|i: int, j: int|
            0 <= i < j < indexes_where(length, holds).len() ==> #[trigger] indexes_where(
                length,
                holds,
            )[i] < #[trigger] indexes_where(length, holds)[j],
        forall|index: int|
            0 <= index < length && #[trigger] holds(index) ==> indexes_where(
                length,
                holds,
            ).contains(index as usize),
    decreases length,
{
    if length > 0 {
        let before = indexes_where((length - 1) as nat, holds);
        let after = indexes_where(length, holds);
        indexes_where_holds((length - 1) as nat, holds);
        assert forall|i: int| 0 <= i < after.len() implies ({
            let index = #[trigger] after[i];
            index < length && holds(index as int)
        }) by {
            if i < before.len() {
                assert(after[i] == before[i]);
            }
        }
        assert forall|i: int, j: int| 0 <= i < j < after.len() implies #[trigger] after[i]
            < #[trigger] after[j] by {
            assert(after[i] == before[i]);
            if j < before.len() {
                assert(after[j] == before[j]);
            }
        }
        assert forall|index: int| 0 <= index < length && #[trigger] holds(
            index,
        ) implies after.contains(index as usize) by {
            if index < length - 1 {
                let k = before.index_of(index as usize);
                assert(after[k] == index as usize);
            } else {
                assert(after[after.len() - 1] == index as usize);
            }
        }
    }
}

} // verus!
