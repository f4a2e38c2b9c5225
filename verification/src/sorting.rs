//! Stable sorting by key.

use vstd::prelude::*;

verus! {

/// A key by which items are sorted: a total, transitive order.
pub trait SortKey: Sized {
    /// This key comes no later than `other`.
    spec fn at_most(self, other: Self) -> bool;

    /// Any two keys are in order one way or the other.
    proof fn at_most_total(left: Self, right: Self)
        ensures
            left.at_most(right) || right.at_most(left),
    ;

    /// The order of keys is transitive.
    proof fn at_most_transitive(first: Self, second: Self, third: Self)
        requires
            first.at_most(second),
            second.at_most(third),
        ensures
            first.at_most(third),
    ;

    /// Whether this key comes no later than `other`.
    fn is_at_most(&self, other: &Self) -> (result: bool)
        ensures
            result == self.at_most(*other),
    ;
}

/// A key in reversed order.
pub struct Reversed<K: SortKey> {
    pub key: K,
}

impl<K: SortKey> SortKey for Reversed<K> {
    open spec fn at_most(self, other: Self) -> bool {
        other.key.at_most(self.key)
    }

    proof fn at_most_total(left: Self, right: Self) {
        K::at_most_total(right.key, left.key);
    }

    proof fn at_most_transitive(first: Self, second: Self, third: Self) {
        K::at_most_transitive(third.key, second.key, first.key);
    }

    fn is_at_most(&self, other: &Self) -> (result: bool) {
        other.key.is_at_most(&self.key)
    }
}

/// The keys in reversed order.
pub fn reverse_keys<K: SortKey>(keys: Vec<K>) -> (reversed: Vec<Reversed<K>>)
    ensures
        reversed@.len() == keys@.len(),
        forall|i: int| 0 <= i < keys@.len() ==> (#[trigger] reversed@[i]).key == keys@[i],
{
    let ghost all = keys@;
    let mut reversed: Vec<Reversed<K>> = Vec::new();
    for key in iter: keys
        invariant
            iter.seq() == all,
            reversed@.len() == iter.index(),
            forall|i: int| 0 <= i < reversed@.len() ==> (#[trigger] reversed@[i]).key == all[i],
    {
        reversed.push(Reversed { key });
    }
    reversed
}

/// The items in stable order.
pub open spec fn sorted<V>(items: Seq<V>, at_most: spec_fn(V, V) -> bool) -> Seq<V> {
    choose|sorted: Seq<V>| is_stable_sort(sorted, items, at_most)
}

/// A stable sort of the items is the one that `sorted` names.
pub proof fn sorted_unique<V>(result: Seq<V>, items: Seq<V>, at_most: spec_fn(V, V) -> bool)
    requires
        is_stable_sort(result, items, at_most),
    ensures
        result == sorted(items, at_most),
{
    let named = sorted(items, at_most);
    assert(is_stable_sort(named, items, at_most));
    let first = choose|order: Seq<usize>| #[trigger]
        is_stable_order(order, items, at_most) && result == arranged(items, order);
    let second = choose|order: Seq<usize>| #[trigger]
        is_stable_order(order, items, at_most) && named == arranged(items, order);
    stable_order_unique(first, second, items, at_most);
}

/// Position `left` belongs before position `right` in a stable sort of `items`.
pub open spec fn sorts_before<V>(
    items: Seq<V>,
    at_most: spec_fn(V, V) -> bool,
    left: int,
    right: int,
) -> bool {
    at_most(items[left], items[right]) && (at_most(items[right], items[left]) ==> left < right)
}

/// `order` lists each position of `items` once, sorted by `at_most`; items that are equal in
/// that order keep their order.
pub open spec fn is_stable_order<V>(
    order: Seq<usize>,
    items: Seq<V>,
    at_most: spec_fn(V, V) -> bool,
) -> bool {
    &&& order.len() == items.len()
    &&& forall|i: int| 0 <= i < order.len() ==> #[trigger] order[i] < items.len()
    &&& forall|i: int, j: int|
        0 <= i < j < order.len() ==> sorts_before(
            items,
            at_most,
            #[trigger] order[i] as int,
            #[trigger] order[j] as int,
        )
}

/// The items at the positions that `order` lists.
pub open spec fn arranged<T>(items: Seq<T>, order: Seq<usize>) -> Seq<T> {
    Seq::new(order.len(), |i: int| items[order[i] as int])
}

/// `sorted` is the stable sort of `items` by `at_most`.
pub open spec fn is_stable_sort<V>(
    sorted: Seq<V>,
    items: Seq<V>,
    at_most: spec_fn(V, V) -> bool,
) -> bool {
    exists|order: Seq<usize>| #[trigger]
        is_stable_order(order, items, at_most) && sorted == arranged(items, order)
}

/// The order of the keys of one type.
pub open spec fn key_order<K: SortKey>() -> spec_fn(K, K) -> bool {
    |left: K, right: K| left.at_most(right)
}

/// The positions in a stable order are distinct.
pub proof fn stable_order_distinct<V>(
    order: Seq<usize>,
    items: Seq<V>,
    at_most: spec_fn(V, V) -> bool,
)
    requires
        is_stable_order(order, items, at_most),
    ensures
        order.no_duplicates(),
{
    assert forall|i: int, j: int| 0 <= i < j < order.len() implies order[i] != order[j] by {
        assert(sorts_before(items, at_most, order[i] as int, order[j] as int));
    }
}

/// A list of `n` distinct numbers below `n` holds every number below `n`.
pub proof fn distinct_positions_cover(order: Seq<usize>, value: int)
    requires
        order.no_duplicates(),
        forall|i: int| 0 <= i < order.len() ==> #[trigger] order[i] < order.len(),
        0 <= value < order.len(),
    ensures
        exists|i: int| 0 <= i < order.len() && #[trigger] order[i] == value,
{
    let ints: Seq<int> = order.map_values(|x: usize| x as int);
    assert(ints.no_duplicates());
    ints.unique_seq_to_set();
    let range = vstd::set_lib::set_int_range(0, order.len() as int);
    vstd::set_lib::lemma_int_range(0, order.len() as int);
    assert(ints.to_set().subset_of(range)) by {
        assert forall|x: int| ints.to_set().contains(x) implies range.contains(x) by {
            let i = ints.lemma_contains_to_index(x);
            assert(order[i] < order.len());
        }
    }
    vstd::set_lib::lemma_subset_equality(ints.to_set(), range);
    assert(ints.to_set().contains(value));
    let i = ints.lemma_contains_to_index(value);
    assert(order[i] == value);
}

/// The stable order of given items is unique, so that a stable sort determines its result.
pub proof fn stable_order_unique<V>(
    first: Seq<usize>,
    second: Seq<usize>,
    items: Seq<V>,
    at_most: spec_fn(V, V) -> bool,
)
    requires
        is_stable_order(first, items, at_most),
        is_stable_order(second, items, at_most),
    ensures
        first == second,
{
    stable_order_distinct(first, items, at_most);
    stable_order_distinct(second, items, at_most);
    stable_order_agrees(first, second, items, at_most, items.len() as int);
    assert(first =~= second);
}

/// Two stable orders agree on their first `count` entries.
proof fn stable_order_agrees<V>(
    first: Seq<usize>,
    second: Seq<usize>,
    items: Seq<V>,
    at_most: spec_fn(V, V) -> bool,
    count: int,
)
    requires
        is_stable_order(first, items, at_most),
        is_stable_order(second, items, at_most),
        first.no_duplicates(),
        second.no_duplicates(),
        0 <= count <= items.len(),
    ensures
        forall|i: int| 0 <= i < count ==> #[trigger] first[i] == second[i],
    decreases count,
{
    if count > 0 {
        let last = count - 1;
        stable_order_agrees(first, second, items, at_most, last);
        distinct_positions_cover(second, first[last] as int);
        distinct_positions_cover(first, second[last] as int);
        let j = choose|j: int| 0 <= j < second.len() && #[trigger] second[j] == first[last];
        let k = choose|k: int| 0 <= k < first.len() && #[trigger] first[k] == second[last];
        if j < last {
            assert(first[j] == second[j]);
            assert(false);
        }
        if k < last {
            assert(first[k] == second[k]);
            assert(false);
        }
        if j > last && k > last {
            assert(sorts_before(items, at_most, second[last] as int, second[j] as int));
            assert(sorts_before(items, at_most, first[last] as int, first[k] as int));
            assert(false);
        }
    }
}

/// The stable order of `keys`.
pub fn stable_order<K: SortKey>(keys: &Vec<K>) -> (order: Vec<usize>)
    ensures
        is_stable_order(order@, keys@, key_order::<K>()),
{
    let mut order: Vec<usize> = Vec::new();
    let mut next: usize = 0;
    while next < keys.len()
        invariant
            next <= keys@.len(),
            order@.len() == next,
            forall|i: int| 0 <= i < order@.len() ==> #[trigger] order@[i] < next,
            forall|i: int, j: int|
                0 <= i < j < order@.len() ==> sorts_before(
                    keys@,
                    key_order::<K>(),
                    #[trigger] order@[i] as int,
                    #[trigger] order@[j] as int,
                ),
        decreases keys@.len() - next,
    {
        let mut low: usize = 0;
        let mut high: usize = order.len();
        while low < high
            invariant
                next < keys@.len(),
                low <= high <= order@.len(),
                forall|i: int| 0 <= i < order@.len() ==> #[trigger] order@[i] < next,
                forall|i: int, j: int|
                    0 <= i < j < order@.len() ==> sorts_before(
                        keys@,
                        key_order::<K>(),
                        #[trigger] order@[i] as int,
                        #[trigger] order@[j] as int,
                    ),
                forall|i: int|
                    0 <= i < low ==> keys@[#[trigger] order@[i] as int].at_most(
                        keys@[next as int],
                    ),
                forall|i: int|
                    high <= i < order@.len() ==> !keys@[#[trigger] order@[i] as int].at_most(
                        keys@[next as int],
                    ),
            decreases high - low,
        {
            let middle: usize = low + (high - low) / 2;
            if keys[order[middle]].is_at_most(&keys[next]) {
                proof {
                    assert forall|i: int| 0 <= i <= middle implies keys@[#[trigger] order@[i]
                        as int].at_most(keys@[next as int]) by {
                        if i < middle {
                            assert(sorts_before(keys@, key_order::<K>(), order@[i] as int, order@[middle as int] as int));
                            K::at_most_transitive(
                                keys@[order@[i] as int],
                                keys@[order@[middle as int] as int],
                                keys@[next as int],
                            );
                        }
                    }
                }
                low = middle + 1;
            } else {
                proof {
                    assert forall|i: int| middle <= i < order@.len() implies !keys@[#[trigger] order@[i]
                        as int].at_most(keys@[next as int]) by {
                        if i > middle && keys@[order@[i] as int].at_most(keys@[next as int]) {
                            assert(sorts_before(keys@, key_order::<K>(), order@[middle as int] as int, order@[i] as int));
                            K::at_most_transitive(
                                keys@[order@[middle as int] as int],
                                keys@[order@[i] as int],
                                keys@[next as int],
                            );
                        }
                    }
                }
                high = middle;
            }
        }
        let ghost before = order@;
        order.insert(low, next);
        proof {
            assert forall|i: int, j: int| 0 <= i < j < order@.len() implies sorts_before(
                keys@,
                key_order::<K>(),
                #[trigger] order@[i] as int,
                #[trigger] order@[j] as int,
            ) by {
                let a = if i < low { i } else { i - 1 };
                let b = if j < low { j } else { j - 1 };
                if i == low {
                    assert(order@[j] == before[b]);
                    K::at_most_total(keys@[before[b] as int], keys@[next as int]);
                } else if j == low {
                    assert(order@[i] == before[a]);
                } else {
                    assert(order@[i] == before[a] && order@[j] == before[b]);
                    assert(sorts_before(keys@, key_order::<K>(), before[a] as int, before[b] as int));
                }
            }
        }
        next += 1;
    }
    order
}

/// Moves the items to the positions that `order` lists.
pub fn arrange<T>(items: Vec<T>, order: &Vec<usize>) -> (result: Vec<T>)
    requires
        order@.len() == items@.len(),
        order@.no_duplicates(),
        forall|i: int| 0 <= i < order@.len() ==> #[trigger] order@[i] < items@.len(),
    ensures
        result@ == arranged(items@, order@),
{
    let ghost all = items@;
    let mut slots: Vec<Option<T>> = Vec::new();
    for item in iter: items
        invariant
            iter.seq() == all,
            slots@.len() == iter.index(),
            forall|i: int| 0 <= i < slots@.len() ==> #[trigger] slots@[i] == Some(all[i]),
    {
        slots.push(Some(item));
    }
    let mut result: Vec<T> = Vec::new();
    let mut index: usize = 0;
    while index < order.len()
        invariant
            index <= order@.len(),
            order@.len() == all.len(),
            slots@.len() == all.len(),
            order@.no_duplicates(),
            forall|i: int| 0 <= i < order@.len() ==> #[trigger] order@[i] < all.len(),
            forall|i: int|
                index <= i < order@.len() ==> slots@[(#[trigger] order@[i]) as int] == Some(
                    all[order@[i] as int],
                ),
            result@ == arranged(all, order@).take(index as int),
        decreases order@.len() - index,
    {
        let position: usize = order[index];
        let mut taken: Option<T> = None;
        std::mem::swap(&mut taken, &mut slots[position]);
        match taken {
            Some(item) => {
                result.push(item);
            },
            None => {
                assert(false);
            },
        }
        assert(arranged(all, order@).take(index + 1) =~= arranged(all, order@).take(
            index as int,
        ).push(arranged(all, order@)[index as int]));
        index += 1;
    }
    assert(result@ =~= arranged(all, order@));
    result
}

/// Sorts the items by their keys; items with equal keys keep their order.
pub fn sort_by_keys<K: SortKey, T>(items: Vec<T>, keys: &Vec<K>) -> (result: (
    Vec<T>,
    Ghost<Seq<usize>>,
))
    requires
        keys@.len() == items@.len(),
    ensures
        is_stable_order(result.1@, keys@, key_order::<K>()),
        result.0@ == arranged(items@, result.1@),
{
    let order = stable_order(keys);
    proof {
        stable_order_distinct(order@, keys@, key_order::<K>());
    }
    let sorted = arrange(items, &order);
    (sorted, Ghost(order@))
}

/// Values that compare as their keys do have the same stable order.
pub proof fn stable_order_by_keys<K: SortKey, V>(
    order: Seq<usize>,
    keys: Seq<K>,
    items: Seq<V>,
    at_most: spec_fn(V, V) -> bool,
)
    requires
        is_stable_order(order, keys, key_order::<K>()),
        keys.len() == items.len(),
        forall|i: int, j: int|
            0 <= i < keys.len() && 0 <= j < keys.len() ==> at_most(items[i], items[j]) == (
            #[trigger] keys[i]).at_most(#[trigger] keys[j]),
    ensures
        is_stable_order(order, items, at_most),
{
    assert forall|i: int, j: int| 0 <= i < j < order.len() implies sorts_before(
        items,
        at_most,
        #[trigger] order[i] as int,
        #[trigger] order[j] as int,
    ) by {
        let a = order[i] as int;
        let b = order[j] as int;
        assert(sorts_before(keys, key_order::<K>(), a, b));
        assert(at_most(items[a], items[b]) == keys[a].at_most(keys[b]));
        assert(at_most(items[b], items[a]) == keys[b].at_most(keys[a]));
    }
}

/// Sorting moves items and adds or drops none.
pub proof fn stable_sort_keeps_items<V>(
    sorted: Seq<V>,
    items: Seq<V>,
    at_most: spec_fn(V, V) -> bool,
)
    requires
        is_stable_sort(sorted, items, at_most),
    ensures
        sorted.len() == items.len(),
        sorted.to_multiset() == items.to_multiset(),
{
    let order = choose|order: Seq<usize>| #[trigger]
        is_stable_order(order, items, at_most) && sorted == arranged(items, order);
    stable_order_distinct(order, items, at_most);
    arranged_multiset(items, order);
}

/// Every list has a stable sort by a total, transitive order.
pub proof fn stable_sort_exists<V>(items: Seq<V>, at_most: spec_fn(V, V) -> bool)
    requires
        items.len() <= usize::MAX,
        forall|left: V, right: V| #[trigger] at_most(left, right) || at_most(right, left),
        forall|first: V, second: V, third: V| #[trigger]
            at_most(first, second) && #[trigger] at_most(second, third) ==> at_most(first, third),
    ensures
        exists|sorted: Seq<V>| is_stable_sort(sorted, items, at_most),
{
    let order = stable_order_of(items, at_most);
    assert(is_stable_sort(arranged(items, order), items, at_most));
}

/// A stable order of the items.
proof fn stable_order_of<V>(items: Seq<V>, at_most: spec_fn(V, V) -> bool) -> (order: Seq<usize>)
    requires
        items.len() <= usize::MAX,
        forall|left: V, right: V| #[trigger] at_most(left, right) || at_most(right, left),
        forall|first: V, second: V, third: V| #[trigger]
            at_most(first, second) && #[trigger] at_most(second, third) ==> at_most(first, third),
    ensures
        is_stable_order(order, items, at_most),
    decreases items.len(),
{
    if items.len() == 0 {
        Seq::empty()
    } else {
        let rest = items.drop_last();
        let last = items.len() - 1;
        let before = stable_order_of(rest, at_most);
        let place = place_in_order(before, rest, at_most, items[last], before.len() as int);
        let order = before.insert(place, last as usize);
        assert forall|i: int| 0 <= i < order.len() implies #[trigger] order[i] < items.len() by {
            let a = if i < place { i } else { i - 1 };
            if i != place {
                assert(order[i] == before[a]);
            }
        }
        assert forall|i: int, j: int| 0 <= i < j < order.len() implies sorts_before(
            items,
            at_most,
            #[trigger] order[i] as int,
            #[trigger] order[j] as int,
        ) by {
            let a = if i < place { i } else { i - 1 };
            let b = if j < place { j } else { j - 1 };
            if i == place {
                assert(order[j] == before[b]);
                assert(rest[before[b] as int] == items[before[b] as int]);
                assert(at_most(items[last], items[before[b] as int]) || at_most(
                    items[before[b] as int],
                    items[last],
                ));
            } else if j == place {
                assert(order[i] == before[a]);
                assert(rest[before[a] as int] == items[before[a] as int]);
            } else {
                assert(order[i] == before[a] && order[j] == before[b]);
                assert(sorts_before(rest, at_most, before[a] as int, before[b] as int));
                assert(rest[before[a] as int] == items[before[a] as int]);
                assert(rest[before[b] as int] == items[before[b] as int]);
            }
        }
        order
    }
}

/// Where a new item goes into an order: after all that come no later than it.
proof fn place_in_order<V>(
    order: Seq<usize>,
    items: Seq<V>,
    at_most: spec_fn(V, V) -> bool,
    added: V,
    count: int,
) -> (place: int)
    requires
        is_stable_order(order, items, at_most),
        0 <= count <= order.len(),
        forall|first: V, second: V, third: V| #[trigger]
            at_most(first, second) && #[trigger] at_most(second, third) ==> at_most(first, third),
        forall|i: int|
            count <= i < order.len() ==> !at_most(items[#[trigger] order[i] as int], added),
    ensures
        0 <= place <= order.len(),
        forall|i: int| 0 <= i < place ==> at_most(items[#[trigger] order[i] as int], added),
        forall|i: int|
            place <= i < order.len() ==> !at_most(items[#[trigger] order[i] as int], added),
    decreases count,
{
    if count == 0 {
        0
    } else if at_most(items[order[count - 1] as int], added) {
        assert forall|i: int| 0 <= i < count implies at_most(
            items[#[trigger] order[i] as int],
            added,
        ) by {
            if i < count - 1 {
                assert(sorts_before(items, at_most, order[i] as int, order[count - 1] as int));
            }
        }
        count
    } else {
        place_in_order(order, items, at_most, added, count - 1)
    }
}

/// Sorting what is sorted changes nothing.
pub proof fn stable_sort_of_sorted<V>(
    sorted: Seq<V>,
    items: Seq<V>,
    at_most: spec_fn(V, V) -> bool,
)
    requires
        is_stable_sort(sorted, items, at_most),
        forall|i: int, j: int| 0 <= i < j < items.len() ==> at_most(#[trigger] items[i], #[trigger] items[j]),
        items.len() <= usize::MAX,
    ensures
        sorted == items,
{
    let order = choose|order: Seq<usize>| #[trigger]
        is_stable_order(order, items, at_most) && sorted == arranged(items, order);
    let same = Seq::new(items.len(), |i: int| i as usize);
    assert(is_stable_order(same, items, at_most));
    stable_order_unique(order, same, items, at_most);
    assert(sorted =~= items);
}

/// Arranging by distinct positions keeps the multiset of items.
proof fn arranged_multiset<T>(items: Seq<T>, order: Seq<usize>)
    requires
        order.len() == items.len(),
        order.no_duplicates(),
        forall|i: int| 0 <= i < order.len() ==> #[trigger] order[i] < items.len(),
    ensures
        arranged(items, order).to_multiset() == items.to_multiset(),
    decreases items.len(),
{
    broadcast use vstd::seq_lib::group_to_multiset_ensures;

    let result = arranged(items, order);
    if items.len() == 0 {
        assert(result =~= items);
    } else {
        let last = items.len() - 1;
        distinct_positions_cover(order, last);
        let at = choose|at: int| 0 <= at < order.len() && #[trigger] order[at] == last;
        let rest = order.remove(at);
        assert(rest.no_duplicates()) by {
            assert forall|i: int, j: int| 0 <= i < j < rest.len() implies rest[i] != rest[j] by {
                let a = if i < at { i } else { i + 1 };
                let b = if j < at { j } else { j + 1 };
                assert(rest[i] == order[a] && rest[j] == order[b]);
            }
        }
        assert forall|i: int| 0 <= i < rest.len() implies #[trigger] rest[i] < items.drop_last().len() by {
            let a = if i < at { i } else { i + 1 };
            assert(rest[i] == order[a]);
            assert(order[a] != order[at]);
        }
        arranged_multiset(items.drop_last(), rest);
        assert(result.remove(at) =~= arranged(items.drop_last(), rest)) by {
            assert forall|i: int| 0 <= i < rest.len() implies result.remove(at)[i] == arranged(
                items.drop_last(),
                rest,
            )[i] by {
                let a = if i < at { i } else { i + 1 };
                assert(rest[i] == order[a]);
                assert(order[a] != order[at]);
            }
        }
        result.remove_ensures(at);
        vstd::seq_lib::to_multiset_remove(result, at);
        assert(result[at] == items.last());
        assert(items =~= items.drop_last().push(items.last()));
        assert(result =~= result.remove(at).insert(at, result[at]));
        vstd::seq_lib::to_multiset_insert(result.remove(at), at, result[at]);
        vstd::seq_lib::to_multiset_build(items.drop_last(), items.last());
    }
}

} // verus!
