//! Sets of texts, held as lists in ascending order.

use crate::counting;
use crate::text;
use vstd::prelude::*;
use vstd::string::*;

verus! {

/// Whether the texts ascend, so that none occurs twice.
pub open spec fn ascends(texts: Seq<Seq<char>>) -> bool {
    forall|i: int, j: int|
        0 <= i < j < texts.len() ==> text::text_before(#[trigger] texts[i], #[trigger] texts[j])
}

/// The number of entries that come before `wanted`.
pub open spec fn place_of(texts: Seq<Seq<char>>, wanted: Seq<char>) -> nat {
    counting::count(texts.len(), |i: int| text::text_before(texts[i], wanted))
}

/// The ascending list with `added` at its place; unchanged where it is there already.
pub open spec fn with_text(texts: Seq<Seq<char>>, added: Seq<char>) -> Seq<Seq<char>> {
    if texts.contains(added) {
        texts
    } else {
        texts.insert(place_of(texts, added) as int, added)
    }
}

/// The distinct texts of a list, in ascending order.
pub open spec fn sorted_distinct(texts: Seq<Seq<char>>) -> Seq<Seq<char>>
    decreases texts.len(),
{
    if texts.len() == 0 {
        Seq::empty()
    } else {
        with_text(sorted_distinct(texts.drop_last()), texts.last())
    }
}

/// In an ascending list the entries before the place of a text are the ones that come before
/// it.
pub proof fn place_splits(texts: Seq<Seq<char>>, wanted: Seq<char>, place: nat)
    requires
        place <= texts.len(),
        forall|i: int| 0 <= i < place ==> text::text_before(#[trigger] texts[i], wanted),
        forall|i: int| place <= i < texts.len() ==> !text::text_before(#[trigger] texts[i], wanted),
    ensures
        place_of(texts, wanted) == place,
{
    let before = |i: int| text::text_before(texts[i], wanted);
    assert forall|i: int| 0 <= i < place implies #[trigger] before(i) by {
        assert(text::text_before(texts[i], wanted));
    }
    assert forall|i: int| place <= i < texts.len() implies !#[trigger] before(i) by {
        assert(!text::text_before(texts[i], wanted));
    }
    counting::count_of_prefix(texts.len(), place, before);
}

/// The number of entries of an ascending list that come before `wanted` is where it splits.
pub proof fn place_is_split(texts: Seq<Seq<char>>, wanted: Seq<char>)
    requires
        ascends(texts),
    ensures
        place_of(texts, wanted) <= texts.len(),
        forall|i: int|
            0 <= i < place_of(texts, wanted) ==> text::text_before(#[trigger] texts[i], wanted),
        forall|i: int|
            place_of(texts, wanted) <= i < texts.len() ==> !text::text_before(
                #[trigger] texts[i],
                wanted,
            ),
    decreases texts.len(),
{
    let before = |i: int| text::text_before(texts[i], wanted);
    if texts.len() > 0 {
        let rest = texts.drop_last();
        place_is_split(rest, wanted);
        let before_rest = |i: int| text::text_before(rest[i], wanted);
        assert forall|i: int| 0 <= i < rest.len() implies #[trigger] before_rest(i) == before(i) by {}
        counting::count_agrees(rest.len(), before_rest, before);
        let place = place_of(rest, wanted);
        let last = texts.len() - 1;
        if text::text_before(texts[last], wanted) {
            assert forall|i: int| 0 <= i < rest.len() implies text::text_before(
                #[trigger] rest[i],
                wanted,
            ) by {
                text::text_order_transitive(texts[i], texts[last], wanted);
            }
            if place < rest.len() {
                assert(!text::text_before(rest[place as int], wanted));
            }
        }
        assert forall|i: int| 0 <= i < place_of(texts, wanted) implies text::text_before(
            #[trigger] texts[i],
            wanted,
        ) by {
            if i < last {
                assert(rest[i] == texts[i]);
            }
        }
        assert forall|i: int| place_of(texts, wanted) <= i < texts.len() implies !text::text_before(
            #[trigger] texts[i],
            wanted,
        ) by {
            if i < last {
                assert(rest[i] == texts[i]);
            }
        }
    }
}

/// Adding a text keeps the list ascending and adds nothing else.
pub proof fn with_text_ascends(texts: Seq<Seq<char>>, added: Seq<char>)
    requires
        ascends(texts),
    ensures
        ascends(with_text(texts, added)),
        forall|wanted: Seq<char>|
            with_text(texts, added).contains(wanted) <==> texts.contains(wanted) || wanted == added,
{
    if !texts.contains(added) {
        place_is_split(texts, added);
        let place = place_of(texts, added) as int;
        let result = texts.insert(place, added);
        assert forall|i: int, j: int| 0 <= i < j < result.len() implies text::text_before(
            #[trigger] result[i],
            #[trigger] result[j],
        ) by {
            let a = if i < place { i } else { i - 1 };
            let b = if j < place { j } else { j - 1 };
            if i == place {
                assert(result[j] == texts[b]);
                assert(texts.contains(texts[b]));
                text::text_order_total(texts[b], added);
            } else if j == place {
                assert(result[i] == texts[a]);
            } else {
                assert(result[i] == texts[a] && result[j] == texts[b]);
            }
        }
        assert forall|wanted: Seq<char>|
            result.contains(wanted) <==> texts.contains(wanted) || wanted == added by {
            if texts.contains(wanted) {
                let i = texts.index_of(wanted);
                let k = if i < place { i } else { i + 1 };
                assert(result[k] == wanted);
            }
            if wanted == added {
                assert(result[place] == wanted);
            }
            if result.contains(wanted) && wanted != added {
                let k = result.index_of(wanted);
                let i = if k < place { k } else { k - 1 };
                assert(texts[i] == wanted);
            }
        }
    }
}

/// The distinct texts ascend and are the texts of the list, no others.
pub proof fn sorted_distinct_holds(texts: Seq<Seq<char>>)
    ensures
        ascends(sorted_distinct(texts)),
        forall|wanted: Seq<char>|
            sorted_distinct(texts).contains(wanted) <==> texts.contains(wanted),
    decreases texts.len(),
{
    if texts.len() > 0 {
        let rest = texts.drop_last();
        sorted_distinct_holds(rest);
        with_text_ascends(sorted_distinct(rest), texts.last());
        assert forall|wanted: Seq<char>|
            sorted_distinct(texts).contains(wanted) <==> texts.contains(wanted) by {
            if texts.contains(wanted) {
                let i = texts.index_of(wanted);
                if i < rest.len() {
                    assert(rest[i] == wanted);
                }
            }
            if rest.contains(wanted) {
                let i = rest.index_of(wanted);
                assert(texts[i] == wanted);
            }
            if wanted == texts.last() {
                assert(texts[texts.len() - 1] == wanted);
            }
        }
    }
}

/// Where `wanted` stands in an ascending list: whether it is there, and how many entries come
/// before it.
pub fn find_place(texts: &Vec<String>, wanted: &str) -> (result: (bool, usize))
    requires
        ascends(text::texts(texts@)),
    ensures
        result.0 == text::texts(texts@).contains(wanted@),
        result.1 == place_of(text::texts(texts@), wanted@),
        result.1 <= texts@.len(),
        result.0 ==> result.1 < texts@.len() && texts@[result.1 as int]@ == wanted@,
{
    let ghost all = text::texts(texts@);
    let mut low: usize = 0;
    let mut high: usize = texts.len();
    while low < high
        invariant
            low <= high <= texts@.len(),
            all == text::texts(texts@),
            ascends(all),
            forall|i: int| 0 <= i < low ==> text::text_before(#[trigger] all[i], wanted@),
            forall|i: int| high <= i < all.len() ==> !text::text_before(#[trigger] all[i], wanted@),
        decreases high - low,
    {
        let middle: usize = low + (high - low) / 2;
        assert(all[middle as int] == texts@[middle as int]@);
        if text::is_before(texts[middle].as_str(), wanted) {
            proof {
                assert forall|i: int| 0 <= i <= middle implies text::text_before(
                    #[trigger] all[i],
                    wanted@,
                ) by {
                    if i < middle {
                        text::text_order_transitive(all[i], all[middle as int], wanted@);
                    }
                }
            }
            low = middle + 1;
        } else {
            proof {
                assert forall|i: int| middle <= i < all.len() implies !text::text_before(
                    #[trigger] all[i],
                    wanted@,
                ) by {
                    if i > middle && text::text_before(all[i], wanted@) {
                        text::text_order_transitive(all[middle as int], all[i], wanted@);
                    }
                }
            }
            high = middle;
        }
    }
    proof {
        place_splits(all, wanted@, low as nat);
        if low < all.len() && all[low as int] != wanted@ {
            text::text_order_total(all[low as int], wanted@);
        }
        if all.contains(wanted@) {
            let i = all.index_of(wanted@);
            text::text_order_total(wanted@, wanted@);
            if low < all.len() && all[low as int] != wanted@ {
                if i > low {
                    assert(text::text_before(all[low as int], all[i]));
                }
            }
        }
    }
    let found = low < texts.len() && text::same_text(texts[low].as_str(), wanted);
    assert(found ==> all[low as int] == wanted@);
    (found, low)
}

/// Adds a text to an ascending list.
pub fn add_text(texts: &mut Vec<String>, added: String)
    requires
        ascends(text::texts(old(texts)@)),
    ensures
        text::texts(final(texts)@) == with_text(text::texts(old(texts)@), added@),
        ascends(text::texts(final(texts)@)),
{
    let ghost before = text::texts(texts@);
    let place = find_place(texts, added.as_str());
    if !place.0 {
        texts.insert(place.1, added);
        assert(text::texts(texts@) =~= before.insert(place.1 as int, added@));
    }
    proof {
        with_text_ascends(before, added@);
    }
}

} // verus!
