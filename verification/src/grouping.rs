//! Groups of tracks: bringing the tracks of a group together, and adding tracks to groups.

use crate::text;
use crate::track;
use crate::track::{Track, TrackView};
use vstd::prelude::*;
use vstd::string::*;

verus! {

/// The tracks of `group`, in order.
pub open spec fn in_group(tracks: Seq<TrackView>, group: Seq<char>) -> Seq<TrackView> {
    tracks.filter(|track: TrackView| track.group == group)
}

/// The tracks that are not of `group`, in order.
pub open spec fn outside_group(tracks: Seq<TrackView>, group: Seq<char>) -> Seq<TrackView> {
    tracks.filter(|track: TrackView| track.group != group)
}

/// The tracks with those of a group together: the groups in the order of their first tracks,
/// the tracks of a group in their order.
pub open spec fn grouped(tracks: Seq<TrackView>) -> Seq<TrackView>
    decreases tracks.len(),
{
    if tracks.len() == 0 {
        Seq::empty()
    } else {
        let group = tracks[0].group;
        let rest = tracks.drop_first();
        proof {
            rest.lemma_filter_len(|track: TrackView| track.group != group);
        }
        seq![tracks[0]] + in_group(rest, group) + grouped(outside_group(rest, group))
    }
}

/// The tracks with `additions` in their groups: those of a group that is there follow the
/// first run of its tracks; the other groups come at the end.
pub open spec fn merged(tracks: Seq<TrackView>, additions: Seq<TrackView>) -> Seq<TrackView>
    decreases tracks.len(),
{
    if tracks.len() == 0 {
        grouped(additions)
    } else {
        let rest = tracks.drop_first();
        if rest.len() > 0 && rest[0].group == tracks[0].group {
            seq![tracks[0]] + merged(rest, additions)
        } else {
            let group = tracks[0].group;
            seq![tracks[0]] + in_group(additions, group) + merged(
                rest,
                outside_group(additions, group),
            )
        }
    }
}

// ---------------------------------------------------------------------------
// Lemmas on filtering
// ---------------------------------------------------------------------------

/// Filtering is filtering the first entry and then the rest.
pub proof fn filter_first<V>(entries: Seq<V>, keep: spec_fn(V) -> bool)
    requires
        entries.len() > 0,
    ensures
        entries.filter(keep) == (if keep(entries[0]) {
            seq![entries[0]]
        } else {
            Seq::empty()
        }) + entries.drop_first().filter(keep),
{
    let first = seq![entries[0]];
    assert(entries =~= first + entries.drop_first());
    Seq::filter_distributes_over_add(first, entries.drop_first(), keep);
    assert(first.filter(keep) =~= if keep(entries[0]) {
        first
    } else {
        Seq::empty()
    }) by {
        reveal(Seq::filter);
        assert(first.drop_last() =~= Seq::empty());
        assert(first.drop_last().filter(keep) =~= Seq::empty());
    }
}

/// Filtering one entry more.
pub proof fn filter_next<V>(entries: Seq<V>, keep: spec_fn(V) -> bool, index: int)
    requires
        0 <= index < entries.len(),
    ensures
        entries.take(index + 1).filter(keep) == (if keep(entries[index]) {
            entries.take(index).filter(keep).push(entries[index])
        } else {
            entries.take(index).filter(keep)
        }),
{
    assert(entries.take(index + 1).drop_last() =~= entries.take(index));
    assert(entries.take(index + 1).last() == entries[index]);
    reveal(Seq::filter);
}

/// Filtering by a condition that holds of every entry changes nothing; by one that holds of
/// none, it leaves nothing.
pub proof fn filter_all_or_none<V>(entries: Seq<V>, keep: spec_fn(V) -> bool)
    ensures
        (forall|i: int| 0 <= i < entries.len() ==> keep(#[trigger] entries[i])) ==> entries.filter(
            keep,
        ) == entries,
        (forall|i: int| 0 <= i < entries.len() ==> !keep(#[trigger] entries[i])) ==> entries.filter(
            keep,
        ) == Seq::<V>::empty(),
    decreases entries.len(),
{
    if entries.len() == 0 {
        reveal(Seq::filter);
        assert(entries.filter(keep) =~= entries);
        assert(entries =~= Seq::empty());
    } else {
        filter_first(entries, keep);
        let rest = entries.drop_first();
        filter_all_or_none(rest, keep);
        assert(entries =~= seq![entries[0]] + rest);
        if forall|i: int| 0 <= i < entries.len() ==> keep(#[trigger] entries[i]) {
            assert forall|i: int| 0 <= i < rest.len() implies keep(#[trigger] rest[i]) by {
                assert(keep(entries[i + 1]));
            }
            assert(keep(entries[0]));
        }
        if forall|i: int| 0 <= i < entries.len() ==> !keep(#[trigger] entries[i]) {
            assert forall|i: int| 0 <= i < rest.len() implies !keep(#[trigger] rest[i]) by {
                assert(!keep(entries[i + 1]));
            }
            assert(!keep(entries[0]));
            assert(entries.filter(keep) =~= Seq::<V>::empty());
        }
    }
}

/// Two filters in turn keep what satisfies both.
pub proof fn filter_twice<V>(
    entries: Seq<V>,
    first: spec_fn(V) -> bool,
    second: spec_fn(V) -> bool,
    both: spec_fn(V) -> bool,
)
    requires
        forall|entry: V| #[trigger] both(entry) == (first(entry) && second(entry)),
    ensures
        entries.filter(first).filter(second) == entries.filter(both),
    decreases entries.len(),
{
    if entries.len() == 0 {
        reveal(Seq::filter);
        assert(entries.filter(first).filter(second) =~= entries.filter(both));
    } else {
        let rest = entries.drop_first();
        filter_first(entries, first);
        filter_first(entries, both);
        filter_twice(rest, first, second, both);
        let head = seq![entries[0]];
        assert(both(entries[0]) == (first(entries[0]) && second(entries[0])));
        if first(entries[0]) {
            filter_first(entries.filter(first), second);
            assert(entries.filter(first).drop_first() =~= rest.filter(first));
        } else {
            assert(entries.filter(first) =~= rest.filter(first));
        }
        assert(entries.filter(first).filter(second) =~= entries.filter(both));
    }
}

/// Every entry that a filter keeps is an entry that satisfies the condition.
pub proof fn filter_entries<V>(entries: Seq<V>, keep: spec_fn(V) -> bool)
    ensures
        forall|i: int|
            0 <= i < entries.filter(keep).len() ==> keep(#[trigger] entries.filter(keep)[i])
                && entries.contains(entries.filter(keep)[i]),
        entries.filter(keep).len() <= entries.len(),
    decreases entries.len(),
{
    reveal(Seq::filter);
    if entries.len() > 0 {
        let rest = entries.drop_last();
        filter_entries(rest, keep);
        assert forall|i: int| 0 <= i < entries.filter(keep).len() implies keep(
            #[trigger] entries.filter(keep)[i],
        ) && entries.contains(entries.filter(keep)[i]) by {
            if i < rest.filter(keep).len() {
                let entry = rest.filter(keep)[i];
                assert(rest.contains(entry));
                let k = rest.index_of(entry);
                assert(entries[k] == entry);
            } else {
                assert(entries[entries.len() - 1] == entries.last());
            }
        }
    }
}

// ---------------------------------------------------------------------------
// What grouping keeps
// ---------------------------------------------------------------------------

/// Grouping keeps the order of the tracks of each group.
pub proof fn grouped_keeps_group_order(tracks: Seq<TrackView>, group: Seq<char>)
    ensures
        in_group(grouped(tracks), group) == in_group(tracks, group),
    decreases tracks.len(),
{
    let wanted = |track: TrackView| track.group == group;
    if tracks.len() == 0 {
        assert(grouped(tracks) =~= tracks);
    } else {
        let first = tracks[0].group;
        let rest = tracks.drop_first();
        let same = |track: TrackView| track.group == first;
        let other = |track: TrackView| track.group != first;
        rest.lemma_filter_len(other);
        let head = seq![tracks[0]];
        let run = in_group(rest, first);
        let tail = grouped(outside_group(rest, first));
        grouped_keeps_group_order(outside_group(rest, first), group);
        Seq::filter_distributes_over_add(head + run, tail, wanted);
        Seq::filter_distributes_over_add(head, run, wanted);
        filter_first(tracks, wanted);
        filter_entries(rest, same);
        filter_first(head, wanted);
        assert(head.drop_first() =~= Seq::empty());
        filter_all_or_none(head.drop_first(), wanted);
        if group == first {
            filter_all_or_none(run, wanted);
            filter_entries(rest, other);
            filter_all_or_none(outside_group(rest, first), wanted);
            assert(grouped(tracks).filter(wanted) =~= tracks.filter(wanted));
        } else {
            filter_all_or_none(run, wanted);
            filter_twice(rest, other, wanted, wanted);
            assert(grouped(tracks).filter(wanted) =~= tracks.filter(wanted));
        }
    }
}

/// Where the tracks at `i` and `k` are of one group, so is the track at `j`.
pub open spec fn stays_together(tracks: Seq<TrackView>, i: int, j: int, k: int) -> bool {
    tracks[i].group == tracks[k].group ==> tracks[j].group == tracks[i].group
}

/// The tracks of each group stand together.
pub open spec fn is_grouped(tracks: Seq<TrackView>) -> bool {
    forall|i: int, j: int, k: int|
        0 <= i < j < k < tracks.len() ==> #[trigger] stays_together(tracks, i, j, k)
}

/// After grouping the tracks of each group stand together.
pub proof fn grouped_is_grouped(tracks: Seq<TrackView>)
    ensures
        is_grouped(grouped(tracks)),
    decreases tracks.len(),
{
    if tracks.len() > 0 {
        let first = tracks[0].group;
        let rest = tracks.drop_first();
        let same = |track: TrackView| track.group == first;
        let other = |track: TrackView| track.group != first;
        rest.lemma_filter_len(other);
        let outside = outside_group(rest, first);
        let head = seq![tracks[0]] + in_group(rest, first);
        let tail = grouped(outside);
        grouped_is_grouped(outside);
        filter_entries(rest, same);
        grouped_entries(outside);
        filter_entries(rest, other);
        let result = grouped(tracks);
        assert(result =~= head + tail);
        assert forall|i: int| 0 <= i < head.len() implies (#[trigger] head[i]).group == first by {
            if i > 0 {
                assert(head[i] == in_group(rest, first)[i - 1]);
            }
        }
        assert forall|i: int| 0 <= i < tail.len() implies (#[trigger] tail[i]).group != first by {
            let k = outside.index_of(tail[i]);
            assert(outside[k] == tail[i]);
        }
        assert forall|i: int, j: int, k: int|
            0 <= i < j < k < result.len() implies #[trigger] stays_together(result, i, j, k) by {
            let n = head.len() as int;
            if i < n {
                assert(result[i] == head[i]);
                if k < n {
                    assert(result[j] == head[j]);
                } else {
                    assert(result[k] == tail[k - n]);
                }
            } else {
                assert(result[i] == tail[i - n]);
                assert(result[j] == tail[j - n]);
                assert(result[k] == tail[k - n]);
                assert(stays_together(tail, i - n, j - n, k - n));
            }
        }
    }
}

/// Every track of the grouped list is a track of the list.
pub proof fn grouped_entries(tracks: Seq<TrackView>)
    ensures
        grouped(tracks).len() == tracks.len(),
        forall|i: int| 0 <= i < grouped(tracks).len() ==> tracks.contains(#[trigger] grouped(tracks)[i]),
    decreases tracks.len(),
{
    if tracks.len() > 0 {
        let first = tracks[0].group;
        let rest = tracks.drop_first();
        let same = |track: TrackView| track.group == first;
        let other = |track: TrackView| track.group != first;
        rest.lemma_filter_len(other);
        let outside = outside_group(rest, first);
        grouped_entries(outside);
        filter_entries(rest, same);
        filter_entries(rest, other);
        filter_parts_add_up(rest, same, other);
        let run = in_group(rest, first);
        let tail = grouped(outside);
        let result = grouped(tracks);
        assert forall|i: int| 0 <= i < result.len() implies tracks.contains(#[trigger] result[i]) by {
            if i == 0 {
                assert(tracks[0] == result[0]);
            } else if i < 1 + run.len() {
                let entry = run[i - 1];
                assert(result[i] == entry);
                assert(rest.contains(entry));
                assert(tracks[rest.index_of(entry) + 1] == entry);
            } else {
                let entry = tail[i - 1 - run.len()];
                assert(result[i] == entry);
                assert(outside.contains(entry));
                let k = outside.index_of(entry);
                assert(rest.contains(outside[k]));
                assert(tracks[rest.index_of(entry) + 1] == entry);
            }
        }
    }
}

/// A filter and its opposite keep all entries between them.
pub proof fn filter_parts_add_up<V>(
    entries: Seq<V>,
    first: spec_fn(V) -> bool,
    second: spec_fn(V) -> bool,
)
    requires
        forall|entry: V| #[trigger] first(entry) == !second(entry),
    ensures
        entries.filter(first).len() + entries.filter(second).len() == entries.len(),
        entries.filter(first).to_multiset().add(entries.filter(second).to_multiset())
            == entries.to_multiset(),
    decreases entries.len(),
{
    broadcast use vstd::seq_lib::group_to_multiset_ensures;

    reveal(Seq::filter);
    if entries.len() > 0 {
        let rest = entries.drop_last();
        filter_parts_add_up(rest, first, second);
        assert(first(entries.last()) == !second(entries.last()));
        assert(entries =~= rest.push(entries.last()));
        vstd::seq_lib::to_multiset_build(rest, entries.last());
        vstd::seq_lib::to_multiset_build(rest.filter(first), entries.last());
        vstd::seq_lib::to_multiset_build(rest.filter(second), entries.last());
        assert(entries.filter(first).to_multiset().add(entries.filter(second).to_multiset())
            =~= entries.to_multiset());
    } else {
        assert(entries.filter(first) =~= entries);
        assert(entries.filter(second) =~= entries);
        assert(entries.to_multiset().add(entries.to_multiset()) =~= entries.to_multiset());
    }
}

/// Grouping moves tracks and adds or drops none.
pub proof fn grouped_keeps_tracks(tracks: Seq<TrackView>)
    ensures
        grouped(tracks).to_multiset() == tracks.to_multiset(),
    decreases tracks.len(),
{
    broadcast use vstd::seq_lib::group_to_multiset_ensures;

    if tracks.len() == 0 {
        assert(grouped(tracks) =~= tracks);
    } else {
        let first = tracks[0].group;
        let rest = tracks.drop_first();
        let same = |track: TrackView| track.group == first;
        let other = |track: TrackView| track.group != first;
        rest.lemma_filter_len(other);
        let head = seq![tracks[0]];
        let run = in_group(rest, first);
        let tail = grouped(outside_group(rest, first));
        grouped_keeps_tracks(outside_group(rest, first));
        filter_parts_add_up(rest, same, other);
        vstd::seq_lib::lemma_multiset_commutative(head + run, tail);
        vstd::seq_lib::lemma_multiset_commutative(head, run);
        vstd::seq_lib::lemma_multiset_commutative(head, rest);
        assert(tracks =~= head + rest);
        assert(grouped(tracks).to_multiset() =~= tracks.to_multiset());
    }
}

/// Filtering a list that starts with all its tracks of a group.
proof fn filter_of_run(tracks: Seq<TrackView>, run: int, group: Seq<char>)
    requires
        0 <= run <= tracks.len(),
        forall|i: int| 0 <= i < run ==> (#[trigger] tracks[i]).group == group,
        forall|i: int| run <= i < tracks.len() ==> (#[trigger] tracks[i]).group != group,
    ensures
        in_group(tracks, group) == tracks.take(run),
        outside_group(tracks, group) == tracks.skip(run),
{
    let same = |track: TrackView| track.group == group;
    let other = |track: TrackView| track.group != group;
    let before = tracks.take(run);
    let after = tracks.skip(run);
    assert(tracks =~= before + after);
    Seq::filter_distributes_over_add(before, after, same);
    Seq::filter_distributes_over_add(before, after, other);
    filter_all_or_none(before, same);
    filter_all_or_none(before, other);
    filter_all_or_none(after, same);
    filter_all_or_none(after, other);
    assert(in_group(tracks, group) =~= before);
    assert(outside_group(tracks, group) =~= after);
}

/// A list whose groups stand together is not changed by grouping.
pub proof fn grouped_of_grouped(tracks: Seq<TrackView>)
    requires
        is_grouped(tracks),
    ensures
        grouped(tracks) == tracks,
    decreases tracks.len(),
{
    if tracks.len() > 0 {
        let first = tracks[0].group;
        let rest = tracks.drop_first();
        let same = |track: TrackView| track.group == first;
        let other = |track: TrackView| track.group != first;
        rest.lemma_filter_len(other);
        let run = leading_run(rest, first);
        run_splits(rest, first);
        assert forall|i: int| run <= i < rest.len() implies (#[trigger] rest[i]).group != first by {
            if rest[i].group == first {
                assert(tracks[i + 1] == rest[i]);
                assert(tracks[run + 1] == rest[run]);
                if run < i {
                    assert(stays_together(tracks, 0, run + 1, i + 1));
                }
            }
        }
        let after = rest.skip(run);
        filter_of_run(rest, run, first);
        assert(is_grouped(after)) by {
            assert forall|i: int, j: int, k: int|
                0 <= i < j < k < after.len() implies #[trigger] stays_together(after, i, j, k) by {
                assert(stays_together(tracks, run + 1 + i, run + 1 + j, run + 1 + k));
                assert(after[i] == tracks[run + 1 + i]);
                assert(after[j] == tracks[run + 1 + j]);
                assert(after[k] == tracks[run + 1 + k]);
            }
        }
        grouped_of_grouped(after);
        assert(grouped(tracks) == seq![tracks[0]] + rest.take(run) + after);
        assert(seq![tracks[0]] + rest.take(run) + after =~= tracks);
    } else {
        assert(grouped(tracks) =~= tracks);
    }
}

/// The number of tracks of `group` that the list starts with.
spec fn leading_run(tracks: Seq<TrackView>, group: Seq<char>) -> int
    decreases tracks.len(),
{
    if tracks.len() > 0 && tracks[0].group == group {
        1 + leading_run(tracks.drop_first(), group)
    } else {
        0
    }
}

/// The leading run is of the group and ends where the group does.
proof fn run_splits(tracks: Seq<TrackView>, group: Seq<char>)
    ensures
        0 <= leading_run(tracks, group) <= tracks.len(),
        forall|i: int|
            0 <= i < leading_run(tracks, group) ==> (#[trigger] tracks[i]).group == group,
        leading_run(tracks, group) < tracks.len() ==> tracks[leading_run(tracks, group)].group
            != group,
    decreases tracks.len(),
{
    if tracks.len() > 0 && tracks[0].group == group {
        let rest = tracks.drop_first();
        run_splits(rest, group);
        assert forall|i: int| 0 <= i < leading_run(tracks, group) implies (
        #[trigger] tracks[i]).group == group by {
            if i > 0 {
                assert(rest[i - 1] == tracks[i]);
            }
        }
        if leading_run(rest, group) < rest.len() {
            assert(tracks[leading_run(tracks, group)] == rest[leading_run(rest, group)]);
        }
    }
}

/// Grouping twice is grouping once.
pub proof fn grouping_is_idempotent(tracks: Seq<TrackView>)
    ensures
        grouped(grouped(tracks)) == grouped(tracks),
{
    grouped_is_grouped(tracks);
    grouped_of_grouped(grouped(tracks));
}

// ---------------------------------------------------------------------------
// What merging keeps
// ---------------------------------------------------------------------------

/// Merging keeps every track, in order: without the additions it is the list as it was.
pub proof fn merged_keeps_order(
    tracks: Seq<TrackView>,
    additions: Seq<TrackView>,
    known: spec_fn(TrackView) -> bool,
)
    requires
        forall|i: int| 0 <= i < tracks.len() ==> known(#[trigger] tracks[i]),
        forall|i: int| 0 <= i < additions.len() ==> !known(#[trigger] additions[i]),
    ensures
        merged(tracks, additions).filter(known) == tracks,
    decreases tracks.len(),
{
    if tracks.len() == 0 {
        grouped_entries(additions);
        let tail = grouped(additions);
        assert forall|i: int| 0 <= i < tail.len() implies !known(#[trigger] tail[i]) by {
            let k = additions.index_of(tail[i]);
            assert(additions.contains(tail[i]));
            assert(!known(additions[k]));
        }
        filter_all_or_none(tail, known);
        assert(tracks =~= Seq::empty());
    } else {
        let rest = tracks.drop_first();
        let head = seq![tracks[0]];
        assert forall|i: int| 0 <= i < rest.len() implies known(#[trigger] rest[i]) by {
            assert(known(tracks[i + 1]));
        }
        assert(known(tracks[0]));
        filter_first(head, known);
        filter_all_or_none(head, known);
        assert(forall|i: int| 0 <= i < head.len() ==> known(#[trigger] head[i]));
        assert(tracks =~= head + rest);
        if rest.len() > 0 && rest[0].group == tracks[0].group {
            merged_keeps_order(rest, additions, known);
            Seq::filter_distributes_over_add(head, merged(rest, additions), known);
        } else {
            let group = tracks[0].group;
            let same = |track: TrackView| track.group == group;
            let other = |track: TrackView| track.group != group;
            let run = in_group(additions, group);
            let others = outside_group(additions, group);
            filter_entries(additions, same);
            filter_entries(additions, other);
            assert forall|i: int| 0 <= i < run.len() implies !known(#[trigger] run[i]) by {
                let k = additions.index_of(run[i]);
                assert(!known(additions[k]));
            }
            assert forall|i: int| 0 <= i < others.len() implies !known(#[trigger] others[i]) by {
                let k = additions.index_of(others[i]);
                assert(!known(additions[k]));
            }
            filter_all_or_none(run, known);
            merged_keeps_order(rest, others, known);
            Seq::filter_distributes_over_add(head + run, merged(rest, others), known);
            Seq::filter_distributes_over_add(head, run, known);
            assert(merged(tracks, additions).filter(known) =~= tracks);
        }
    }
}

/// Merging adds the additions and drops nothing.
pub proof fn merged_keeps_tracks(tracks: Seq<TrackView>, additions: Seq<TrackView>)
    ensures
        merged(tracks, additions).len() == tracks.len() + additions.len(),
        merged(tracks, additions).to_multiset() == tracks.to_multiset().add(
            additions.to_multiset(),
        ),
    decreases tracks.len(),
{
    broadcast use vstd::seq_lib::group_to_multiset_ensures;

    if tracks.len() == 0 {
        grouped_keeps_tracks(additions);
        grouped_entries(additions);
        assert(merged(tracks, additions).to_multiset() =~= tracks.to_multiset().add(
            additions.to_multiset(),
        ));
    } else {
        let rest = tracks.drop_first();
        let head = seq![tracks[0]];
        assert(tracks =~= head + rest);
        vstd::seq_lib::lemma_multiset_commutative(head, rest);
        if rest.len() > 0 && rest[0].group == tracks[0].group {
            merged_keeps_tracks(rest, additions);
            vstd::seq_lib::lemma_multiset_commutative(head, merged(rest, additions));
        } else {
            let group = tracks[0].group;
            let same = |track: TrackView| track.group == group;
            let other = |track: TrackView| track.group != group;
            let run = in_group(additions, group);
            let others = outside_group(additions, group);
            filter_parts_add_up(additions, same, other);
            merged_keeps_tracks(rest, others);
            vstd::seq_lib::lemma_multiset_commutative(head + run, merged(rest, others));
            vstd::seq_lib::lemma_multiset_commutative(head, run);
        }
        assert(merged(tracks, additions).to_multiset() =~= tracks.to_multiset().add(
            additions.to_multiset(),
        ));
    }
}

/// With nothing to add, merging changes nothing.
pub proof fn merged_with_nothing(tracks: Seq<TrackView>)
    ensures
        merged(tracks, Seq::empty()) == tracks,
    decreases tracks.len(),
{
    let none = Seq::<TrackView>::empty();
    if tracks.len() == 0 {
        assert(merged(tracks, none) =~= tracks);
    } else {
        let rest = tracks.drop_first();
        let group = tracks[0].group;
        merged_with_nothing(rest);
        filter_all_or_none(none, |track: TrackView| track.group == group);
        filter_all_or_none(none, |track: TrackView| track.group != group);
        assert(merged(tracks, none) =~= tracks);
    }
}

// ---------------------------------------------------------------------------
// Grouping and merging
// ---------------------------------------------------------------------------

/// Splits a list into the tracks of `group` and the others.
pub fn split_group(tracks: Vec<Track>, group: &str) -> (parts: (Vec<Track>, Vec<Track>))
    ensures
        track::track_views(parts.0@) == in_group(track::track_views(tracks@), group@),
        track::track_views(parts.1@) == outside_group(track::track_views(tracks@), group@),
{
    let ghost all = track::track_views(tracks@);
    let ghost same = |track: TrackView| track.group == group@;
    let ghost other = |track: TrackView| track.group != group@;
    let mut matching: Vec<Track> = Vec::new();
    let mut others: Vec<Track> = Vec::new();
    proof {
        assert(all.take(0) =~= Seq::empty());
        filter_all_or_none(all.take(0), same);
        filter_all_or_none(all.take(0), other);
        assert(track::track_views(matching@) =~= Seq::empty());
        assert(track::track_views(others@) =~= Seq::empty());
    }
    for item in iter: tracks
        invariant
            all == track::track_views(iter.seq()),
            same == (|track: TrackView| track.group == group@),
            other == (|track: TrackView| track.group != group@),
            track::track_views(matching@) == all.take(iter.index()).filter(same),
            track::track_views(others@) == all.take(iter.index()).filter(other),
    {
        proof {
            filter_next(all, same, iter.index());
            filter_next(all, other, iter.index());
        }
        let ghost matching_before = matching@;
        let ghost others_before = others@;
        if text::same_text(item.group.as_str(), group) {
            matching.push(item);
            assert(track::track_views(matching@) =~= track::track_views(matching_before).push(
                item@,
            ));
        } else {
            others.push(item);
            assert(track::track_views(others@) =~= track::track_views(others_before).push(item@));
        }
    }
    assert(all.take(all.len() as int) =~= all);
    (matching, others)
}

/// Brings the tracks of each group together.
pub fn group_tracks(tracks: Vec<Track>) -> (result: Vec<Track>)
    ensures
        track::track_views(result@) == grouped(track::track_views(tracks@)),
{
    let ghost all = track::track_views(tracks@);
    let mut result: Vec<Track> = Vec::new();
    let mut rest = tracks;
    assert(track::track_views(result@) + grouped(all) =~= grouped(all));
    while rest.len() > 0
        invariant
            track::track_views(result@) + grouped(track::track_views(rest@)) == grouped(all),
        decreases rest@.len(),
    {
        let ghost before = track::track_views(rest@);
        let ghost done = track::track_views(result@);
        let ghost placed = result@;
        let group = rest[0].group.clone();
        let (mut run, others) = split_group(rest, group.as_str());
        proof {
            let tail = before.drop_first();
            filter_first(before, |track: TrackView| track.group == group@);
            filter_first(before, |track: TrackView| track.group != group@);
            tail.lemma_filter_len(|track: TrackView| track.group != group@);
            assert(outside_group(before, group@) =~= outside_group(tail, group@));
            assert(track::track_views(others@).len() == others@.len());
            assert(before.len() == rest@.len());
        }
        let ghost moved = run@;
        result.append(&mut run);
        proof {
            assert(track::track_views(result@) =~= done + track::track_views(moved));
            assert(track::track_views(result@) + grouped(track::track_views(others@)) =~= done
                + grouped(before));
        }
        rest = others;
    }
    proof {
        assert(track::track_views(rest@) =~= Seq::empty());
        assert(track::track_views(result@) =~= grouped(all));
    }
    result
}

/// Adds tracks to the groups of a list.
pub fn merge_tracks(tracks: Vec<Track>, additions: Vec<Track>) -> (result: Vec<Track>)
    ensures
        track::track_views(result@) == merged(
            track::track_views(tracks@),
            track::track_views(additions@),
        ),
{
    let ghost all = track::track_views(tracks@);
    let ghost goal = merged(all, track::track_views(additions@));
    let mut groups: Vec<String> = Vec::new();
    let mut index: usize = 0;
    while index < tracks.len()
        invariant
            index <= tracks@.len(),
            groups@.len() == index,
            forall|i: int| 0 <= i < index ==> #[trigger] groups@[i]@ == tracks@[i].group@,
        decreases tracks@.len() - index,
    {
        groups.push(tracks[index].group.clone());
        index += 1;
    }
    let ghost listed = tracks@;
    let mut result: Vec<Track> = Vec::new();
    let mut rest = additions;
    let mut position: usize = 0;
    assert(all.skip(0) =~= all);
    assert(track::track_views(result@) + goal =~= goal);
    for item in iter: tracks
        invariant
            iter.seq() == listed,
            all == track::track_views(listed),
            position == iter.index(),
            groups@.len() == listed.len(),
            forall|i: int| 0 <= i < listed.len() ==> #[trigger] groups@[i]@ == listed[i].group@,
            track::track_views(result@) + merged(
                all.skip(position as int),
                track::track_views(rest@),
            ) == goal,
    {
        let ghost left = all.skip(position as int);
        let ghost done = track::track_views(result@);
        let ghost placed = result@;
        assert(left[0] == item@);
        assert(left.drop_first() =~= all.skip(position + 1));
        assert(position < groups.len());
        let last_of_run = position + 1 >= groups.len() || groups[position + 1] != groups[position];
        assert(last_of_run == !(left.drop_first().len() > 0 && left.drop_first()[0].group
            == left[0].group)) by {
            if position + 1 < groups@.len() {
                assert(groups@[position + 1]@ == listed[position + 1].group@);
                assert(groups@[position as int]@ == listed[position as int].group@);
                assert(left.drop_first()[0] == listed[position + 1]@);
            }
        }
        result.push(item);
        assert(track::track_views(result@) =~= done.push(item@));
        if last_of_run {
            let ghost with_item = track::track_views(result@);
            let (mut run, others) = split_group(rest, groups[position].as_str());
            let ghost moved = run@;
            result.append(&mut run);
            assert(track::track_views(result@) =~= with_item + track::track_views(moved));
            rest = others;
        }
        assert(track::track_views(result@) + merged(
            all.skip(position + 1),
            track::track_views(rest@),
        ) =~= goal);
        position += 1;
    }
    let ghost done = track::track_views(result@);
    let mut tail = group_tracks(rest);
    let ghost moved = tail@;
    result.append(&mut tail);
    proof {
        assert(all.skip(all.len() as int) =~= Seq::empty());
        assert(track::track_views(result@) =~= done + track::track_views(moved));
    }
    result
}

} // verus!
