//! The track list: which rows it has, where they stand, and which of them are drawn.
//!
//! Places in the list are in pixels, counted from its top.

use crate::counting;
use crate::paths;
use crate::text;
use crate::track;
use crate::track::{Track, TrackView};
use vstd::prelude::*;
use vstd::string::*;

verus! {

/// The height of a row, in pixels.
pub const TRACK_ROW_HEIGHT: i128 = 32;

/// The height of the line between two rows, in pixels.
pub const TRACK_SEPARATOR_HEIGHT: i128 = 1;

/// The height of the gap above the heading of a group, in pixels.
pub const TRACK_GROUP_TOP_GAP: i128 = 6;

/// The height of the heading of a group, in pixels.
pub const TRACK_GROUP_HEADER_HEIGHT: i128 = 24;

/// The height of the heading of a group with what surrounds it, in pixels.
pub const TRACK_GROUP_BLOCK_HEIGHT: i128 = 31;

/// How many rows are drawn above and below what is visible.
pub const TRACK_LIST_OVERSCAN_ROWS: i128 = 4;

// ---------------------------------------------------------------------------
// Entries
// ---------------------------------------------------------------------------

/// An entry of the list.
#[derive(Debug)]
pub enum ListEntry {
    GroupHeader { heading: String },
    TrackRow { index: usize, group: String },
}

/// The model of an entry.
#[verifier::ext_equal]
pub enum EntryView {
    GroupHeader { heading: Seq<char> },
    TrackRow { index: usize, group: Seq<char> },
}

impl View for ListEntry {
    type V = EntryView;

    open spec fn view(&self) -> EntryView {
        match *self {
            ListEntry::GroupHeader { heading } => EntryView::GroupHeader { heading: heading@ },
            ListEntry::TrackRow { index, group } => EntryView::TrackRow { index, group: group@ },
        }
    }
}

/// The models of entries.
pub open spec fn entry_views(entries: Seq<ListEntry>) -> Seq<EntryView> {
    entries.map_values(|entry: ListEntry| entry@)
}

/// The group of the last of the visible tracks.
pub open spec fn last_group(tracks: Seq<TrackView>, visible: Seq<usize>) -> Option<Seq<char>>
    decreases visible.len(),
{
    if visible.len() == 0 {
        None
    } else if visible.last() < tracks.len() {
        Some(tracks[visible.last() as int].group)
    } else {
        last_group(tracks, visible.drop_last())
    }
}

/// The entries of the list: a row for each visible track, and where groups are shown a heading
/// before each change of group; the rows of a hidden group are left out.
pub open spec fn list_entries(
    tracks: Seq<TrackView>,
    visible: Seq<usize>,
    shows_groups: bool,
    hidden: Seq<Seq<char>>,
) -> Seq<EntryView>
    decreases visible.len(),
{
    if visible.len() == 0 {
        Seq::empty()
    } else {
        let before = list_entries(tracks, visible.drop_last(), shows_groups, hidden);
        let index = visible.last();
        if index >= tracks.len() {
            before
        } else {
            let group = tracks[index as int].group;
            let headed = if shows_groups && last_group(tracks, visible.drop_last()) != Some(group) {
                before.push(EntryView::GroupHeader { heading: group })
            } else {
                before
            };
            if shows_groups && hidden.contains(group) {
                headed
            } else {
                headed.push(EntryView::TrackRow { index, group })
            }
        }
    }
}

/// The tracks that have a row, in the order of the rows.
pub open spec fn row_indexes(entries: Seq<EntryView>) -> Seq<usize>
    decreases entries.len(),
{
    if entries.len() == 0 {
        Seq::empty()
    } else {
        let before = row_indexes(entries.drop_last());
        match entries.last() {
            EntryView::TrackRow { index, .. } => before.push(index),
            EntryView::GroupHeader { .. } => before,
        }
    }
}

/// The condition that a track is there and its group is not hidden.
pub open spec fn has_row(
    tracks: Seq<TrackView>,
    shows_groups: bool,
    hidden: Seq<Seq<char>>,
) -> spec_fn(usize) -> bool {
    |index: usize|
        index < tracks.len() && !(shows_groups && hidden.contains(tracks[index as int].group))
}

/// The rows are those of the visible tracks, in their order, but for the hidden groups.
pub proof fn rows_are_the_visible_tracks(
    tracks: Seq<TrackView>,
    visible: Seq<usize>,
    shows_groups: bool,
    hidden: Seq<Seq<char>>,
)
    ensures
        row_indexes(list_entries(tracks, visible, shows_groups, hidden)) == visible.filter(
            has_row(tracks, shows_groups, hidden),
        ),
    decreases visible.len(),
{
    reveal(Seq::filter);
    if visible.len() > 0 {
        rows_are_the_visible_tracks(tracks, visible.drop_last(), shows_groups, hidden);
        let before = list_entries(tracks, visible.drop_last(), shows_groups, hidden);
        let index = visible.last();
        if index < tracks.len() {
            let group = tracks[index as int].group;
            let heading = EntryView::GroupHeader { heading: group };
            let row = EntryView::TrackRow { index, group };
            let headed = before.push(heading);
            assert(headed.drop_last() =~= before);
            assert(row_indexes(headed) == row_indexes(before));
            assert(before.push(row).drop_last() =~= before);
            assert(row_indexes(before.push(row)) == row_indexes(before).push(index));
            assert(headed.push(row).drop_last() =~= headed);
            assert(row_indexes(headed.push(row)) == row_indexes(before).push(index));
        }
    }
}

/// The entries of the list.
pub fn build_entries(
    tracks: &Vec<Track>,
    visible: &Vec<usize>,
    shows_groups: bool,
    hidden: &Vec<String>,
) -> (entries: Vec<ListEntry>)
    ensures
        entry_views(entries@) == list_entries(
            track::track_views(tracks@),
            visible@,
            shows_groups,
            text::texts(hidden@),
        ),
{
    let ghost views = track::track_views(tracks@);
    let ghost gone = text::texts(hidden@);
    let mut entries: Vec<ListEntry> = Vec::new();
    let mut previous: Option<String> = None;
    let mut at: usize = 0;
    assert(visible@.take(0) =~= Seq::empty());
    assert(entry_views(entries@) =~= Seq::empty());
    while at < visible.len()
        invariant
            at <= visible@.len(),
            views == track::track_views(tracks@),
            gone == text::texts(hidden@),
            paths::text_of(previous) == last_group(views, visible@.take(at as int)),
            entry_views(entries@) == list_entries(
                views,
                visible@.take(at as int),
                shows_groups,
                gone,
            ),
        decreases visible@.len() - at,
    {
        assert(visible@.take(at + 1).drop_last() =~= visible@.take(at as int));
        assert(visible@.take(at + 1).last() == visible@[at as int]);
        let index: usize = visible[at];
        if index < tracks.len() {
            assert(views[index as int] == tracks@[index as int]@);
            let group = tracks[index].group.clone();
            if shows_groups && !is_group(&previous, group.as_str()) {
                let ghost before = entries@;
                let entry = ListEntry::GroupHeader { heading: group.clone() };
                entries.push(entry);
                assert(entry_views(entries@) =~= entry_views(before).push(entry@));
            }
            if !(shows_groups && text::list_contains(hidden, group.as_str())) {
                let ghost before = entries@;
                let entry = ListEntry::TrackRow { index, group: group.clone() };
                entries.push(entry);
                assert(entry_views(entries@) =~= entry_views(before).push(entry@));
            }
            previous = Some(group);
        }
        at += 1;
    }
    assert(visible@.take(visible@.len() as int) =~= visible@);
    entries
}

/// Whether a group is the given one.
fn is_group(known: &Option<String>, group: &str) -> (same: bool)
    ensures
        same == (paths::text_of(*known) == Some(group@)),
{
    match known {
        Some(known) => text::same_text(known.as_str(), group),
        None => false,
    }
}

// ---------------------------------------------------------------------------
// Places
// ---------------------------------------------------------------------------

/// The first row behind the entry at a position.
pub open spec fn next_row(entries: Seq<EntryView>, at: int) -> Option<usize>
    decreases entries.len() - at,
{
    if at + 1 >= entries.len() || at < 0 {
        None
    } else {
        match entries[at + 1] {
            EntryView::TrackRow { index, .. } => Some(index),
            EntryView::GroupHeader { .. } => next_row(entries, at + 1),
        }
    }
}

/// The height of the entry at a position: a row has a line below it where another row follows.
pub open spec fn entry_height(entries: Seq<EntryView>, at: int) -> int {
    match entries[at] {
        EntryView::GroupHeader { .. } => TRACK_GROUP_BLOCK_HEIGHT as int,
        EntryView::TrackRow { .. } => TRACK_ROW_HEIGHT + if next_row(entries, at) is Some {
            TRACK_SEPARATOR_HEIGHT as int
        } else {
            0int
        },
    }
}

/// Where the entry at a position begins; behind the last entry, where the list ends.
pub open spec fn entry_top(entries: Seq<EntryView>, at: int) -> int
    decreases at,
{
    if at <= 0 {
        0
    } else {
        entry_top(entries, at - 1) + entry_height(entries, at - 1)
    }
}

/// An entry with its place in the list.
#[derive(Clone, Copy, Debug, PartialEq, Eq, Structural)]
pub struct EntryPlace {
    pub top: i128,
    pub bottom: i128,
    pub next_track: Option<usize>,
}

/// The place of the entry at a position.
pub open spec fn place_of_entry(entries: Seq<EntryView>, at: int) -> EntryPlace {
    EntryPlace {
        top: entry_top(entries, at) as i128,
        bottom: entry_top(entries, at + 1) as i128,
        next_track: match entries[at] {
            EntryView::TrackRow { .. } => next_row(entries, at),
            EntryView::GroupHeader { .. } => None,
        },
    }
}

/// The places of all entries.
pub open spec fn entry_places(entries: Seq<EntryView>) -> Seq<EntryPlace> {
    Seq::new(entries.len(), |at: int| place_of_entry(entries, at))
}

/// An entry begins below all before it, and not further down than the tallest entries reach.
pub proof fn entries_follow_each_other(entries: Seq<EntryView>, first: int, second: int)
    requires
        0 <= first <= second,
    ensures
        entry_top(entries, first) <= entry_top(entries, second),
        first < second ==> entry_top(entries, first + 1) <= entry_top(entries, second),
        0 <= entry_top(entries, second) <= 33 * second,
    decreases second,
{
    if second > 0 {
        entries_follow_each_other(
            entries,
            if first < second {
                first
            } else {
                second - 1
            },
            second - 1,
        );
    }
}

/// The next row of every entry: the list from the last entry on.
fn next_rows(entries: &Vec<ListEntry>) -> (following: Vec<Option<usize>>)
    ensures
        following@.len() == entries@.len(),
        forall|at: int|
            0 <= at < entries@.len() ==> #[trigger] following@[at] == next_row(
                entry_views(entries@),
                at,
            ),
{
    let ghost views = entry_views(entries@);
    let count: usize = entries.len();
    let mut following: Vec<Option<usize>> = Vec::new();
    let mut filled: usize = 0;
    while filled < count
        invariant
            filled <= count,
            count == entries@.len(),
            following@.len() == filled,
            forall|at: int| 0 <= at < filled ==> #[trigger] following@[at] is None,
        decreases count - filled,
    {
        following.push(None);
        filled += 1;
    }
    let mut left: usize = count;
    let mut next: Option<usize> = None;
    while left > 0
        invariant
            left <= count,
            count == entries@.len(),
            views == entry_views(entries@),
            following@.len() == count,
            left > 0 ==> next == next_row(views, left - 1),
            forall|at: int|
                left <= at < count ==> #[trigger] following@[at] == next_row(views, at),
        decreases left,
    {
        left -= 1;
        following.set(left, next);
        assert(views[left as int] == entries@[left as int]@);
        match &entries[left] {
            ListEntry::TrackRow { index, .. } => {
                next = Some(*index);
            },
            ListEntry::GroupHeader { .. } => {},
        }
    }
    following
}

/// The places of all entries.
pub fn place_entries(entries: &Vec<ListEntry>) -> (places: Vec<EntryPlace>)
    ensures
        places@ == entry_places(entry_views(entries@)),
{
    let ghost views = entry_views(entries@);
    let following = next_rows(entries);
    let mut places: Vec<EntryPlace> = Vec::new();
    let mut y: i128 = 0;
    let mut at: usize = 0;
    while at < entries.len()
        invariant
            at <= entries@.len(),
            views == entry_views(entries@),
            following@.len() == entries@.len(),
            forall|i: int|
                0 <= i < entries@.len() ==> #[trigger] following@[i] == next_row(views, i),
            y == entry_top(views, at as int),
            places@.len() == at,
            forall|i: int| 0 <= i < at ==> #[trigger] places@[i] == place_of_entry(views, i),
        decreases entries@.len() - at,
    {
        proof {
            entries_follow_each_other(views, 0, at as int);
            assert(views[at as int] == entries@[at as int]@);
        }
        let top: i128 = y;
        let (height, next_track): (i128, Option<usize>) = match &entries[at] {
            ListEntry::GroupHeader { .. } => (TRACK_GROUP_BLOCK_HEIGHT, None),
            ListEntry::TrackRow { .. } => {
                let next = following[at];
                if next.is_some() {
                    (TRACK_ROW_HEIGHT + TRACK_SEPARATOR_HEIGHT, next)
                } else {
                    (TRACK_ROW_HEIGHT, next)
                }
            },
        };
        assert(height == entry_height(views, at as int));
        y = y + height;
        places.push(EntryPlace { top, bottom: y, next_track });
        at += 1;
    }
    assert(places@ =~= entry_places(views));
    places
}

// ---------------------------------------------------------------------------
// What is drawn
// ---------------------------------------------------------------------------

/// The condition that an entry reaches down to a place.
pub open spec fn reaches(places: Seq<EntryPlace>, place: int) -> spec_fn(int) -> bool {
    |i: int| places[i].bottom >= place
}

/// The first entry that is drawn, where drawing begins at a place.
pub open spec fn first_drawn(places: Seq<EntryPlace>, from: int) -> usize {
    match counting::first_where(places.len(), reaches(places, from)) {
        Some(at) => at,
        None => places.len() as usize,
    }
}

/// Behind the last of the first `count` entries that begins no further down than a place; none
/// does where this is the given position.
pub open spec fn behind_last_above(
    places: Seq<EntryPlace>,
    count: nat,
    to: int,
    otherwise: usize,
) -> usize
    decreases count,
{
    if count == 0 {
        otherwise
    } else if places[count - 1].top <= to {
        count as usize
    } else {
        behind_last_above(places, (count - 1) as nat, to, otherwise)
    }
}

/// The entries that are drawn between two places: the first, and the one behind the last.
pub open spec fn drawn_range(places: Seq<EntryPlace>, from: int, to: int) -> (usize, usize) {
    let first = first_drawn(places, from);
    (first, behind_last_above(places, places.len(), to, first))
}

/// The entries that are drawn between two places: the first, and the one behind the last.
pub fn find_drawn_range(places: &Vec<EntryPlace>, from: i128, to: i128) -> (range: (usize, usize))
    ensures
        range == drawn_range(places@, from as int, to as int),
{
    let ghost reaching = reaches(places@, from as int);
    let count: usize = places.len();
    let mut first: usize = 0;
    while first < count && places[first].bottom < from
        invariant
            first <= count,
            count == places@.len(),
            reaching == reaches(places@, from as int),
            forall|i: int| 0 <= i < first ==> !#[trigger] reaching(i),
        decreases count - first,
    {
        first += 1;
    }
    proof {
        if first < count {
            assert(reaching(first as int));
            counting::first_where_is(places@.len(), reaching, first as int);
        } else {
            counting::first_where_none(places@.len(), reaching);
        }
    }
    let mut end: usize = count;
    while end > 0 && places[end - 1].top > to
        invariant
            end <= count,
            count == places@.len(),
            behind_last_above(places@, places@.len(), to as int, first) == behind_last_above(
                places@,
                end as nat,
                to as int,
                first,
            ),
        decreases end,
    {
        end -= 1;
    }
    if end == 0 {
        (first, first)
    } else {
        (first, end)
    }
}

/// Every entry of which a part lies between the two places is drawn.
pub proof fn visible_entries_are_drawn(
    entries: Seq<EntryView>,
    from: int,
    to: int,
    at: int,
)
    requires
        0 <= at < entries.len() <= usize::MAX,
        entry_top(entries, at) <= to,
        entry_top(entries, at + 1) >= from,
    ensures
        ({
            let range = drawn_range(entry_places(entries), from, to);
            range.0 <= at < range.1
        }),
{
    let places = entry_places(entries);
    entries_follow_each_other(entries, 0, at);
    entries_follow_each_other(entries, 0, at + 1);
    assert(places[at].top == entry_top(entries, at));
    assert(places[at].bottom == entry_top(entries, at + 1));
    let reaching = reaches(places, from);
    counting::first_where_holds(places.len(), reaching);
    assert(reaching(at));
    let first = first_drawn(places, from);
    if first > at {
        assert(!reaching(at));
    }
    last_above_is_behind(places, places.len(), to, first, at);
}

/// The position behind the last entry above a place is behind every entry above it.
proof fn last_above_is_behind(
    places: Seq<EntryPlace>,
    count: nat,
    to: int,
    otherwise: usize,
    at: int,
)
    requires
        0 <= at < count <= places.len() <= usize::MAX,
        places[at].top <= to,
    ensures
        at < behind_last_above(places, count, to, otherwise),
    decreases count,
{
    if places[count - 1].top > to {
        last_above_is_behind(places, (count - 1) as nat, to, otherwise, at);
    }
}

// ---------------------------------------------------------------------------
// The heading that stays in view
// ---------------------------------------------------------------------------

/// The heading that stays in view, and where the next one begins.
#[derive(Debug)]
pub struct StickyHeading {
    pub group: Option<String>,
    pub next_top: Option<i128>,
}

/// The condition that an entry is a heading below a place.
pub open spec fn is_heading_below(
    entries: Seq<EntryView>,
    places: Seq<EntryPlace>,
    place: int,
) -> spec_fn(int) -> bool {
    |i: int| entries[i] is GroupHeader && places[i].top > place
}

/// The condition that an entry is a row that is visible between two places.
pub open spec fn is_visible_row(
    entries: Seq<EntryView>,
    places: Seq<EntryPlace>,
    from: int,
    to: int,
) -> spec_fn(int) -> bool {
    |i: int| entries[i] is TrackRow && places[i].bottom >= from && places[i].top <= to
}

/// The last heading among the first `count` entries.
pub open spec fn last_heading(entries: Seq<EntryView>, count: nat) -> Option<Seq<char>>
    decreases count,
{
    if count == 0 {
        None
    } else {
        match entries[count - 1] {
            EntryView::GroupHeader { heading } => Some(heading),
            EntryView::TrackRow { .. } => last_heading(entries, (count - 1) as nat),
        }
    }
}

/// The first heading that begins below the top of what is visible.
pub open spec fn next_heading(
    entries: Seq<EntryView>,
    places: Seq<EntryPlace>,
    from: int,
) -> Option<usize> {
    counting::first_where(entries.len(), is_heading_below(entries, places, from))
}

/// The group of what is at the top of what is visible: that of the last heading above it; where
/// there is none, that of the first visible row before the next heading.
pub open spec fn sticky_group(
    entries: Seq<EntryView>,
    places: Seq<EntryPlace>,
    from: int,
    to: int,
) -> Option<Seq<char>> {
    let end = match next_heading(entries, places, from) {
        Some(at) => at as nat,
        None => entries.len(),
    };
    match last_heading(entries, end) {
        Some(heading) => Some(heading),
        None => match counting::first_where(end, is_visible_row(entries, places, from, to)) {
            Some(at) => Some(entries[at as int]->group),
            None => None,
        },
    }
}

/// The heading that stays in view, and where the next one begins. Between `from` and `to` the
/// list is visible.
pub fn find_sticky_heading(
    entries: &Vec<ListEntry>,
    places: &Vec<EntryPlace>,
    from: i128,
    to: i128,
) -> (sticky: StickyHeading)
    requires
        entries@.len() == places@.len(),
    ensures
        paths::text_of(sticky.group) == sticky_group(
            entry_views(entries@),
            places@,
            from as int,
            to as int,
        ),
        sticky.next_top == match next_heading(entry_views(entries@), places@, from as int) {
            Some(at) => Some(places@[at as int].top),
            None => None,
        },
{
    let ghost views = entry_views(entries@);
    let ghost below = is_heading_below(views, places@, from as int);
    let ghost shown = is_visible_row(views, places@, from as int, to as int);
    let mut heading: Option<String> = None;
    let mut row: Option<String> = None;
    let mut at: usize = 0;
    while at < entries.len()
        invariant
            at <= entries@.len() == places@.len(),
            views == entry_views(entries@),
            below == is_heading_below(views, places@, from as int),
            shown == is_visible_row(views, places@, from as int, to as int),
            forall|i: int| 0 <= i < at ==> !#[trigger] below(i),
            paths::text_of(heading) == last_heading(views, at as nat),
            paths::text_of(row) == match counting::first_where(at as nat, shown) {
                Some(first) => Some(views[first as int]->group),
                None => None,
            },
        decreases entries@.len() - at,
    {
        assert(views[at as int] == entries@[at as int]@);
        match &entries[at] {
            ListEntry::GroupHeader { heading: group } => {
                if places[at].top > from {
                    proof {
                        assert(below(at as int));
                        assert(entries.len() == views.len());
                        counting::first_where_is(views.len(), below, at as int);
                    }
                    let group = if heading.is_some() {
                        heading
                    } else {
                        row
                    };
                    return StickyHeading { group, next_top: Some(places[at].top) };
                }
                heading = Some(group.clone());
            },
            ListEntry::TrackRow { group, .. } => {
                if row.is_none() && places[at].bottom >= from && places[at].top <= to {
                    row = Some(group.clone());
                }
            },
        }
        assert(!below(at as int));
        at += 1;
    }
    proof {
        assert(entries.len() == views.len());
        counting::first_where_none(views.len(), below);
    }
    let group = if heading.is_some() {
        heading
    } else {
        row
    };
    StickyHeading { group, next_top: None }
}

// ---------------------------------------------------------------------------
// Finding entries
// ---------------------------------------------------------------------------

/// The condition that an entry is the row of a track with the key of a path.
pub open spec fn is_row_of_path(
    entries: Seq<EntryView>,
    tracks: Seq<TrackView>,
    path: Seq<char>,
) -> spec_fn(int) -> bool {
    |i: int|
        match entries[i] {
            EntryView::TrackRow { index, .. } => index < tracks.len() && paths::same_key(
                tracks[index as int].path,
                path,
            ),
            EntryView::GroupHeader { .. } => false,
        }
}

/// The condition that an entry is the heading of a group.
pub open spec fn is_heading_of(
    entries: Seq<EntryView>,
    group: Seq<char>,
) -> spec_fn(int) -> bool {
    |i: int| entries[i] == (EntryView::GroupHeader { heading: group })
}

/// The row of the first track with the key of a path.
pub fn find_row_of_path(entries: &Vec<ListEntry>, tracks: &Vec<Track>, path: &str) -> (position:
    Option<usize>)
    ensures
        position == counting::first_where(
            entries@.len(),
            is_row_of_path(entry_views(entries@), track::track_views(tracks@), path@),
        ),
        position matches Some(at) ==> at < entries@.len(),
{
    let ghost views = entry_views(entries@);
    let ghost models = track::track_views(tracks@);
    let ghost wanted = is_row_of_path(views, models, path@);
    let mut at: usize = 0;
    while at < entries.len()
        invariant
            at <= entries@.len(),
            views == entry_views(entries@),
            models == track::track_views(tracks@),
            wanted == is_row_of_path(views, models, path@),
            forall|i: int| 0 <= i < at ==> !#[trigger] wanted(i),
        decreases entries@.len() - at,
    {
        assert(views[at as int] == entries@[at as int]@);
        if let ListEntry::TrackRow { index, .. } = &entries[at] {
            if *index < tracks.len() {
                assert(models[*index as int] == tracks@[*index as int]@);
                if paths::same_path(tracks[*index].path.as_str(), path) {
                    proof {
                        assert(wanted(at as int));
                        assert(entries.len() == views.len());
                        counting::first_where_is(views.len(), wanted, at as int);
                    }
                    return Some(at);
                }
            }
        }
        assert(!wanted(at as int));
        at += 1;
    }
    proof {
        assert(entries.len() == views.len());
        counting::first_where_none(views.len(), wanted);
    }
    None
}

/// The first heading of a group.
pub fn find_heading_of(entries: &Vec<ListEntry>, group: &str) -> (position: Option<usize>)
    ensures
        position == counting::first_where(
            entries@.len(),
            is_heading_of(entry_views(entries@), group@),
        ),
        position matches Some(at) ==> at < entries@.len(),
{
    let ghost views = entry_views(entries@);
    let ghost wanted = is_heading_of(views, group@);
    let mut at: usize = 0;
    while at < entries.len()
        invariant
            at <= entries@.len(),
            views == entry_views(entries@),
            wanted == is_heading_of(views, group@),
            forall|i: int| 0 <= i < at ==> !#[trigger] wanted(i),
        decreases entries@.len() - at,
    {
        assert(views[at as int] == entries@[at as int]@);
        if let ListEntry::GroupHeader { heading } = &entries[at] {
            if text::same_text(heading.as_str(), group) {
                proof {
                    assert(wanted(at as int));
                    assert(entries.len() == views.len());
                    counting::first_where_is(views.len(), wanted, at as int);
                }
                return Some(at);
            }
        }
        assert(!wanted(at as int));
        at += 1;
    }
    proof {
        assert(entries.len() == views.len());
        counting::first_where_none(views.len(), wanted);
    }
    None
}

/// Where a dragged track is dropped: before the row that the pointer is over, or behind it in
/// its lower half.
pub open spec fn drop_place(
    index: usize,
    next_track: Option<usize>,
    drops_behind: bool,
    track_count: usize,
) -> usize {
    if drops_behind {
        match next_track {
            Some(next) => next,
            None => track_count,
        }
    } else {
        index
    }
}

/// Where a dragged track is dropped.
pub fn find_drop_place(
    index: usize,
    next_track: Option<usize>,
    drops_behind: bool,
    track_count: usize,
) -> (place: usize)
    ensures
        place == drop_place(index, next_track, drops_behind, track_count),
{
    if drops_behind {
        match next_track {
            Some(next) => next,
            None => track_count,
        }
    } else {
        index
    }
}

/// What is said of a track behind its title.
pub open spec fn row_details(missing: bool, metadata: Seq<char>) -> Seq<char> {
    if !missing {
        metadata
    } else if metadata.len() == 0 {
        "Missing"@
    } else {
        "Missing · "@ + metadata
    }
}

/// What is said of a track behind its title.
pub fn row_details_text(missing: bool, metadata: &str) -> (details: String)
    ensures
        details@ == row_details(missing, metadata@),
{
    if !missing {
        metadata.to_owned()
    } else if metadata.is_empty() {
        "Missing".to_owned()
    } else {
        let mut details = "Missing · ".to_owned();
        details.append(metadata);
        details
    }
}

} // verus!
