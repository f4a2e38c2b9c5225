//! Copying and deleting the files of tracks.

use crate::paths;
use crate::text;
use crate::text_set;
use vstd::prelude::*;
use vstd::string::*;

verus! {

// ---------------------------------------------------------------------------
// Distinct paths
// ---------------------------------------------------------------------------

/// Whether a path of the list has the key of `path`.
pub open spec fn lists_path(list: Seq<Seq<char>>, path: Seq<char>) -> bool {
    exists|i: int| 0 <= i < list.len() && paths::same_key(#[trigger] list[i], path)
}

/// The paths without those whose key an earlier path has.
pub open spec fn distinct_paths(list: Seq<Seq<char>>) -> Seq<Seq<char>>
    decreases list.len(),
{
    if list.len() == 0 {
        Seq::empty()
    } else {
        let before = distinct_paths(list.drop_last());
        if lists_path(list.drop_last(), list.last()) {
            before
        } else {
            before.push(list.last())
        }
    }
}

/// The path keys of a list of paths.
pub open spec fn keys_of(list: Seq<Seq<char>>) -> Seq<Seq<char>> {
    list.map_values(|path: Seq<char>| text::lowercase(path))
}

/// A path of the list has the key of `path` exactly where the key is among those of the list.
proof fn lists_path_by_key(list: Seq<Seq<char>>, path: Seq<char>)
    ensures
        lists_path(list, path) == keys_of(list).contains(text::lowercase(path)),
{
    if lists_path(list, path) {
        let i = choose|i: int| 0 <= i < list.len() && paths::same_key(#[trigger] list[i], path);
        assert(keys_of(list)[i] == text::lowercase(path));
    }
    if keys_of(list).contains(text::lowercase(path)) {
        let i = keys_of(list).index_of(text::lowercase(path));
        assert(paths::same_key(list[i], path));
    }
}

/// Whether a path of the list has the key of `path`.
pub fn list_has_path(list: &Vec<String>, path: &str) -> (found: bool)
    ensures
        found == lists_path(text::texts(list@), path@),
{
    let mut index: usize = 0;
    while index < list.len()
        invariant
            index <= list@.len(),
            forall|i: int|
                0 <= i < index ==> !paths::same_key(#[trigger] text::texts(list@)[i], path@),
        decreases list@.len() - index,
    {
        if paths::same_path(list[index].as_str(), path) {
            assert(paths::same_key(text::texts(list@)[index as int], path@));
            return true;
        }
        index += 1;
    }
    false
}

/// Drops the paths whose key an earlier path has.
pub fn deduplicate_paths(list: Vec<String>) -> (distinct: Vec<String>)
    ensures
        text::texts(distinct@) == distinct_paths(text::texts(list@)),
{
    let ghost all = text::texts(list@);
    let mut seen: Vec<String> = Vec::new();
    let mut distinct: Vec<String> = Vec::new();
    proof {
        assert(all.take(0) =~= Seq::empty());
        assert(keys_of(all.take(0)) =~= Seq::empty());
        assert(text::texts(seen@) =~= Seq::empty());
        assert(text::texts(distinct@) =~= Seq::empty());
    }
    for path in iter: list
        invariant
            all == text::texts(iter.seq()),
            text_set::ascends(text::texts(seen@)),
            text::texts(seen@) == text_set::sorted_distinct(keys_of(all.take(iter.index()))),
            text::texts(distinct@) == distinct_paths(all.take(iter.index())),
    {
        let ghost before = all.take(iter.index());
        let ghost next = all.take(iter.index() + 1);
        let ghost distinct_before = distinct@;
        let key = paths::path_key(path.as_str());
        proof {
            assert(next.drop_last() =~= before);
            assert(next.last() == path@);
            assert(keys_of(next).drop_last() =~= keys_of(before));
            assert(keys_of(next).last() == key@);
            text_set::sorted_distinct_holds(keys_of(before));
            lists_path_by_key(before, path@);
        }
        let place = text_set::find_place(&seen, key.as_str());
        text_set::add_text(&mut seen, key);
        if !place.0 {
            distinct.push(path);
            assert(text::texts(distinct@) =~= text::texts(distinct_before).push(path@));
        }
    }
    assert(all.take(all.len() as int) =~= all);
    distinct
}

/// No two of the distinct paths have the same key, and each is one of the list.
pub proof fn distinct_paths_differ(list: Seq<Seq<char>>)
    ensures
        forall|i: int, j: int|
            0 <= i < j < distinct_paths(list).len() ==> !paths::same_key(
                #[trigger] distinct_paths(list)[i],
                #[trigger] distinct_paths(list)[j],
            ),
        forall|i: int|
            0 <= i < distinct_paths(list).len() ==> list.contains(#[trigger] distinct_paths(list)[i]),
        distinct_paths(list).len() <= list.len(),
    decreases list.len(),
{
    if list.len() > 0 {
        let rest = list.drop_last();
        distinct_paths_differ(rest);
        let before = distinct_paths(rest);
        let after = distinct_paths(list);
        assert forall|i: int| 0 <= i < before.len() implies list.contains(
            #[trigger] before[i],
        ) by {
            let k = rest.index_of(before[i]);
            assert(list[k] == before[i]);
        }
        if !lists_path(rest, list.last()) {
            assert(list[list.len() - 1] == list.last());
            assert forall|i: int, j: int| 0 <= i < j < after.len() implies !paths::same_key(
                #[trigger] after[i],
                #[trigger] after[j],
            ) by {
                if j == before.len() {
                    let k = rest.index_of(before[i]);
                    assert(!paths::same_key(rest[k], list.last()));
                }
            }
        }
    }
}

/// Every path of the list has its key among the distinct paths.
pub proof fn distinct_paths_cover(list: Seq<Seq<char>>, index: int)
    requires
        0 <= index < list.len(),
    ensures
        lists_path(distinct_paths(list), list[index]),
    decreases list.len(),
{
    let rest = list.drop_last();
    let before = distinct_paths(rest);
    let after = distinct_paths(list);
    if index < rest.len() {
        distinct_paths_cover(rest, index);
        let i = choose|i: int|
            0 <= i < before.len() && paths::same_key(#[trigger] before[i], rest[index]);
        assert(paths::same_key(after[i], list[index]));
    } else if lists_path(rest, list.last()) {
        let k = choose|k: int| 0 <= k < rest.len() && paths::same_key(#[trigger] rest[k], list.last());
        distinct_paths_cover(rest, k);
        let i = choose|i: int|
            0 <= i < before.len() && paths::same_key(#[trigger] before[i], rest[k]);
        assert(paths::same_key(after[i], list[index]));
    } else {
        assert(paths::same_key(after[after.len() - 1], list[index]));
    }
}

/// Dropping repeated paths once is enough.
pub proof fn deduplication_is_idempotent(list: Seq<Seq<char>>)
    ensures
        distinct_paths(distinct_paths(list)) == distinct_paths(list),
{
    distinct_paths_differ(list);
    distinct_paths_of_distinct(distinct_paths(list));
}

/// Paths with distinct keys stay as they are.
proof fn distinct_paths_of_distinct(list: Seq<Seq<char>>)
    requires
        forall|i: int, j: int|
            0 <= i < j < list.len() ==> !paths::same_key(#[trigger] list[i], #[trigger] list[j]),
    ensures
        distinct_paths(list) == list,
    decreases list.len(),
{
    if list.len() > 0 {
        let rest = list.drop_last();
        distinct_paths_of_distinct(rest);
        if lists_path(rest, list.last()) {
            let i = choose|i: int|
                0 <= i < rest.len() && paths::same_key(#[trigger] rest[i], list.last());
            assert(!paths::same_key(list[i], list[list.len() - 1]));
        }
        assert(rest.push(list.last()) =~= list);
    }
    assert(distinct_paths(list) =~= list);
}

// ---------------------------------------------------------------------------
// Names of copies
// ---------------------------------------------------------------------------

/// The name of the copy of a file at the given attempt: its own name at the first, then with
/// the number of the attempt behind the stem.
pub open spec fn copy_name(file_name: Seq<char>, attempt: nat) -> Seq<char> {
    let stem = paths::stem_of_name(file_name);
    let numbered = (if stem.len() == 0 {
        "track"@
    } else {
        stem
    }) + " ("@ + text::decimal(attempt) + ")"@;
    if attempt == 1 {
        file_name
    } else {
        match paths::extension_of_name(file_name) {
            Some(extension) => if extension.len() > 0 {
                numbered + "."@ + extension
            } else {
                numbered
            },
            None => numbered,
        }
    }
}

/// The path at which the copy of a file is tried, by the number of the attempt; none where the
/// source has no file name.
pub fn copy_candidate(destination: &str, source: &str, attempt: usize) -> (candidate: Option<
    String,
>)
    ensures
        paths::text_of(candidate) == match paths::file_name_of(source@) {
            Some(name) => Some(
                paths::joined_path(destination@, copy_name(name, attempt as nat)),
            ),
            None => None,
        },
{
    let file_name = match paths::file_name(source) {
        Some(file_name) => file_name,
        None => return None,
    };
    if attempt == 1 {
        return Some(paths::join_path(destination, file_name.as_str()));
    }
    let stem = paths::stem(file_name.as_str());
    let mut name = if stem.as_str().is_empty() {
        "track".to_owned()
    } else {
        stem
    };
    name.append(" (");
    name.append(text::decimal_text(attempt as u64).as_str());
    name.append(")");
    if let Some(extension) = paths::extension(file_name.as_str()) {
        if !extension.as_str().is_empty() {
            name.append(".");
            name.append(extension.as_str());
        }
    }
    Some(paths::join_path(destination, name.as_str()))
}

// ---------------------------------------------------------------------------
// Reporting errors
// ---------------------------------------------------------------------------

/// The first three errors, and how many more there are; none where there is no error.
pub open spec fn errors_text(prefix: Seq<char>, errors: Seq<Seq<char>>) -> Option<Seq<char>> {
    let details = prefix + ": "@ + text::joined(paths::first_entries(errors, 3), " | "@);
    if errors.len() == 0 {
        None
    } else if errors.len() <= 3 {
        Some(details)
    } else {
        Some(details + " | and "@ + text::decimal((errors.len() - 3) as nat) + " more error(s)"@)
    }
}

/// The first three errors, and how many more there are; none where there is no error.
pub fn operation_error_message(prefix: &str, errors: &Vec<String>) -> (message: Option<String>)
    ensures
        paths::text_of(message) == errors_text(prefix@, text::texts(errors@)),
{
    if errors.len() == 0 {
        return None;
    }
    let ghost all = text::texts(errors@);
    let mut first: Vec<String> = Vec::new();
    let mut index: usize = 0;
    assert(text::texts(first@) =~= all.take(0));
    while index < errors.len() && index < 3
        invariant
            index <= errors@.len(),
            index <= 3,
            all == text::texts(errors@),
            text::texts(first@) == all.take(index as int),
        decreases errors@.len() - index,
    {
        let ghost before = first@;
        first.push(errors[index].clone());
        assert(text::texts(first@) =~= text::texts(before).push(all[index as int]));
        assert(all.take(index + 1) =~= all.take(index as int).push(all[index as int]));
        index += 1;
    }
    assert(text::texts(first@) =~= paths::first_entries(all, 3));
    let mut message = prefix.to_owned();
    message.append(": ");
    message.append(text::join(&first, " | ").as_str());
    if errors.len() > 3 {
        message.append(" | and ");
        message.append(text::decimal_text((errors.len() - 3) as u64).as_str());
        message.append(" more error(s)");
    }
    Some(message)
}

} // verus!
