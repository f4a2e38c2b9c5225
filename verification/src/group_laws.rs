//! What holds of the groups of files: which folders a group is named after, and which files
//! share a group.

use crate::grouping;
use crate::paths;
use crate::paths::PathClass;
use crate::text;
use crate::text_laws;
use vstd::prelude::*;
use vstd::string::*;

verus! {

/// The components that have a name: those that are not all white space.
pub open spec fn named(parts: Seq<(PathClass, Seq<char>)>) -> Seq<(PathClass, Seq<char>)> {
    parts.filter(
        |part: (PathClass, Seq<char>)|
            exists|i: int| 0 <= i < part.1.len() && !text::is_white_space(#[trigger] part.1[i]),
    )
}

/// The names of the components that have one are the names that are not blank.
proof fn names_of_named(parts: Seq<(PathClass, Seq<char>)>)
    ensures
        paths::named_parts(parts) == named(parts).map_values(
            |part: (PathClass, Seq<char>)| part.1,
        ),
    decreases parts.len(),
{
    let name_of = |part: (PathClass, Seq<char>)| part.1;
    let has_name = |part: (PathClass, Seq<char>)|
        exists|i: int| 0 <= i < part.1.len() && !text::is_white_space(#[trigger] part.1[i]);
    let keep = |name: Seq<char>| !text::is_blank_text(name);
    reveal(Seq::filter);
    if parts.len() == 0 {
        assert(parts.map_values(name_of) =~= Seq::empty());
        assert(paths::named_parts(parts) =~= named(parts).map_values(name_of));
    } else {
        let rest = parts.drop_last();
        names_of_named(rest);
        text_laws::blank_is_white(parts.last().1);
        assert(parts.map_values(name_of).drop_last() =~= rest.map_values(name_of));
        assert(parts.map_values(name_of).last() == parts.last().1);
        assert(keep(parts.last().1) == has_name(parts.last()));
        assert(paths::named_parts(parts) =~= named(parts).map_values(name_of));
    }
}

/// The names of the folders from which a group is made, for a file below the root.
proof fn folders_of_group(
    path: Seq<char>,
    root: Seq<char>,
    between: Seq<(PathClass, Seq<char>)>,
    file: Seq<char>,
    depth: nat,
)
    requires
        paths::path_components(path) == paths::path_components(root) + between + seq![
            (PathClass::Normal, file),
        ],
        paths::path_prefix(path) == paths::path_prefix(root),
    ensures
        ({
            let names = named(between).map_values(|part: (PathClass, Seq<char>)| part.1);
            paths::folders_below(path, root, depth) == if names.len() <= depth {
                names
            } else {
                names.take(depth as int)
            }
        }),
{
    let parts = paths::path_components(path);
    let base = paths::path_components(root);
    let relative = parts.skip(base.len() as int);
    assert(relative =~= between + seq![(PathClass::Normal, file)]);
    assert(relative.drop_last() =~= between);
    assert(parts.take(base.len() as int) =~= base);
    let longer = paths::compared_parts(path);
    let shorter = paths::compared_parts(root);
    assert(longer.take(shorter.len() as int) =~= shorter) by {
        if base.len() > 0 {
            assert(parts[0] == base[0]);
            assert(parts.drop_first().take(base.len() - 1) =~= base.drop_first());
        }
    }
    names_of_named(between);
}

/// The group of a file below the root is made of the named folders between them: of the first
/// one where the depth is one; each further level adds the next folder behind " / "; and levels
/// beyond the last folder add nothing. Without named folders between them the root does not
/// matter, and at depth zero there is one group for all.
pub proof fn group_is_made_of_folders(
    path: Seq<char>,
    root: Seq<char>,
    between: Seq<(PathClass, Seq<char>)>,
    file: Seq<char>,
    depth: nat,
)
    requires
        paths::path_components(path) == paths::path_components(root) + between + seq![
            (PathClass::Normal, file),
        ],
        paths::path_prefix(path) == paths::path_prefix(root),
    ensures
        paths::folder_group(path, Some(root), 0) == "Root"@,
        named(between).len() > 0 ==> paths::folder_group(path, Some(root), 1) == named(
            between,
        )[0].1,
        1 <= depth < named(between).len() ==> paths::folder_group(path, Some(root), depth + 1)
            == paths::folder_group(path, Some(root), depth) + " / "@ + named(
            between,
        )[depth as int].1,
        1 <= named(between).len() <= depth ==> paths::folder_group(path, Some(root), depth)
            == paths::folder_group(path, Some(root), named(between).len()),
        named(between).len() == 0 ==> paths::folder_group(path, Some(root), depth)
            == paths::folder_group(path, None, depth),
{
    let name_of = |part: (PathClass, Seq<char>)| part.1;
    let names = named(between).map_values(name_of);
    folders_of_group(path, root, between, file, depth);
    folders_of_group(path, root, between, file, depth + 1);
    folders_of_group(path, root, between, file, 1);
    folders_of_group(path, root, between, file, names.len());
    if names.len() > 0 {
        if names.len() > 1 {
            assert(names.take(1) =~= seq![names[0]]);
        }
        assert(paths::folders_below(path, root, 1) =~= seq![names[0]]);
    }
    if 1 <= depth < names.len() {
        assert(names.take(depth as int + 1) =~= names.take(depth as int).push(names[depth as int]));
        assert(names.take(names.len() as int) =~= names);
        text_laws::joining_appends(names.take(depth as int), names[depth as int], " / "@);
    }
}

/// Files whose first folders below the root agree, as many as the depth, are in one group.
pub proof fn files_of_same_folders_share_group(
    path: Seq<char>,
    between: Seq<(PathClass, Seq<char>)>,
    file: Seq<char>,
    other_path: Seq<char>,
    other_between: Seq<(PathClass, Seq<char>)>,
    other_file: Seq<char>,
    root: Seq<char>,
    depth: nat,
)
    requires
        paths::path_components(path) == paths::path_components(root) + between + seq![
            (PathClass::Normal, file),
        ],
        paths::path_components(other_path) == paths::path_components(root) + other_between + seq![
            (PathClass::Normal, other_file),
        ],
        paths::path_prefix(path) == paths::path_prefix(root),
        paths::path_prefix(other_path) == paths::path_prefix(root),
        named(between).len() > 0,
        named(between).len() >= depth <==> named(other_between).len() >= depth,
        named(between).len() < depth ==> named(other_between).len() == named(between).len(),
        forall|i: int|
            0 <= i < depth && i < named(between).len() ==> (#[trigger] named(between)[i]).1
                == named(other_between)[i].1,
    ensures
        paths::folder_group(path, Some(root), depth) == paths::folder_group(
            other_path,
            Some(root),
            depth,
        ),
{
    folders_of_group(path, root, between, file, depth);
    folders_of_group(other_path, root, other_between, other_file, depth);
    assert(paths::folders_below(path, root, depth) =~= paths::folders_below(
        other_path,
        root,
        depth,
    ));
}

/// Files that have folders below the root are in different groups where these differ within the
/// depth, and no folder has a slash in its name: where one file has a folder at a level and the
/// other has none there, or another one.
pub proof fn files_of_other_folders_are_apart(
    path: Seq<char>,
    between: Seq<(PathClass, Seq<char>)>,
    file: Seq<char>,
    other_path: Seq<char>,
    other_between: Seq<(PathClass, Seq<char>)>,
    other_file: Seq<char>,
    root: Seq<char>,
    depth: nat,
    level: int,
)
    requires
        paths::path_components(path) == paths::path_components(root) + between + seq![
            (PathClass::Normal, file),
        ],
        paths::path_components(other_path) == paths::path_components(root) + other_between + seq![
            (PathClass::Normal, other_file),
        ],
        paths::path_prefix(path) == paths::path_prefix(root),
        paths::path_prefix(other_path) == paths::path_prefix(root),
        forall|i: int| 0 <= i < between.len() ==> !(#[trigger] between[i]).1.contains('/'),
        forall|i: int|
            0 <= i < other_between.len() ==> !(#[trigger] other_between[i]).1.contains('/'),
        named(between).len() > 0,
        named(other_between).len() > 0,
        0 <= level < depth,
        level < named(between).len(),
        level < named(other_between).len() ==> named(between)[level].1 != named(
            other_between,
        )[level].1,
    ensures
        paths::folder_group(path, Some(root), depth) != paths::folder_group(
            other_path,
            Some(root),
            depth,
        ),
{
    let left = paths::folders_below(path, root, depth);
    let right = paths::folders_below(other_path, root, depth);
    folders_of_group(path, root, between, file, depth);
    folders_of_group(other_path, root, other_between, other_file, depth);
    let has_name = |part: (PathClass, Seq<char>)|
        exists|i: int| 0 <= i < part.1.len() && !text::is_white_space(#[trigger] part.1[i]);
    grouping::filter_entries(between, has_name);
    grouping::filter_entries(other_between, has_name);
    assert forall|i: int| 0 <= i < left.len() implies !(#[trigger] left[i]).contains('/') by {
        assert(left[i] == named(between)[i].1);
        assert(between.contains(named(between)[i]));
        let k = between.index_of(named(between)[i]);
        assert(!between[k].1.contains('/'));
    }
    assert forall|i: int| 0 <= i < right.len() implies !(#[trigger] right[i]).contains('/') by {
        assert(right[i] == named(other_between)[i].1);
        assert(other_between.contains(named(other_between)[i]));
        let k = other_between.index_of(named(other_between)[i]);
        assert(!other_between[k].1.contains('/'));
    }
    reveal_strlit(" / ");
    assert(" / "@ =~= seq![' ', '/', ' ']);
    if text::joined(left, " / "@) == text::joined(right, " / "@) {
        text_laws::joined_parts_stay_apart(left, right, '/', ' ');
        assert(left[level] == named(between)[level].1);
        assert(right[level] == named(other_between)[level].1);
    }
}

/// Without a root, or with one that the file does not lie below, the group of a file is the name
/// of the folder that holds it.
pub proof fn group_is_the_folder(
    path: Seq<char>,
    front: Seq<(PathClass, Seq<char>)>,
    folder: Seq<char>,
    file: Seq<char>,
    root: Seq<char>,
    depth: nat,
)
    requires
        paths::path_components(path) == front + seq![
            (PathClass::Normal, folder),
            (PathClass::Normal, file),
        ],
        exists|i: int| 0 <= i < folder.len() && !text::is_white_space(#[trigger] folder[i]),
        depth > 0,
        paths::path_prefix(path) is None,
        paths::path_prefix(root) is None,
        exists|i: int|
            0 <= i < paths::path_components(root).len() && (i >= paths::path_components(path).len()
                || #[trigger] paths::path_components(root)[i] != paths::path_components(path)[i]),
    ensures
        paths::folder_group(path, None, depth) == folder,
        paths::folder_group(path, Some(root), depth) == folder,
{
    let parts = paths::path_components(path);
    let base = paths::path_components(root);
    text_laws::blank_is_white(folder);
    assert(parts.drop_last().last() == (PathClass::Normal, folder));
    let i = choose|i: int|
        0 <= i < base.len() && (i >= parts.len() || #[trigger] base[i] != parts[i]);
    if paths::starts_with_parts(parts, base) {
        assert(parts.take(base.len() as int)[i] == base[i]);
    }
}

} // verus!
