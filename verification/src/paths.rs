//! File paths: comparison keys, components, file names and folder groups.
//!
//! A path is a string in the path syntax of the platform that the library is built for.
//! Its model is the sequence of its characters, or the sequence of its components.

use crate::grouping;
use crate::text;
use std::path::{Component, Path, Prefix};
use vstd::prelude::*;
use vstd::string::*;

verus! {

// ---------------------------------------------------------------------------
// Components
// ---------------------------------------------------------------------------

/// The kind of a path component, in the order in which components sort.
#[derive(Clone, Copy, Debug, PartialEq, Eq, Structural)]
pub enum PathClass {
    Prefix,
    RootDir,
    CurDir,
    ParentDir,
    Normal,
}

/// One component of a path.
pub struct PathPart {
    pub class: PathClass,
    pub name: String,
}

impl View for PathPart {
    type V = (PathClass, Seq<char>);

    open spec fn view(&self) -> (PathClass, Seq<char>) {
        (self.class, self.name@)
    }
}

/// The models of a list of components.
pub open spec fn part_views(parts: Seq<PathPart>) -> Seq<(PathClass, Seq<char>)> {
    parts.map_values(|part: PathPart| part@)
}

/// The components of a path: the kind and the text of each.
pub uninterp spec fn path_components(path: Seq<char>) -> Seq<(PathClass, Seq<char>)>;

/// `Path::components` splits a path into its components by the path syntax of the platform
/// that the library is built for; on one platform the components depend on the path alone.
/// The text of a component is that of `Component::as_os_str`.
#[verifier::external_body]
pub(crate) fn split_path(path: &str) -> (parts: Vec<PathPart>)
    ensures
        part_views(parts@) == path_components(path@),
{
    Path::new(path).components().map(|component| PathPart {
        class: match component {
            Component::Prefix(_) => PathClass::Prefix,
            Component::RootDir => PathClass::RootDir,
            Component::CurDir => PathClass::CurDir,
            Component::ParentDir => PathClass::ParentDir,
            Component::Normal(_) => PathClass::Normal,
        },
        name: component.as_os_str().to_string_lossy().into_owned(),
    }).collect()
}

/// What a prefix of a path stands for, in the order in which prefixes sort. Only paths of
/// Windows have prefixes.
pub enum PathPrefix {
    Verbatim(String),
    VerbatimUnc(String, String),
    VerbatimDisk(char),
    Device(String),
    Unc(String, String),
    Disk(char),
}

impl View for PathPrefix {
    type V = (char, Seq<char>, Seq<char>);

    /// The place of the kind in the order of the kinds, and the names that the prefix holds.
    open spec fn view(&self) -> (char, Seq<char>, Seq<char>) {
        match *self {
            PathPrefix::Verbatim(name) => ('0', name@, Seq::empty()),
            PathPrefix::VerbatimUnc(server, share) => ('1', server@, share@),
            PathPrefix::VerbatimDisk(drive) => ('2', seq![drive], Seq::empty()),
            PathPrefix::Device(name) => ('3', name@, Seq::empty()),
            PathPrefix::Unc(server, share) => ('4', server@, share@),
            PathPrefix::Disk(drive) => ('5', seq![drive], Seq::empty()),
        }
    }
}

/// The model of a prefix, where there is one.
pub open spec fn prefix_view(prefix: Option<PathPrefix>) -> Option<(char, Seq<char>, Seq<char>)> {
    match prefix {
        Some(prefix) => Some(prefix@),
        None => None,
    }
}

/// What the prefix of a path stands for, where the path begins with one.
pub uninterp spec fn path_prefix(path: Seq<char>) -> Option<(char, Seq<char>, Seq<char>)>;

/// `PrefixComponent::kind` tells what the prefix that a path begins with stands for; on one
/// platform it depends on the path alone.
#[verifier::external_body]
pub(crate) fn prefix_of(path: &str) -> (prefix: Option<PathPrefix>)
    ensures
        prefix_view(prefix) == path_prefix(path@),
{
    match Path::new(path).components().next() {
        Some(Component::Prefix(prefix)) => Some(match prefix.kind() {
            Prefix::Verbatim(name) => PathPrefix::Verbatim(name.to_string_lossy().into()),
            Prefix::VerbatimUNC(server, share) => {
                PathPrefix::VerbatimUnc(server.to_string_lossy().into(), share.to_string_lossy().into())
            },
            Prefix::VerbatimDisk(drive) => PathPrefix::VerbatimDisk(drive.into()),
            Prefix::DeviceNS(name) => PathPrefix::Device(name.to_string_lossy().into()),
            Prefix::UNC(server, share) => {
                PathPrefix::Unc(server.to_string_lossy().into(), share.to_string_lossy().into())
            },
            Prefix::Disk(drive) => PathPrefix::Disk(drive.into()),
        }),
        _ => None,
    }
}

/// The components of a path as they are compared. A prefix is compared by what it stands for,
/// however it is written: first by its kind and its first name, then by its second name.
pub open spec fn compared_parts(path: Seq<char>) -> Seq<(PathClass, Seq<char>)> {
    let parts = path_components(path);
    match path_prefix(path) {
        Some((kind, first, second)) => if parts.len() > 0 && parts[0].0 == PathClass::Prefix {
            seq![(PathClass::Prefix, seq![kind] + first), (PathClass::Prefix, second)]
                + parts.drop_first()
        } else {
            parts
        },
        None => parts,
    }
}

/// The two texts by which a prefix is compared.
fn prefix_texts(prefix: PathPrefix) -> (texts: (String, String))
    ensures
        texts.0@ == seq![prefix@.0] + prefix@.1,
        texts.1@ == prefix@.2,
{
    let mut first = String::new();
    let mut second = String::new();
    match prefix {
        PathPrefix::Verbatim(name) => {
            first.push('0');
            first.append(name.as_str());
        },
        PathPrefix::VerbatimUnc(server, share) => {
            first.push('1');
            first.append(server.as_str());
            second.append(share.as_str());
        },
        PathPrefix::VerbatimDisk(drive) => {
            first.push('2');
            first.push(drive);
        },
        PathPrefix::Device(name) => {
            first.push('3');
            first.append(name.as_str());
        },
        PathPrefix::Unc(server, share) => {
            first.push('4');
            first.append(server.as_str());
            second.append(share.as_str());
        },
        PathPrefix::Disk(drive) => {
            first.push('5');
            first.push(drive);
        },
    }
    assert(first@ =~= seq![prefix@.0] + prefix@.1);
    assert(second@ =~= prefix@.2);
    (first, second)
}

/// The components of a path as they are compared.
pub(crate) fn compared_path(path: &str) -> (parts: Vec<PathPart>)
    ensures
        part_views(parts@) == compared_parts(path@),
{
    let mut parts: Vec<PathPart> = split_path(path);
    let ghost all = part_views(parts@);
    if parts.len() == 0 || parts[0].class != PathClass::Prefix {
        assert(all.len() > 0 ==> all[0] == parts@[0]@);
        return parts;
    }
    assert(all[0] == parts@[0]@);
    if let Some(prefix) = prefix_of(path) {
        let (first, second) = prefix_texts(prefix);
        let _ = parts.remove(0);
        parts.insert(0, PathPart { class: PathClass::Prefix, name: second });
        parts.insert(0, PathPart { class: PathClass::Prefix, name: first });
        assert(part_views(parts@) =~= compared_parts(path@));
    }
    parts
}

/// Whether a path can be shortened by its last component: it is neither empty nor ends in a
/// root or a prefix.
pub open spec fn has_parent(parts: Seq<(PathClass, Seq<char>)>) -> bool {
    parts.len() > 0 && parts.last().0 != PathClass::RootDir && parts.last().0 != PathClass::Prefix
}

/// The final component, where it is a plain name.
pub open spec fn final_name(parts: Seq<(PathClass, Seq<char>)>) -> Option<Seq<char>> {
    if parts.len() > 0 && parts.last().0 == PathClass::Normal {
        Some(parts.last().1)
    } else {
        None
    }
}

/// Whether the path of `parts` starts with all of `base`.
pub open spec fn starts_with_parts(
    parts: Seq<(PathClass, Seq<char>)>,
    base: Seq<(PathClass, Seq<char>)>,
) -> bool {
    base.len() <= parts.len() && parts.take(base.len() as int) == base
}

/// Whether two components are the same.
fn same_part(left: &PathPart, right: &PathPart) -> (same: bool)
    ensures
        same == (left@ == right@),
{
    left.class == right.class && left.name == right.name
}

/// Whether the path of `parts` starts with all of `base`.
fn parts_start_with(parts: &Vec<PathPart>, base: &Vec<PathPart>) -> (found: bool)
    ensures
        found == starts_with_parts(part_views(parts@), part_views(base@)),
{
    if base.len() > parts.len() {
        return false;
    }
    let mut index: usize = 0;
    while index < base.len()
        invariant
            index <= base@.len() <= parts@.len(),
            part_views(parts@).take(index as int) == part_views(base@).take(index as int),
        decreases base@.len() - index,
    {
        if !same_part(&parts[index], &base[index]) {
            assert(part_views(parts@).take(base@.len() as int)[index as int] != part_views(
                base@,
            )[index as int]);
            return false;
        }
        assert(part_views(parts@).take(index + 1) =~= part_views(parts@).take(index as int).push(
            parts@[index as int]@,
        ));
        assert(part_views(base@).take(index + 1) =~= part_views(base@).take(index as int).push(
            base@[index as int]@,
        ));
        index += 1;
    }
    assert(part_views(base@).take(base@.len() as int) =~= part_views(base@));
    true
}

/// Whether two paths have the same components.
pub fn same_components(left: &str, right: &str) -> (same: bool)
    ensures
        same == (compared_parts(left@) == compared_parts(right@)),
{
    let first: Vec<PathPart> = compared_path(left);
    let second: Vec<PathPart> = compared_path(right);
    assert(part_views(first@).take(first@.len() as int) =~= part_views(first@));
    first.len() == second.len() && parts_start_with(&first, &second)
}

// ---------------------------------------------------------------------------
// Comparison keys
// ---------------------------------------------------------------------------

/// Whether `character` separates folders.
pub open spec fn is_separator(character: char) -> bool {
    character == '\\' || character == '/'
}

/// The separators of a path, in order.
pub open spec fn separators(path: Seq<char>) -> Seq<char> {
    path.filter(|character: char| is_separator(character))
}

/// Texts with the same ASCII signs have the same separators.
proof fn separators_are_signs(left: Seq<char>, right: Seq<char>)
    requires
        text::ascii_signs(left) == text::ascii_signs(right),
    ensures
        separators(left) == separators(right),
{
    let sign = |character: char| text::is_ascii_sign(character);
    let separator = |character: char| is_separator(character);
    grouping::filter_twice(left, sign, separator, separator);
    grouping::filter_twice(right, sign, separator, separator);
}

/// The key by which paths are told apart: the path in lower case. It has the separators of the
/// path.
pub fn path_key(path: &str) -> (key: String)
    ensures
        key@ == text::lowercase(path@),
        separators(key@) == separators(path@),
{
    let key = path.to_lowercase();
    proof {
        separators_are_signs(key@, path@);
    }
    key
}

/// Whether two paths have the same key.
pub open spec fn same_key(left: Seq<char>, right: Seq<char>) -> bool {
    text::lowercase(left) == text::lowercase(right)
}

/// Whether two paths name the same file, whatever the case of their letters. Paths that do have
/// the same separators, in the same order.
pub fn same_path(left: &str, right: &str) -> (same: bool)
    ensures
        same == same_key(left@, right@),
        same ==> separators(left@) == separators(right@),
{
    path_key(left) == path_key(right)
}

/// Naming the same file is an equivalence of paths.
pub proof fn same_key_equivalence(first: Seq<char>, second: Seq<char>, third: Seq<char>)
    ensures
        same_key(first, first),
        same_key(first, second) ==> same_key(second, first),
        same_key(first, second) && same_key(second, third) ==> same_key(first, third),
{
}

/// The case of ASCII letters does not matter: paths that differ in nothing else name the same
/// file.
pub proof fn ascii_case_does_not_matter(left: Seq<char>, right: Seq<char>)
    requires
        text::same_ignoring_ascii_case(left, right),
    ensures
        same_key(left, right),
{
    text::lowercase_ignores_ascii_case(left, right);
}

/// Of paths in ASCII only the case of the letters does not matter: two that name the same file
/// differ in nothing else.
pub proof fn only_ascii_case_does_not_matter(left: Seq<char>, right: Seq<char>)
    requires
        text::is_ascii_text(left),
        text::is_ascii_text(right),
    ensures
        same_key(left, right) == text::same_ignoring_ascii_case(left, right),
{
    text::lowercase_of_ascii(left);
    text::lowercase_of_ascii(right);
    let first = text::lowercase(left);
    let second = text::lowercase(right);
    if text::same_ignoring_ascii_case(left, right) {
        assert(first =~= second);
    }
    if first == second {
        assert forall|i: int| 0 <= i < left.len() implies text::ascii_lower(#[trigger] left[i])
            == text::ascii_lower(right[i]) by {
            assert(text::lowercase(left)[i] == text::lowercase(right)[i]);
        }
    }
}

/// Of paths in ASCII the two separators are told apart: paths that name the same file have the
/// same separators in the same places.
pub proof fn separators_stay_apart(left: Seq<char>, right: Seq<char>)
    requires
        text::is_ascii_text(left),
        text::is_ascii_text(right),
        same_key(left, right),
    ensures
        left.len() == right.len(),
        forall|i: int|
            #![trigger left[i]]
            0 <= i < left.len() ==> (left[i] == '/') == (right[i] == '/') && (left[i] == '\\') == (
            right[i] == '\\'),
{
    only_ascii_case_does_not_matter(left, right);
}

/// Whether the key `path` is the key `root` or lies below it.
pub open spec fn key_is_within(path: Seq<char>, root: Seq<char>) -> bool {
    path == root || text::has_prefix(path, root) && (root.len() > 0 && is_separator(root.last())
        || path.len() > root.len() && is_separator(path[root.len() as int]))
}

/// Whether `path` is `root` or lies below it; folder names count as a whole.
pub open spec fn is_within(path: Seq<char>, root: Seq<char>) -> bool {
    key_is_within(text::lowercase(path), text::lowercase(root))
}

/// Whether `path` is `root` or lies below it.
pub fn path_is_same_or_descendant(path: &str, root: &str) -> (within: bool)
    ensures
        within == is_within(path@, root@),
{
    let key = path_key(path);
    let root_key = path_key(root);
    if key == root_key {
        return true;
    }
    if !text::starts_with(key.as_str(), root_key.as_str()) {
        return false;
    }
    let length: usize = root_key.as_str().unicode_len();
    if length > 0 {
        let last: char = root_key.as_str().get_char(length - 1);
        if last == '\\' || last == '/' {
            return true;
        }
    }
    if key.as_str().unicode_len() <= length {
        return false;
    }
    let next: char = key.as_str().get_char(length);
    next == '\\' || next == '/'
}

/// A path within `root` starts with `root`, and what lies within a path within `root` lies
/// within `root`.
pub proof fn within_is_transitive(inner: Seq<char>, middle: Seq<char>, root: Seq<char>)
    requires
        is_within(inner, middle),
        is_within(middle, root),
    ensures
        is_within(inner, root),
        text::has_prefix(text::lowercase(inner), text::lowercase(root)),
{
    let a = text::lowercase(inner);
    let b = text::lowercase(middle);
    let c = text::lowercase(root);
    assert(b.take(b.len() as int) =~= b);
    assert(c.take(c.len() as int) =~= c);
    assert(a.take(c.len() as int) =~= a.take(b.len() as int).take(c.len() as int));
    if a != b && b != c {
        assert(a[c.len() as int] == b[c.len() as int] || b.len() == c.len()) by {
            if b.len() > c.len() {
                assert(a.take(b.len() as int)[c.len() as int] == b[c.len() as int]);
            }
        }
        if b.len() == c.len() {
            assert(b.take(c.len() as int) =~= b);
        }
    }
}

// ---------------------------------------------------------------------------
// File names
// ---------------------------------------------------------------------------

/// The name of the file that a path ends in.
pub open spec fn file_name_of(path: Seq<char>) -> Option<Seq<char>> {
    final_name(path_components(path))
}

/// The index of the last dot of `name`, or -1.
pub open spec fn last_dot(name: Seq<char>) -> int
    decreases name.len(),
{
    if name.len() == 0 {
        -1
    } else if name.last() == '.' {
        name.len() - 1
    } else {
        last_dot(name.drop_last())
    }
}

/// The part of a file name before its last dot; the whole name where it has no dot but at
/// its start.
pub open spec fn stem_of_name(name: Seq<char>) -> Seq<char> {
    if last_dot(name) <= 0 {
        name
    } else {
        name.take(last_dot(name))
    }
}

/// The part of a file name after its last dot, where it has a dot that is not at its start.
pub open spec fn extension_of_name(name: Seq<char>) -> Option<Seq<char>> {
    if last_dot(name) <= 0 {
        None
    } else {
        Some(name.skip(last_dot(name) + 1))
    }
}

/// The text that an optional string holds.
pub open spec fn text_of(value: Option<String>) -> Option<Seq<char>> {
    match value {
        Some(s) => Some(s@),
        None => None,
    }
}

/// The name of the file that a path ends in.
pub fn file_name(path: &str) -> (name: Option<String>)
    ensures
        text_of(name) == file_name_of(path@),
{
    let parts: Vec<PathPart> = split_path(path);
    if parts.len() == 0 {
        return None;
    }
    let last: usize = parts.len() - 1;
    assert(part_views(parts@).last() == parts@[last as int]@);
    if parts[last].class == PathClass::Normal {
        Some(parts[last].name.clone())
    } else {
        None
    }
}

/// The number of characters of `name` up to and with its last dot; 0 where it has none.
fn dot_end(name: &Vec<char>) -> (end: usize)
    ensures
        end == last_dot(name@) + 1,
        end <= name@.len(),
{
    let mut end: usize = name.len();
    assert(name@.take(name@.len() as int) =~= name@);
    while end > 0 && name[end - 1] != '.'
        invariant
            end <= name@.len(),
            last_dot(name@) == last_dot(name@.take(end as int)),
        decreases end,
    {
        assert(name@.take(end as int).drop_last() =~= name@.take(end - 1));
        end -= 1;
    }
    end
}

/// The part of a file name before its last dot.
pub fn stem(name: &str) -> (stem: String)
    ensures
        stem@ == stem_of_name(name@),
{
    let all: Vec<char> = text::characters(name);
    let end: usize = dot_end(&all);
    if end <= 1 {
        name.to_owned()
    } else {
        text::text_between(&all, 0, end - 1)
    }
}

/// The part of a file name after its last dot.
pub fn extension(name: &str) -> (extension: Option<String>)
    ensures
        text_of(extension) == extension_of_name(name@),
{
    let all: Vec<char> = text::characters(name);
    let end: usize = dot_end(&all);
    if end <= 1 {
        None
    } else {
        assert(all@.subrange(end as int, all@.len() as int) =~= all@.skip(end as int));
        Some(text::text_between(&all, end, all.len()))
    }
}

/// The name under which a path is shown: its file name, or the path itself.
pub open spec fn display_name(path: Seq<char>) -> Seq<char> {
    match file_name_of(path) {
        Some(name) => name,
        None => path,
    }
}

/// The name under which a path is shown.
pub fn display_file_name(path: &str) -> (name: String)
    ensures
        name@ == display_name(path@),
{
    match file_name(path) {
        Some(name) => name,
        None => path.to_owned(),
    }
}

/// Whether `extension` is that of an audio file that can be played.
pub open spec fn is_audio_extension(extension: Seq<char>) -> bool {
    extension == "mp3"@ || extension == "wav"@ || extension == "flac"@ || extension == "ogg"@
        || extension == "opus"@ || extension == "m4a"@ || extension == "mp4"@ || extension
        == "aac"@ || extension == "aiff"@ || extension == "aif"@ || extension == "ape"@
        || extension == "wv"@
}

/// Whether a path names an audio file that can be played.
pub open spec fn is_audio_path(path: Seq<char>) -> bool {
    match file_name_of(path) {
        Some(name) => match extension_of_name(name) {
            Some(extension) => is_audio_extension(text::lowercase(extension)),
            None => false,
        },
        None => false,
    }
}

/// Whether a path names an audio file that can be played, by its extension.
pub fn is_supported_audio_file(path: &str) -> (supported: bool)
    ensures
        supported == is_audio_path(path@),
{
    let name = match file_name(path) {
        Some(name) => name,
        None => return false,
    };
    let found = match extension(name.as_str()) {
        Some(found) => found,
        None => return false,
    };
    let lower = found.as_str().to_lowercase();
    let lower = lower.as_str();
    text::same_text(lower, "mp3") || text::same_text(lower, "wav") || text::same_text(
        lower,
        "flac",
    ) || text::same_text(lower, "ogg") || text::same_text(lower, "opus") || text::same_text(
        lower,
        "m4a",
    ) || text::same_text(lower, "mp4") || text::same_text(lower, "aac") || text::same_text(
        lower,
        "aiff",
    ) || text::same_text(lower, "aif") || text::same_text(lower, "ape") || text::same_text(
        lower,
        "wv",
    )
}

// ---------------------------------------------------------------------------
// Folder groups
// ---------------------------------------------------------------------------

/// The texts of the components that are not blank.
pub open spec fn named_parts(parts: Seq<(PathClass, Seq<char>)>) -> Seq<Seq<char>> {
    parts.map_values(|part: (PathClass, Seq<char>)| part.1).filter(
        |name: Seq<char>| !text::is_blank_text(name),
    )
}

/// At most the first `count` entries.
pub open spec fn first_entries<T>(entries: Seq<T>, count: nat) -> Seq<T> {
    if entries.len() <= count {
        entries
    } else {
        entries.take(count as int)
    }
}

/// The names of the folders between `root` and the file, the first `depth` of them.
pub open spec fn folders_below(
    path: Seq<char>,
    root: Seq<char>,
    depth: nat,
) -> Seq<Seq<char>> {
    let parts = path_components(path);
    let base = path_components(root);
    let relative = parts.skip(base.len() as int);
    if starts_with_parts(compared_parts(path), compared_parts(root)) && base.len() < parts.len()
        && has_parent(relative) {
        first_entries(named_parts(relative.drop_last()), depth)
    } else {
        Seq::empty()
    }
}

/// The name of the folder that holds the file, or `Root`.
pub open spec fn parent_folder_name(path: Seq<(PathClass, Seq<char>)>) -> Seq<char> {
    if has_parent(path) {
        match final_name(path.drop_last()) {
            Some(name) => if text::is_blank_text(name) {
                "Root"@
            } else {
                name
            },
            None => "Root"@,
        }
    } else {
        "Root"@
    }
}

/// The group of a file: the folders below `root` that lead to it, at most `depth` of them,
/// or else the folder that holds it.
pub open spec fn folder_group(path: Seq<char>, root: Option<Seq<char>>, depth: nat) -> Seq<char> {
    let folders = match root {
        Some(root) => folders_below(path, root, depth),
        None => Seq::empty(),
    };
    if depth == 0 {
        "Root"@
    } else if folders.len() > 0 {
        text::joined(folders, " / "@)
    } else {
        parent_folder_name(path_components(path))
    }
}

/// The texts of the first `depth` components from `from` up to `to` that are not blank.
fn folder_names(parts: &Vec<PathPart>, from: usize, to: usize, depth: usize) -> (names: Vec<String>)
    requires
        from <= to <= parts@.len(),
    ensures
        text::texts(names@) == first_entries(
            named_parts(part_views(parts@).subrange(from as int, to as int)),
            depth as nat,
        ),
{
    let mut names: Vec<String> = Vec::new();
    let mut index: usize = from;
    let ghost keep = |name: Seq<char>| !text::is_blank_text(name);
    let ghost all = part_views(parts@);
    let ghost names_of = |part: (PathClass, Seq<char>)| part.1;
    assert(named_parts(all.subrange(from as int, from as int)) =~= Seq::empty()) by {
        reveal(Seq::filter);
    }
    assert(text::texts(names@) =~= Seq::empty());
    while index < to
        invariant
            from <= index <= to <= parts@.len(),
            all == part_views(parts@),
            keep == (|name: Seq<char>| !text::is_blank_text(name)),
            names_of == (|part: (PathClass, Seq<char>)| part.1),
            text::texts(names@) == first_entries(
                named_parts(all.subrange(from as int, index as int)),
                depth as nat,
            ),
        decreases to - index,
    {
        let ghost seen = all.subrange(from as int, index as int);
        let ghost next = all.subrange(from as int, index + 1);
        proof {
            let part = parts@[index as int]@;
            assert(next =~= seen.push(part));
            assert(next.map_values(names_of) =~= seen.map_values(names_of).push(part.1));
            assert(next.map_values(names_of).drop_last() =~= seen.map_values(names_of));
            reveal(Seq::filter);
        }
        if names.len() < depth && !text::is_blank(parts[index].name.as_str()) {
            assert(text::texts(names@).len() == names@.len());
            assert(text::texts(names@) == named_parts(seen));
            let ghost before = names@;
            names.push(parts[index].name.clone());
            assert(text::texts(names@) =~= text::texts(before).push(parts@[index as int].name@));
            assert(text::texts(names@) =~= named_parts(seen).push(parts@[index as int].name@));
        }
        assert(text::texts(names@) =~= first_entries(named_parts(next), depth as nat));
        index += 1;
    }
    names
}

/// The group of a file.
pub fn folder_group_for_path(path: &str, root: Option<&str>, folder_depth: usize) -> (group: String)
    ensures
        group@ == folder_group(
            path@,
            match root {
                Some(root) => Some(root@),
                None => None,
            },
            folder_depth as nat,
        ),
{
    if folder_depth == 0 {
        return "Root".to_owned();
    }
    let parts: Vec<PathPart> = split_path(path);
    let ghost all = part_views(parts@);
    if let Some(root) = root {
        let base: Vec<PathPart> = split_path(root);
        let below = parts_start_with(&compared_path(path), &compared_path(root));
        if below && base.len() < parts.len() {
            let last: usize = parts.len() - 1;
            let ghost relative = all.skip(base@.len() as int);
            assert(relative.last() == parts@[last as int]@);
            if parts[last].class != PathClass::RootDir && parts[last].class != PathClass::Prefix {
                let names = folder_names(&parts, base.len(), last, folder_depth);
                assert(relative.drop_last() =~= all.subrange(base@.len() as int, last as int));
                assert(text::texts(names@).len() == names@.len());
                if names.len() > 0 {
                    return text::join(&names, " / ");
                }
            }
        }
    }
    if parts.len() == 0 {
        return "Root".to_owned();
    }
    let last: usize = parts.len() - 1;
    assert(all.last() == parts@[last as int]@);
    if parts[last].class == PathClass::RootDir || parts[last].class == PathClass::Prefix || last
        == 0 {
        return "Root".to_owned();
    }
    assert(all.drop_last().last() == parts@[last - 1]@);
    if parts[last - 1].class == PathClass::Normal && !text::is_blank(parts[last - 1].name.as_str()) {
        parts[last - 1].name.clone()
    } else {
        "Root".to_owned()
    }
}

// ---------------------------------------------------------------------------
// Neighbouring paths
// ---------------------------------------------------------------------------

/// The path without its final component.
pub uninterp spec fn parent_path(path: Seq<char>) -> Option<Seq<char>>;

/// `Path::parent` returns the path without its final component, and nothing where the path
/// ends in a root or a prefix or is empty; on one platform it depends on the path alone.
#[verifier::external_body]
pub(crate) fn parent_of(path: &str) -> (parent: Option<String>)
    ensures
        text_of(parent) == parent_path(path@),
{
    Path::new(path).parent().map(|parent| parent.to_string_lossy().into_owned())
}

/// The path of `name` in the folder `folder`.
pub uninterp spec fn joined_path(folder: Seq<char>, name: Seq<char>) -> Seq<char>;

/// `Path::join` puts a path behind another; on one platform the result depends on the two
/// paths alone.
#[verifier::external_body]
pub(crate) fn join_path(folder: &str, name: &str) -> (path: String)
    ensures
        path@ == joined_path(folder@, name@),
{
    Path::new(folder).join(name).to_string_lossy().into_owned()
}

/// The path of `name` in the folder that holds a file.
pub open spec fn beside(file: Option<Seq<char>>, name: Seq<char>) -> Option<Seq<char>> {
    match file {
        Some(file) => match parent_path(file) {
            Some(folder) => Some(joined_path(folder, name)),
            None => None,
        },
        None => None,
    }
}

/// The path of `name` in the folder that holds the executable.
pub fn beside_executable(executable: Option<&str>, name: &str) -> (path: Option<String>)
    ensures
        text_of(path) == beside(
            match executable {
                Some(file) => Some(file@),
                None => None,
            },
            name@,
        ),
{
    match executable {
        Some(file) => match parent_of(file) {
            Some(folder) => Some(join_path(folder.as_str(), name)),
            None => None,
        },
        None => None,
    }
}

// ---------------------------------------------------------------------------
// Order of paths
// ---------------------------------------------------------------------------

/// The place of a kind of component in the order of components.
pub open spec fn class_rank(class: PathClass) -> int {
    match class {
        PathClass::Prefix => 0,
        PathClass::RootDir => 1,
        PathClass::CurDir => 2,
        PathClass::ParentDir => 3,
        PathClass::Normal => 4,
    }
}

/// Component `left` sorts before component `right`: by kind, then by text.
pub open spec fn part_before(left: (PathClass, Seq<char>), right: (PathClass, Seq<char>)) -> bool {
    class_rank(left.0) < class_rank(right.0) || left.0 == right.0 && text::text_before(
        left.1,
        right.1,
    )
}

/// Lexicographic order of paths by component: `left` comes before `right`.
pub open spec fn parts_before(
    left: Seq<(PathClass, Seq<char>)>,
    right: Seq<(PathClass, Seq<char>)>,
) -> bool
    decreases left.len(),
{
    if right.len() == 0 {
        false
    } else if left.len() == 0 {
        true
    } else if left[0] == right[0] {
        parts_before(left.drop_first(), right.drop_first())
    } else {
        part_before(left[0], right[0])
    }
}

/// Of two different paths one comes before the other, never both.
pub proof fn path_order_total(
    left: Seq<(PathClass, Seq<char>)>,
    right: Seq<(PathClass, Seq<char>)>,
)
    ensures
        parts_before(left, right) ==> !parts_before(right, left) && left != right,
        left != right ==> parts_before(left, right) || parts_before(right, left),
    decreases left.len(),
{
    if left.len() > 0 && right.len() > 0 {
        if left[0] == right[0] {
            path_order_total(left.drop_first(), right.drop_first());
            if left.drop_first() == right.drop_first() {
                assert(left =~= seq![left[0]] + left.drop_first());
                assert(right =~= seq![right[0]] + right.drop_first());
            }
        } else {
            text::text_order_total(left[0].1, right[0].1);
        }
    } else if left.len() == 0 && right.len() == 0 {
        assert(left =~= right);
    }
}

/// The order of paths is transitive.
pub proof fn path_order_transitive(
    first: Seq<(PathClass, Seq<char>)>,
    second: Seq<(PathClass, Seq<char>)>,
    third: Seq<(PathClass, Seq<char>)>,
)
    requires
        parts_before(first, second),
        parts_before(second, third),
    ensures
        parts_before(first, third),
    decreases first.len(),
{
    if first.len() > 0 {
        if first[0] == second[0] && second[0] == third[0] {
            path_order_transitive(first.drop_first(), second.drop_first(), third.drop_first());
        } else if first[0] != second[0] && second[0] != third[0] {
            if first[0].0 == second[0].0 && second[0].0 == third[0].0 {
                text::text_order_transitive(first[0].1, second[0].1, third[0].1);
                text::text_order_total(first[0].1, third[0].1);
            }
        }
    }
}

/// The place of a kind of component in the order of components.
fn rank(class: PathClass) -> (rank: u8)
    ensures
        rank == class_rank(class),
{
    match class {
        PathClass::Prefix => 0,
        PathClass::RootDir => 1,
        PathClass::CurDir => 2,
        PathClass::ParentDir => 3,
        PathClass::Normal => 4,
    }
}

/// Whether the path of `left` comes before that of `right`.
pub fn is_path_before(left: &Vec<PathPart>, right: &Vec<PathPart>) -> (before: bool)
    ensures
        before == parts_before(part_views(left@), part_views(right@)),
{
    let ghost first = part_views(left@);
    let ghost second = part_views(right@);
    let mut index: usize = 0;
    assert(first.skip(0) =~= first);
    assert(second.skip(0) =~= second);
    while index < left.len() && index < right.len() && same_part(&left[index], &right[index])
        invariant
            index <= left@.len(),
            index <= right@.len(),
            first == part_views(left@),
            second == part_views(right@),
            parts_before(first, second) == parts_before(
                first.skip(index as int),
                second.skip(index as int),
            ),
        decreases left@.len() - index,
    {
        assert(first.skip(index as int)[0] == left@[index as int]@);
        assert(second.skip(index as int)[0] == right@[index as int]@);
        assert(first.skip(index as int).drop_first() =~= first.skip(index + 1));
        assert(second.skip(index as int).drop_first() =~= second.skip(index + 1));
        index += 1;
    }
    if index >= right.len() {
        false
    } else if index >= left.len() {
        true
    } else {
        assert(first.skip(index as int)[0] == left@[index as int]@);
        assert(second.skip(index as int)[0] == right@[index as int]@);
        rank(left[index].class) < rank(right[index].class) || left[index].class
            == right[index].class && text::is_before(
            left[index].name.as_str(),
            right[index].name.as_str(),
        )
    }
}

} // verus!
