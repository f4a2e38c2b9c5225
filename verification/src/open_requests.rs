//! Requests of other runs of the application to open files.

use crate::app::{AudioOrbitApp, PlayerStatus};
use crate::external_files;
use crate::external_files::OpenedPath;
use crate::paths;
use crate::paths::PathPart;
use crate::seeking;
use crate::sorting;
use crate::sorting::SortKey;
use crate::text;
use vstd::prelude::*;

verus! {

/// The path is that of a request.
pub open spec fn is_request(path: Seq<char>) -> bool {
    match paths::file_name_of(path) {
        Some(name) => paths::extension_of_name(name) == Some("json"@),
        None => false,
    }
}

/// Paths are ordered by their components.
pub open spec fn by_components() -> spec_fn(Seq<char>, Seq<char>) -> bool {
    |left: Seq<char>, right: Seq<char>|
        !paths::parts_before(paths::compared_parts(right), paths::compared_parts(left))
}

/// The requests among the files of a folder, in the order in which they are answered.
pub open spec fn requests_in(files: Seq<Seq<char>>) -> Seq<Seq<char>> {
    sorting::sorted(files.filter(|path: Seq<char>| is_request(path)), by_components())
}

/// The components of a path.
pub struct ComponentsKey {
    pub parts: Vec<PathPart>,
}

impl SortKey for ComponentsKey {
    open spec fn at_most(self, other: Self) -> bool {
        !paths::parts_before(paths::part_views(other.parts@), paths::part_views(self.parts@))
    }

    proof fn at_most_total(left: Self, right: Self) {
        paths::path_order_total(
            paths::part_views(left.parts@),
            paths::part_views(right.parts@),
        );
    }

    proof fn at_most_transitive(first: Self, second: Self, third: Self) {
        let a = paths::part_views(first.parts@);
        let b = paths::part_views(second.parts@);
        let c = paths::part_views(third.parts@);
        paths::path_order_total(a, b);
        paths::path_order_total(b, c);
        paths::path_order_total(a, c);
        if paths::parts_before(a, b) && paths::parts_before(b, c) {
            paths::path_order_transitive(a, b, c);
        }
    }

    fn is_at_most(&self, other: &Self) -> (result: bool) {
        !paths::is_path_before(&other.parts, &self.parts)
    }
}

/// Whether a path is that of a request.
fn names_request(path: &str) -> (found: bool)
    ensures
        found == is_request(path@),
{
    match paths::file_name(path) {
        Some(name) => match paths::extension(name.as_str()) {
            Some(extension) => text::same_text(extension.as_str(), "json"),
            None => false,
        },
        None => false,
    }
}

/// Keeps the requests among the files of a folder.
fn keep_requests(files: Vec<String>) -> (kept: Vec<String>)
    ensures
        text::texts(kept@) == text::texts(files@).filter(|path: Seq<char>| is_request(path)),
{
    let ghost all = text::texts(files@);
    let ghost keep = |path: Seq<char>| is_request(path);
    let mut kept: Vec<String> = Vec::new();
    proof {
        crate::grouping::filter_all_or_none(all.take(0), keep);
        assert(all.take(0).filter(keep) =~= Seq::empty());
        assert(text::texts(kept@) =~= Seq::empty());
    }
    for file in iter: files
        invariant
            all == text::texts(iter.seq()),
            keep == (|path: Seq<char>| is_request(path)),
            text::texts(kept@) == all.take(iter.index()).filter(keep),
    {
        proof {
            crate::grouping::filter_next(all, keep, iter.index());
            assert(all[iter.index()] == file@);
        }
        if names_request(file.as_str()) {
            let ghost before = kept@;
            kept.push(file);
            assert(text::texts(kept@) =~= text::texts(before).push(file@));
        }
    }
    assert(all.take(all.len() as int) =~= all);
    kept
}

/// Finds the requests among the files of a folder, in the order in which they are answered.
pub fn open_request_files(files: Vec<String>) -> (requests: Vec<String>)
    ensures
        text::texts(requests@) == requests_in(text::texts(files@)),
{
    let kept = keep_requests(files);
    let ghost views = text::texts(kept@);
    let mut keys: Vec<ComponentsKey> = Vec::new();
    let mut index: usize = 0;
    while index < kept.len()
        invariant
            index <= kept@.len(),
            keys@.len() == index,
            forall|i: int|
                0 <= i < index ==> paths::part_views((#[trigger] keys@[i]).parts@)
                    == paths::compared_parts(kept@[i]@),
        decreases kept@.len() - index,
    {
        keys.push(ComponentsKey { parts: paths::compared_path(kept[index].as_str()) });
        index += 1;
    }
    let (requests, Ghost(order)) = sorting::sort_by_keys(kept, &keys);
    proof {
        sorting::stable_order_by_keys(order, keys@, views, by_components());
        assert(text::texts(requests@) =~= sorting::arranged(views, order));
        assert(sorting::is_stable_sort(text::texts(requests@), views, by_components()));
        sorting::sorted_unique(text::texts(requests@), views, by_components());
    }
    requests
}

// ---------------------------------------------------------------------------
// What the requests ask for
// ---------------------------------------------------------------------------

/// The paths that the text of a request asks for; nothing where the text is not a request.
pub uninterp spec fn request_paths(contents: Seq<char>) -> Option<Seq<Seq<char>>>;

/// The texts of a list of paths, where there is one.
pub open spec fn optional_texts(paths: Option<Vec<String>>) -> Option<Seq<Seq<char>>> {
    match paths {
        Some(paths) => Some(text::texts(paths@)),
        None => None,
    }
}

/// `serde_json::from_str` reads a JSON array of paths, and fails on any other text; which paths
/// come out depends on the text alone.
#[verifier::external_body]
pub(crate) fn read_request(contents: &str) -> (paths: Option<Vec<String>>)
    ensures
        optional_texts(paths) == request_paths(contents@),
{
    serde_json::from_str::<Vec<std::path::PathBuf>>(contents).ok().map(
        |paths| paths.into_iter().map(|path| path.to_string_lossy().into_owned()).collect(),
    )
}

/// The paths of all requests, one request after the other. One that cannot be read asks for
/// nothing.
pub open spec fn joined_paths(parsed: Seq<Option<Seq<Seq<char>>>>) -> Seq<Seq<char>>
    decreases parsed.len(),
{
    if parsed.len() == 0 {
        Seq::empty()
    } else {
        joined_paths(parsed.drop_last()) + match parsed.last() {
            Some(paths) => paths,
            None => Seq::empty(),
        }
    }
}

/// The models of what requests ask for.
pub open spec fn parsed_views(parsed: Seq<Option<Vec<String>>>) -> Seq<Option<Seq<Seq<char>>>> {
    parsed.map_values(|paths: Option<Vec<String>>| optional_texts(paths))
}

/// What the texts of requests ask for; there is no text where a request could not be read.
pub open spec fn parsed_texts(contents: Seq<Option<String>>) -> Seq<Option<Seq<Seq<char>>>> {
    contents.map_values(
        |contents: Option<String>|
            match contents {
                Some(contents) => request_paths(contents@),
                None => None,
            },
    )
}

/// Joins the paths of all requests.
pub fn requested_paths(parsed: Vec<Option<Vec<String>>>) -> (paths: Vec<String>)
    ensures
        text::texts(paths@) == joined_paths(parsed_views(parsed@)),
{
    let ghost all = parsed_views(parsed@);
    let mut paths: Vec<String> = Vec::new();
    assert(text::texts(paths@) =~= Seq::empty());
    for request in iter: parsed
        invariant
            all == parsed_views(iter.seq()),
            text::texts(paths@) == joined_paths(all.take(iter.index())),
    {
        let ghost next = all.take(iter.index() + 1);
        let ghost before = paths@;
        assert(next.drop_last() =~= all.take(iter.index()));
        assert(next.last() == optional_texts(request));
        match request {
            Some(request) => {
                let mut request = request;
                let ghost added = request@;
                paths.append(&mut request);
                assert(text::texts(paths@) =~= text::texts(before) + text::texts(added));
            },
            None => {
                assert(text::texts(paths@) =~= text::texts(before) + Seq::empty());
            },
        }
    }
    assert(all.take(all.len() as int) =~= all);
    paths
}

/// The paths that the texts of requests ask for.
pub fn paths_of_requests(contents: &Vec<Option<String>>) -> (paths: Vec<String>)
    ensures
        text::texts(paths@) == joined_paths(parsed_texts(contents@)),
{
    let mut parsed: Vec<Option<Vec<String>>> = Vec::new();
    let mut index: usize = 0;
    while index < contents.len()
        invariant
            index <= contents@.len(),
            parsed@.len() == index,
            forall|i: int|
                0 <= i < index ==> optional_texts(#[trigger] parsed@[i]) == parsed_texts(
                    contents@,
                )[i],
        decreases contents@.len() - index,
    {
        let paths = match &contents[index] {
            Some(contents) => read_request(contents.as_str()),
            None => None,
        };
        parsed.push(paths);
        index += 1;
    }
    assert(parsed_views(parsed@) =~= parsed_texts(contents@));
    requested_paths(parsed)
}

impl AudioOrbitApp {
    /// Opens the files that requests ask for, where there are any; returns whether there were.
    pub fn process_external_open_requests(
        &mut self,
        opened: Vec<OpenedPath>,
        status: PlayerStatus,
    ) -> (found: bool)
        ensures
            found == (opened@.len() > 0),
            final(self)@ == if opened@.len() > 0 {
                old(self)@.with_files_opened(
                    external_files::playable_files(external_files::opened_views(opened@)),
                    true,
                    status,
                )
            } else {
                old(self)@
            },
    {
        if opened.len() == 0 {
            return false;
        }
        self.open_audio_files_in_temporary_playlist(opened, true, status);
        true
    }
}

/// Requests are answered one after the other: those of a list are those of its first part and
/// then those of the rest, and one that asks for nothing may as well not be there.
pub proof fn requests_are_joined(
    first: Seq<Option<Seq<Seq<char>>>>,
    rest: Seq<Option<Seq<Seq<char>>>>,
)
    ensures
        joined_paths(first + rest) == joined_paths(first) + joined_paths(rest),
        joined_paths(first.push(None) + rest) == joined_paths(first + rest),
    decreases rest.len(),
{
    if rest.len() == 0 {
        assert(first + rest =~= first);
        assert(first.push(None) + rest =~= first.push(None));
        assert(first.push(None).drop_last() =~= first);
        assert(joined_paths(first) + joined_paths(rest) =~= joined_paths(first));
        assert(joined_paths(first.push(None)) =~= joined_paths(first));
    } else {
        requests_are_joined(first, rest.drop_last());
        assert((first + rest).drop_last() =~= first + rest.drop_last());
        assert((first.push(None) + rest).drop_last() =~= first.push(None) + rest.drop_last());
        let last = match rest.last() {
            Some(paths) => paths,
            None => Seq::empty(),
        };
        assert(joined_paths(first) + joined_paths(rest.drop_last()) + last =~= joined_paths(first)
            + (joined_paths(rest.drop_last()) + last));
    }
}

/// Whether it is time to look for requests again.
pub fn open_requests_are_due(now: u64, last_poll: u64, interval: u64) -> (due: bool)
    ensures
        due == (seeking::elapsed(now, last_poll) >= interval),
{
    seeking::time_since(now, last_poll) >= interval
}

} // verus!
