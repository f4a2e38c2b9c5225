//! Looking for audio files below a folder.

use crate::paths;
use crate::sorting;
use crate::sorting::SortKey;
use crate::text;
use crate::track;
use crate::track::{AudioFile, AudioFileView};
use vstd::multiset::Multiset;
use vstd::prelude::*;

verus! {

// ---------------------------------------------------------------------------
// Links
// ---------------------------------------------------------------------------

/// The bit that marks an entry which stands for another place.
pub const REPARSE_POINT: u32 = 0x0000_0400;

/// The attributes that a file system keeps of an entry.
#[derive(Clone, Copy, Debug, PartialEq, Eq, Structural)]
pub enum FileAttributes {
    /// The system keeps none.
    NotKept,
    /// They could not be read.
    Unreadable,
    Known { bits: u32 },
}

/// The entry may lead out of the folder, so that a scan does not follow it.
pub open spec fn leads_elsewhere(is_symlink: bool, attributes: FileAttributes) -> bool {
    is_symlink || match attributes {
        FileAttributes::NotKept => false,
        FileAttributes::Unreadable => true,
        FileAttributes::Known { bits } => bits & REPARSE_POINT != 0,
    }
}

/// Whether an entry may lead out of the folder.
pub fn is_recursive_scan_link(is_symlink: bool, attributes: FileAttributes) -> (link: bool)
    ensures
        link == leads_elsewhere(is_symlink, attributes),
{
    is_symlink || match attributes {
        FileAttributes::NotKept => false,
        FileAttributes::Unreadable => true,
        FileAttributes::Known { bits } => bits & REPARSE_POINT != 0,
    }
}

// ---------------------------------------------------------------------------
// The scan
// ---------------------------------------------------------------------------

/// What an entry of a folder is.
#[derive(Clone, Copy, Debug, PartialEq, Eq, Structural)]
pub enum EntryKind {
    Link,
    Folder,
    File,
    Other,
}

/// An entry of a folder.
#[derive(Debug)]
pub struct FolderEntry {
    pub path: String,
    pub kind: EntryKind,
    pub size_bytes: Option<u64>,
}

/// The audio files that a scan found.
#[derive(Debug)]
pub struct FolderScanResult {
    pub files: Vec<AudioFile>,
}

/// A scan that goes on: the files it has found and the folders that wait for it.
#[derive(Debug)]
pub struct FolderScan {
    pub found: Vec<AudioFile>,
    pub waiting: Vec<String>,
}

/// The model of a scan that goes on.
#[verifier::ext_equal]
pub struct ScanView {
    pub found: Seq<AudioFileView>,
    pub waiting: Seq<Seq<char>>,
}

impl View for FolderScan {
    type V = ScanView;

    open spec fn view(&self) -> ScanView {
        ScanView { found: track::file_views(self.found@), waiting: text::texts(self.waiting@) }
    }
}

impl ScanView {
    /// The scan after an entry: folders wait for their turn, audio files are found, and links
    /// are passed over.
    pub open spec fn with_entry(self, entry: FolderEntry) -> ScanView {
        match entry.kind {
            EntryKind::Folder => ScanView { waiting: self.waiting.push(entry.path@), ..self },
            EntryKind::File => if paths::is_audio_path(entry.path@) {
                ScanView {
                    found: self.found.push(
                        AudioFileView { path: entry.path@, size_bytes: entry.size_bytes },
                    ),
                    ..self
                }
            } else {
                self
            },
            _ => self,
        }
    }

    /// The scan after the first entries of a folder.
    pub open spec fn with_entries(self, entries: Seq<FolderEntry>) -> ScanView
        decreases entries.len(),
    {
        if entries.len() == 0 {
            self
        } else {
            self.with_entries(entries.drop_last()).with_entry(entries.last())
        }
    }
}

/// Files are ordered by their paths in lower case.
pub open spec fn by_natural_key() -> spec_fn(AudioFileView, AudioFileView) -> bool {
    |left: AudioFileView, right: AudioFileView|
        !text::text_before(text::lowercase(right.path), text::lowercase(left.path))
}

/// The key of a file.
pub struct PathKey {
    pub key: String,
}

impl SortKey for PathKey {
    open spec fn at_most(self, other: Self) -> bool {
        !text::text_before(other.key@, self.key@)
    }

    proof fn at_most_total(left: Self, right: Self) {
        text::text_order_total(left.key@, right.key@);
    }

    proof fn at_most_transitive(first: Self, second: Self, third: Self) {
        text::text_order_total(first.key@, second.key@);
        text::text_order_total(second.key@, third.key@);
        text::text_order_total(first.key@, third.key@);
        if text::text_before(first.key@, second.key@) && text::text_before(
            second.key@,
            third.key@,
        ) {
            text::text_order_transitive(first.key@, second.key@, third.key@);
        }
    }

    fn is_at_most(&self, other: &Self) -> (result: bool) {
        !text::is_before(other.key.as_str(), self.key.as_str())
    }
}

impl FolderScan {
    /// A scan that begins with a folder.
    pub fn new(root: String) -> (scan: FolderScan)
        ensures
            scan@ == (ScanView { found: Seq::empty(), waiting: seq![root@] }),
    {
        let mut waiting: Vec<String> = Vec::new();
        waiting.push(root);
        let scan = FolderScan { found: Vec::new(), waiting };
        assert(scan@ =~= (ScanView { found: Seq::empty(), waiting: seq![root@] }));
        scan
    }

    /// The folder whose turn it is: the one that came last.
    pub fn next_folder(&mut self) -> (folder: Option<String>)
        ensures
            match folder {
                Some(folder) => old(self)@.waiting.len() > 0 && folder@ == old(
                    self,
                )@.waiting.last() && final(self)@ == (ScanView {
                    waiting: old(self)@.waiting.drop_last(),
                    ..old(self)@
                }),
                None => old(self)@.waiting.len() == 0 && final(self)@ == old(self)@,
            },
    {
        let ghost start = self@;
        let folder = self.waiting.pop();
        if folder.is_some() {
            assert(self@.waiting =~= start.waiting.drop_last());
        }
        folder
    }

    /// Takes over an entry.
    fn take_entry(&mut self, entry: FolderEntry)
        ensures
            final(self)@ == old(self)@.with_entry(entry),
    {
        let ghost start = self@;
        let ghost came = entry;
        match entry.kind {
            EntryKind::Folder => {
                self.waiting.push(entry.path);
            },
            EntryKind::File => {
                if paths::is_supported_audio_file(entry.path.as_str()) {
                    self.found.push(AudioFile::new(entry.path, entry.size_bytes));
                }
            },
            EntryKind::Link => {},
            EntryKind::Other => {},
        }
        assert(self@ =~= start.with_entry(came));
    }

    /// Takes over the entries of a folder.
    pub fn take_entries(&mut self, entries: Vec<FolderEntry>)
        ensures
            final(self)@ == old(self)@.with_entries(entries@),
    {
        let ghost start = self@;
        let ghost all = entries@;
        assert(all.take(0) =~= Seq::empty());
        for entry in iter: entries
            invariant
                all == entries@,
                iter.seq() == all,
                self@ == start.with_entries(all.take(iter.index() as int)),
        {
            assert(all.take(iter.index() + 1).drop_last() =~= all.take(iter.index() as int));
            self.take_entry(entry);
        }
        assert(all.take(all.len() as int) =~= all);
    }

    /// The files that were found, in order.
    pub fn finish(self) -> (result: FolderScanResult)
        ensures
            track::file_views(result.files@) == sorting::sorted(self@.found, by_natural_key()),
    {
        let files = self.found;
        let ghost views = track::file_views(files@);
        let mut keys: Vec<PathKey> = Vec::new();
        let mut index: usize = 0;
        while index < files.len()
            invariant
                index <= files@.len(),
                keys@.len() == index,
                forall|i: int|
                    0 <= i < index ==> (#[trigger] keys@[i]).key@ == text::lowercase(
                        files@[i].path@,
                    ),
            decreases files@.len() - index,
        {
            keys.push(PathKey { key: files[index].path.as_str().to_lowercase() });
            index += 1;
        }
        let (sorted, Ghost(order)) = sorting::sort_by_keys(files, &keys);
        proof {
            sorting::stable_order_by_keys(order, keys@, views, by_natural_key());
            assert(track::file_views(sorted@) =~= sorting::arranged(views, order));
            assert(sorting::is_stable_sort(
                track::file_views(sorted@),
                views,
                by_natural_key(),
            ));
            sorting::sorted_unique(track::file_views(sorted@), views, by_natural_key());
        }
        FolderScanResult { files: sorted }
    }
}

// ---------------------------------------------------------------------------
// Laws
// ---------------------------------------------------------------------------

/// A scan finds audio files only, whatever a folder holds.
pub proof fn found_files_are_supported(scan: ScanView, entries: Seq<FolderEntry>)
    requires
        forall|i: int|
            0 <= i < scan.found.len() ==> paths::is_audio_path(#[trigger] scan.found[i].path),
    ensures
        forall|i: int|
            0 <= i < scan.with_entries(entries).found.len() ==> paths::is_audio_path(
                #[trigger] scan.with_entries(entries).found[i].path,
            ),
    decreases entries.len(),
{
    if entries.len() > 0 {
        found_files_are_supported(scan, entries.drop_last());
    }
}

/// A folder of links alone adds nothing to a scan: none of them is followed.
pub proof fn links_are_not_followed(scan: ScanView, entries: Seq<FolderEntry>)
    requires
        forall|i: int| 0 <= i < entries.len() ==> (#[trigger] entries[i]).kind == EntryKind::Link,
    ensures
        scan.with_entries(entries) == scan,
    decreases entries.len(),
{
    if entries.len() > 0 {
        assert(entries.last().kind == EntryKind::Link);
        links_are_not_followed(scan, entries.drop_last());
    }
}

/// All that a scan found comes out of it, and nothing else.
pub proof fn scan_loses_no_file(files: Seq<AudioFileView>)
    requires
        files.len() <= usize::MAX,
    ensures
        sorting::sorted(files, by_natural_key()).to_multiset() == files.to_multiset(),
{
    natural_sort_holds(files);
    sorting::stable_sort_keeps_items(
        sorting::sorted(files, by_natural_key()),
        files,
        by_natural_key(),
    );
}

/// Every list of files has a stable sort by path.
proof fn natural_sort_holds(files: Seq<AudioFileView>)
    requires
        files.len() <= usize::MAX,
    ensures
        sorting::is_stable_sort(
            sorting::sorted(files, by_natural_key()),
            files,
            by_natural_key(),
        ),
{
    let order = by_natural_key();
    assert forall|left: AudioFileView, right: AudioFileView| #[trigger]
        order(left, right) || order(right, left) by {
        text::text_order_total(text::lowercase(left.path), text::lowercase(right.path));
    }
    assert forall|first: AudioFileView, second: AudioFileView, third: AudioFileView| #[trigger]
        order(first, second) && #[trigger] order(second, third) implies order(first, third) by {
        let a = text::lowercase(first.path);
        let b = text::lowercase(second.path);
        let c = text::lowercase(third.path);
        text::text_order_total(a, b);
        text::text_order_total(b, c);
        text::text_order_total(a, c);
        if text::text_before(a, b) && text::text_before(b, c) {
            text::text_order_transitive(a, b, c);
        }
    }
    sorting::stable_sort_exists(files, order);
}

// ---------------------------------------------------------------------------
// A whole scan
// ---------------------------------------------------------------------------

/// A folder with what it holds: its entries, and the folders among them with what they hold.
pub struct FolderTree {
    pub path: Seq<char>,
    pub entries: Seq<FolderEntry>,
    pub folders: Seq<FolderTree>,
}

/// The paths of the folders among entries, in order.
pub open spec fn folder_paths(entries: Seq<FolderEntry>) -> Seq<Seq<char>>
    decreases entries.len(),
{
    if entries.len() == 0 {
        Seq::empty()
    } else if entries.last().kind == EntryKind::Folder {
        folder_paths(entries.drop_last()).push(entries.last().path@)
    } else {
        folder_paths(entries.drop_last())
    }
}

/// The audio files among entries, in order; a link is none.
pub open spec fn audio_files(entries: Seq<FolderEntry>) -> Seq<AudioFileView>
    decreases entries.len(),
{
    if entries.len() == 0 {
        Seq::empty()
    } else if entries.last().kind == EntryKind::File && paths::is_audio_path(
        entries.last().path@,
    ) {
        audio_files(entries.drop_last()).push(
            AudioFileView {
                path: entries.last().path@,
                size_bytes: entries.last().size_bytes,
            },
        )
    } else {
        audio_files(entries.drop_last())
    }
}

/// The paths of trees.
pub open spec fn tree_paths(trees: Seq<FolderTree>) -> Seq<Seq<char>> {
    trees.map_values(|tree: FolderTree| tree.path)
}

/// The folders of a tree are those among its entries, all the way down.
pub open spec fn is_complete(tree: FolderTree) -> bool
    decreases tree,
{
    tree_paths(tree.folders) == folder_paths(tree.entries) && all_complete(tree.folders)
}

/// The folders of each of the trees are those among its entries, all the way down.
pub open spec fn all_complete(trees: Seq<FolderTree>) -> bool
    decreases trees,
{
    trees.len() == 0 || is_complete(trees.last()) && all_complete(trees.drop_last())
}

/// The number of folders in a tree.
pub open spec fn folder_count(tree: FolderTree) -> nat
    decreases tree,
{
    1 + total_count(tree.folders)
}

/// The number of folders in trees.
pub open spec fn total_count(trees: Seq<FolderTree>) -> nat
    decreases trees,
{
    if trees.len() == 0 {
        0
    } else {
        total_count(trees.drop_last()) + folder_count(trees.last())
    }
}

/// The audio files in a tree, each as often as the tree holds it.
pub open spec fn files_below(tree: FolderTree) -> Multiset<AudioFileView>
    decreases tree,
{
    audio_files(tree.entries).to_multiset().add(files_in(tree.folders))
}

/// The audio files in trees, each as often as the trees hold it.
pub open spec fn files_in(trees: Seq<FolderTree>) -> Multiset<AudioFileView>
    decreases trees,
{
    if trees.len() == 0 {
        Multiset::empty()
    } else {
        files_in(trees.drop_last()).add(files_below(trees.last()))
    }
}

/// The folders of two lists of trees add up.
pub proof fn counts_add_up(first: Seq<FolderTree>, rest: Seq<FolderTree>)
    ensures
        total_count(first + rest) == total_count(first) + total_count(rest),
    decreases rest.len(),
{
    if rest.len() == 0 {
        assert(first + rest =~= first);
    } else {
        counts_add_up(first, rest.drop_last());
        assert((first + rest).drop_last() =~= first + rest.drop_last());
        assert((first + rest).last() == rest.last());
    }
}

/// The files of two lists of trees.
proof fn files_add_up(first: Seq<FolderTree>, rest: Seq<FolderTree>)
    ensures
        files_in(first + rest) == files_in(first).add(files_in(rest)),
    decreases rest.len(),
{
    if rest.len() == 0 {
        assert(first + rest =~= first);
        assert(files_in(first) =~= files_in(first).add(Multiset::empty()));
    } else {
        files_add_up(first, rest.drop_last());
        assert((first + rest).drop_last() =~= first + rest.drop_last());
        assert((first + rest).last() == rest.last());
        assert(files_in(first).add(files_in(rest.drop_last())).add(files_below(rest.last()))
            =~= files_in(first).add(files_in(rest.drop_last()).add(files_below(rest.last()))));
    }
}

/// Trees are complete where two parts of them are.
proof fn complete_parts(first: Seq<FolderTree>, rest: Seq<FolderTree>)
    requires
        all_complete(first),
        all_complete(rest),
    ensures
        all_complete(first + rest),
    decreases rest.len(),
{
    if rest.len() == 0 {
        assert(first + rest =~= first);
    } else {
        complete_parts(first, rest.drop_last());
        assert((first + rest).drop_last() =~= first + rest.drop_last());
        assert((first + rest).last() == rest.last());
    }
}

/// The trees that wait after the last of them was scanned: its folders take its place.
pub open spec fn trees_left(trees: Seq<FolderTree>) -> Seq<FolderTree> {
    trees.drop_last() + trees.last().folders
}

/// A scan that takes the folder whose turn it is, and what is in it, until none waits. The
/// trees are those of the folders that wait.
pub open spec fn scanned_whole(scan: ScanView, trees: Seq<FolderTree>) -> ScanView
    decreases total_count(trees),
{
    if trees.len() == 0 {
        scan
    } else {
        proof {
            counts_add_up(trees.drop_last(), trees.last().folders);
            assert(folder_count(trees.last()) == 1 + total_count(trees.last().folders));
        }
        scanned_whole(
            (ScanView { waiting: scan.waiting.drop_last(), ..scan }).with_entries(
                trees.last().entries,
            ),
            trees_left(trees),
        )
    }
}

/// The entries of a folder add its folders to those that wait, and its audio files to those
/// that were found.
proof fn entries_add_up(scan: ScanView, entries: Seq<FolderEntry>)
    ensures
        scan.with_entries(entries).waiting == scan.waiting + folder_paths(entries),
        scan.with_entries(entries).found == scan.found + audio_files(entries),
    decreases entries.len(),
{
    if entries.len() == 0 {
        assert(scan.waiting + folder_paths(entries) =~= scan.waiting);
        assert(scan.found + audio_files(entries) =~= scan.found);
    } else {
        entries_add_up(scan, entries.drop_last());
        let after = scan.with_entries(entries);
        assert(after.waiting =~= scan.waiting + folder_paths(entries));
        assert(after.found =~= scan.found + audio_files(entries));
    }
}

/// A scan that goes on until no folder waits finds every audio file below the folders that
/// waited, each as often as it is there, and no other.
pub proof fn whole_scan_finds_all(scan: ScanView, trees: Seq<FolderTree>)
    requires
        scan.waiting == tree_paths(trees),
        all_complete(trees),
    ensures
        scanned_whole(scan, trees).waiting.len() == 0,
        scanned_whole(scan, trees).found.to_multiset() == scan.found.to_multiset().add(
            files_in(trees),
        ),
    decreases total_count(trees),
{
    if trees.len() == 0 {
        assert(scan.found.to_multiset() =~= scan.found.to_multiset().add(files_in(trees)));
    } else {
        let tree = trees.last();
        let rest = trees.drop_last();
        let taken = ScanView { waiting: scan.waiting.drop_last(), ..scan };
        let next = taken.with_entries(tree.entries);
        entries_add_up(taken, tree.entries);
        assert(is_complete(tree));
        assert(folder_count(tree) == 1 + total_count(tree.folders));
        assert(files_below(tree) == audio_files(tree.entries).to_multiset().add(
            files_in(tree.folders),
        ));
        counts_add_up(rest, tree.folders);
        files_add_up(rest, tree.folders);
        complete_parts(rest, tree.folders);
        assert(next.waiting =~= tree_paths(trees_left(trees))) by {
            assert(tree_paths(trees).drop_last() =~= tree_paths(rest));
            assert(tree_paths(rest + tree.folders) =~= tree_paths(rest) + tree_paths(
                tree.folders,
            ));
        }
        whole_scan_finds_all(next, trees_left(trees));
        let own = audio_files(tree.entries).to_multiset();
        vstd::seq_lib::lemma_multiset_commutative(scan.found, audio_files(tree.entries));
        assert(scan.found.to_multiset().add(own).add(files_in(rest).add(files_in(tree.folders)))
            =~= scan.found.to_multiset().add(files_in(rest).add(own.add(files_in(tree.folders)))));
    }
}

/// The scan of a folder, once it is finished, lists exactly the audio files in the folder and in
/// the folders below it that no link leads to, each as often as it is there, ordered by their
/// paths in lower case.
pub proof fn finished_scan_lists_folder(tree: FolderTree)
    requires
        is_complete(tree),
        scanned_whole(
            ScanView { found: Seq::empty(), waiting: seq![tree.path] },
            seq![tree],
        ).found.len() <= usize::MAX,
    ensures
        ({
            let found = scanned_whole(
                ScanView { found: Seq::empty(), waiting: seq![tree.path] },
                seq![tree],
            ).found;
            let files = sorting::sorted(found, by_natural_key());
            &&& files.to_multiset() == files_below(tree)
            &&& forall|i: int, j: int|
                0 <= i < j < files.len() ==> by_natural_key()(
                    #[trigger] files[i],
                    #[trigger] files[j],
                )
        }),
{
    let scan = ScanView { found: Seq::empty(), waiting: seq![tree.path] };
    let trees = seq![tree];
    assert(tree_paths(trees) =~= seq![tree.path]);
    assert(trees.drop_last() =~= Seq::empty());
    assert(trees.last() == tree);
    assert(all_complete(trees.drop_last()));
    assert(all_complete(trees));
    whole_scan_finds_all(scan, trees);
    let found = scanned_whole(scan, trees).found;
    scan_loses_no_file(found);
    natural_sort_holds(found);
    let order = by_natural_key();
    let files = sorting::sorted(found, order);
    let arrangement = choose|arrangement: Seq<usize>| #[trigger]
        sorting::is_stable_order(arrangement, found, order) && files == sorting::arranged(
            found,
            arrangement,
        );
    assert forall|i: int, j: int| 0 <= i < j < files.len() implies order(
        #[trigger] files[i],
        #[trigger] files[j],
    ) by {
        assert(sorting::sorts_before(found, order, arrangement[i] as int, arrangement[j] as int));
    }
    let nothing = Seq::<AudioFileView>::empty().to_multiset();
    Seq::<AudioFileView>::empty().to_multiset_ensures();
    assert(files_in(trees) == files_in(trees.drop_last()).add(files_below(tree)));
    assert(nothing.len() == 0);
    assert(nothing.add(files_in(trees)) =~= files_below(tree));
}

} // verus!
