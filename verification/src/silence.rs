//! Silent passages that were found in audio files, kept so that they are not searched again.

use crate::counting;
use crate::paths;
use crate::settings::DspSettings;
use vstd::prelude::*;
use vstd::string::*;

verus! {

/// How many files are remembered.
pub const MAX_SILENCE_ANALYSIS_CACHE_ENTRIES: usize = 256;

/// The settings that a search for silence depends on.
#[derive(Clone, Copy, Debug, PartialEq, Eq, Structural)]
pub struct SilenceSettingsFingerprint {
    pub skip_silence_enabled: bool,
    pub trigger_millis: u32,
    pub threshold_db: i16,
    pub trim_end_regardless_of_duration: bool,
}

/// The settings that a search for silence depends on. Where no time in milliseconds is set, the
/// time in seconds counts, but at least one second.
pub open spec fn fingerprint(settings: DspSettings) -> SilenceSettingsFingerprint {
    SilenceSettingsFingerprint {
        skip_silence_enabled: settings.skip_silence_enabled,
        trigger_millis: if settings.silence_trigger_millis == 0 {
            if settings.silence_threshold_seconds > 1 {
                (settings.silence_threshold_seconds * 1000) as u32
            } else {
                1000
            }
        } else {
            settings.silence_trigger_millis as u32
        },
        threshold_db: settings.silence_threshold_db,
        trim_end_regardless_of_duration: settings.silence_trim_end_regardless_of_duration,
    }
}

/// The settings that a search for silence depends on.
pub fn silence_settings_fingerprint(settings: DspSettings) -> (result: SilenceSettingsFingerprint)
    ensures
        result == fingerprint(settings),
{
    let trigger_millis: u32 = if settings.silence_trigger_millis == 0 {
        if settings.silence_threshold_seconds > 1 {
            settings.silence_threshold_seconds as u32 * 1000
        } else {
            1000
        }
    } else {
        settings.silence_trigger_millis as u32
    };
    SilenceSettingsFingerprint {
        skip_silence_enabled: settings.skip_silence_enabled,
        trigger_millis,
        threshold_db: settings.silence_threshold_db,
        trim_end_regardless_of_duration: settings.silence_trim_end_regardless_of_duration,
    }
}

/// What tells one version of a file from another: its length and when it was changed.
#[derive(Clone, Copy, Debug, PartialEq, Eq, Structural)]
pub struct FileIdentity {
    pub length: Option<u64>,
    pub modified_nanos: Option<u128>,
}

/// The silent passages of one file. Their ends in seconds are held as bit patterns of single
/// precision numbers.
#[derive(Debug)]
pub struct SilenceEntry {
    pub path: String,
    pub identity: FileIdentity,
    pub settings: SilenceSettingsFingerprint,
    pub ranges: Vec<(u32, u32)>,
}

/// The model of the silent passages of one file.
#[verifier::ext_equal]
pub struct SilenceEntryView {
    pub path: Seq<char>,
    pub identity: FileIdentity,
    pub settings: SilenceSettingsFingerprint,
    pub ranges: Seq<(u32, u32)>,
}

impl View for SilenceEntry {
    type V = SilenceEntryView;

    open spec fn view(&self) -> SilenceEntryView {
        SilenceEntryView {
            path: self.path@,
            identity: self.identity,
            settings: self.settings,
            ranges: self.ranges@,
        }
    }
}

/// The models of a list of entries.
pub open spec fn entry_views(entries: Seq<SilenceEntry>) -> Seq<SilenceEntryView> {
    entries.map_values(|entry: SilenceEntry| entry@)
}

/// The silent passages of the files that were searched last, in the order of the paths.
#[derive(Debug)]
pub struct SilenceCache {
    pub entries: Vec<SilenceEntry>,
}

impl View for SilenceCache {
    type V = Seq<SilenceEntryView>;

    open spec fn view(&self) -> Seq<SilenceEntryView> {
        entry_views(self.entries@)
    }
}

/// The condition that an entry is about a path.
pub open spec fn is_about(cache: Seq<SilenceEntryView>, path: Seq<char>) -> spec_fn(int) -> bool {
    |i: int| paths::compared_parts(cache[i].path) == paths::compared_parts(path)
}

/// The condition that an entry stands before a path.
pub open spec fn is_before_path(
    cache: Seq<SilenceEntryView>,
    path: Seq<char>,
) -> spec_fn(int) -> bool {
    |i: int|
        paths::parts_before(
            paths::compared_parts(cache[i].path),
            paths::compared_parts(path),
        )
}

/// The entry about a path.
pub open spec fn entry_for(
    cache: Seq<SilenceEntryView>,
    path: Seq<char>,
) -> Option<SilenceEntryView> {
    match counting::first_where(cache.len(), is_about(cache, path)) {
        Some(index) => Some(cache[index as int]),
        None => None,
    }
}

/// The silent passages that are known of a file, where neither the file nor the settings have
/// changed.
pub open spec fn known_ranges(
    cache: Seq<SilenceEntryView>,
    path: Seq<char>,
    settings: DspSettings,
    identity: FileIdentity,
) -> Option<Seq<(u32, u32)>> {
    match entry_for(cache, path) {
        Some(entry) => if settings.skip_silence_enabled && entry.identity == identity
            && entry.settings == fingerprint(settings) {
            Some(entry.ranges)
        } else {
            None
        },
        None => None,
    }
}

/// The cache with an entry, in place of the one about the same path.
pub open spec fn with_entry(
    cache: Seq<SilenceEntryView>,
    entry: SilenceEntryView,
) -> Seq<SilenceEntryView> {
    match counting::first_where(cache.len(), is_about(cache, entry.path)) {
        Some(index) => cache.update(
            index as int,
            SilenceEntryView { path: cache[index as int].path, ..entry },
        ),
        None => cache.insert(
            counting::count(cache.len(), is_before_path(cache, entry.path)) as int,
            entry,
        ),
    }
}

/// The cache after the silent passages of a file were found.
pub open spec fn with_ranges(
    cache: Seq<SilenceEntryView>,
    path: Seq<char>,
    settings: DspSettings,
    identity: FileIdentity,
    ranges: Seq<(u32, u32)>,
) -> Seq<SilenceEntryView> {
    if settings.skip_silence_enabled {
        crate::moving::last_entries(
            with_entry(
                cache,
                SilenceEntryView { path, identity, settings: fingerprint(settings), ranges },
            ),
            MAX_SILENCE_ANALYSIS_CACHE_ENTRIES as nat,
        )
    } else {
        cache
    }
}

/// A copy of a list of passages.
pub fn copy_ranges(ranges: &Vec<(u32, u32)>) -> (copy: Vec<(u32, u32)>)
    ensures
        copy@ == ranges@,
{
    let mut copy: Vec<(u32, u32)> = Vec::new();
    let mut index: usize = 0;
    while index < ranges.len()
        invariant
            index <= ranges@.len(),
            copy@ == ranges@.take(index as int),
        decreases ranges@.len() - index,
    {
        copy.push(ranges[index]);
        assert(ranges@.take(index + 1) =~= ranges@.take(index as int).push(ranges@[index as int]));
        index += 1;
    }
    assert(ranges@.take(ranges@.len() as int) =~= ranges@);
    copy
}

impl SilenceCache {
    /// A cache that knows no file.
    pub fn new() -> (cache: SilenceCache)
        ensures
            cache@ == Seq::<SilenceEntryView>::empty(),
    {
        let cache = SilenceCache { entries: Vec::new() };
        assert(cache@ =~= Seq::<SilenceEntryView>::empty());
        cache
    }

    /// Where the entry about a path stands.
    fn find(&self, path: &str) -> (position: Option<usize>)
        ensures
            position == counting::first_where(self@.len(), is_about(self@, path@)),
            position matches Some(index) ==> index < self.entries@.len(),
    {
        let ghost wanted = is_about(self@, path@);
        let mut index: usize = 0;
        while index < self.entries.len()
            invariant
                index <= self.entries@.len(),
                wanted == is_about(self@, path@),
                forall|i: int| 0 <= i < index ==> !#[trigger] wanted(i),
            decreases self.entries@.len() - index,
        {
            assert(self@[index as int] == self.entries@[index as int]@);
            if paths::same_components(self.entries[index].path.as_str(), path) {
                proof {
                    assert(wanted(index as int));
                    assert(self.entries.len() == self@.len());
                    counting::first_where_is(self@.len(), wanted, index as int);
                }
                return Some(index);
            }
            index += 1;
        }
        proof {
            assert(self.entries.len() == self@.len());
            counting::first_where_none(self@.len(), wanted);
        }
        None
    }

    /// The silent passages that are known of a file, where neither the file nor the settings
    /// have changed.
    pub fn cached_silence_ranges_for_track(
        &self,
        path: &str,
        settings: DspSettings,
        identity: FileIdentity,
    ) -> (ranges: Option<Vec<(u32, u32)>>)
        ensures
            match ranges {
                Some(ranges) => known_ranges(self@, path@, settings, identity) == Some(ranges@),
                None => known_ranges(self@, path@, settings, identity) is None,
            },
    {
        if !settings.skip_silence_enabled {
            return None;
        }
        match self.find(path) {
            Some(index) => {
                assert(self@[index as int] == self.entries@[index as int]@);
                let entry = &self.entries[index];
                if entry.identity == identity && entry.settings == silence_settings_fingerprint(
                    settings,
                ) {
                    Some(copy_ranges(&entry.ranges))
                } else {
                    None
                }
            },
            None => None,
        }
    }

    /// Keeps the silent passages of a file.
    pub fn remember_silence_ranges_for_track(
        &mut self,
        path: &str,
        settings: DspSettings,
        identity: FileIdentity,
        ranges: Vec<(u32, u32)>,
    )
        ensures
            final(self)@ == with_ranges(old(self)@, path@, settings, identity, ranges@),
    {
        if !settings.skip_silence_enabled {
            return;
        }
        let ghost start = self@;
        let fingerprint = silence_settings_fingerprint(settings);
        let ghost added = SilenceEntryView {
            path: path@,
            identity,
            settings: fingerprint,
            ranges: ranges@,
        };
        match self.find(path) {
            Some(index) => {
                self.entries[index].identity = identity;
                self.entries[index].settings = fingerprint;
                self.entries[index].ranges = ranges;
                assert(self@ =~= with_entry(start, added));
            },
            None => {
                let ghost earlier = is_before_path(start, path@);
                let parts = paths::compared_path(path);
                let mut place: usize = 0;
                let mut index: usize = 0;
                while index < self.entries.len()
                    invariant
                        index <= self.entries@.len(),
                        place <= index,
                        self@ == start,
                        paths::part_views(parts@) == paths::compared_parts(path@),
                        earlier == is_before_path(start, path@),
                        place == counting::count(index as nat, earlier),
                    decreases self.entries@.len() - index,
                {
                    assert(self@[index as int] == self.entries@[index as int]@);
                    let other = paths::compared_path(self.entries[index].path.as_str());
                    if paths::is_path_before(&other, &parts) {
                        place += 1;
                    }
                    index += 1;
                }
                let entry = SilenceEntry {
                    path: path.to_owned(),
                    identity,
                    settings: fingerprint,
                    ranges,
                };
                let ghost before = self.entries@;
                self.entries.insert(place, entry);
                assert(self@ =~= entry_views(before).insert(place as int, entry@));
                assert(entry@ =~= added);
            },
        }
        let ghost grown = self.entries@;
        crate::moving::keep_last_entries(&mut self.entries, MAX_SILENCE_ANALYSIS_CACHE_ENTRIES);
        assert(self@ =~= crate::moving::last_entries(
            entry_views(grown),
            MAX_SILENCE_ANALYSIS_CACHE_ENTRIES as nat,
        ));
    }
}

/// At most so many files are remembered.
pub proof fn cache_is_bounded(
    cache: Seq<SilenceEntryView>,
    path: Seq<char>,
    settings: DspSettings,
    identity: FileIdentity,
    ranges: Seq<(u32, u32)>,
)
    requires
        cache.len() <= MAX_SILENCE_ANALYSIS_CACHE_ENTRIES,
    ensures
        with_ranges(cache, path, settings, identity, ranges).len()
            <= MAX_SILENCE_ANALYSIS_CACHE_ENTRIES,
{
}

/// While there is room, the silent passages of a file are known once they were kept, as long as
/// neither the file nor the settings change.
pub proof fn kept_ranges_are_known(
    cache: Seq<SilenceEntryView>,
    path: Seq<char>,
    settings: DspSettings,
    identity: FileIdentity,
    ranges: Seq<(u32, u32)>,
)
    requires
        cache.len() < MAX_SILENCE_ANALYSIS_CACHE_ENTRIES,
        settings.skip_silence_enabled,
    ensures
        known_ranges(
            with_ranges(cache, path, settings, identity, ranges),
            path,
            settings,
            identity,
        ) == Some(ranges),
{
    let entry = SilenceEntryView { path, identity, settings: fingerprint(settings), ranges };
    let here = is_about(cache, path);
    let after = with_entry(cache, entry);
    let there = is_about(after, path);
    counting::first_where_holds(cache.len(), here);
    counting::count_at_most(cache.len(), is_before_path(cache, path));
    match counting::first_where(cache.len(), here) {
        Some(index) => {
            assert(here(index as int));
            assert(there(index as int));
            assert forall|i: int| 0 <= i < index implies !#[trigger] there(i) by {
                assert(!here(i));
            }
            counting::first_where_is(after.len(), there, index as int);
        },
        None => {
            let place = counting::count(cache.len(), is_before_path(cache, path)) as int;
            assert(there(place));
            assert forall|i: int| 0 <= i < place implies !#[trigger] there(i) by {
                assert(!here(i));
            }
            counting::first_where_is(after.len(), there, place);
        },
    }
}

} // verus!
