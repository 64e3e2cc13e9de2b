//! The files in the output directory: how they are listed, and what may be done to them.

use vstd::prelude::*;

use crate::name_laws::{alike, law_stem_and_extension, no_dot, no_slash};
use crate::names::{
    convertible_name, extension_is, has_extension, media_name, valid_convert_name,
    valid_media_name,
};
use crate::path_laws::{is_component, law_file_name, like_share, parts};
use crate::paths::{file_name_on, find_file_name_on};
use crate::platform::Platform;
use crate::retention::Entry;
use crate::scan::{same_str, same_text};
use crate::text::chars_of;

verus! {

/// How many files are listed.
pub const MAX_LISTED: usize = 30;

/// A listed file.
pub struct RecFile {
    pub name: String,
    pub size_bytes: u64,
    /// When it was last written, in milliseconds since the epoch; 0 where that is not known.
    pub modified_ms: u64,
}

/// The mathematical reading of a listed file.
pub struct RecFileView {
    pub name: Seq<char>,
    pub size_bytes: u64,
    pub modified_ms: u64,
}

impl View for RecFile {
    type V = RecFileView;

    open spec fn view(&self) -> RecFileView {
        RecFileView {
            name: self.name@,
            size_bytes: self.size_bytes,
            modified_ms: self.modified_ms,
        }
    }
}

/// The readings of a list of files.
pub open spec fn file_views(files: Seq<RecFile>) -> Seq<RecFileView> {
    Seq::new(files.len(), |i: int| files[i]@)
}

/// A time in milliseconds since the epoch; 0 where it is not known, lies before the epoch or
/// does not fit.
pub open spec fn listed_ms(modified: Option<i128>) -> u64 {
    match modified {
        Some(t) => if 0 <= t && t as int / 1_000_000 <= u64::MAX {
            (t as int / 1_000_000) as u64
        } else {
            0
        },
        None => 0,
    }
}

/// Brings a time into milliseconds since the epoch; 0 where it is not known, lies before the
/// epoch or does not fit.
pub fn to_listed_ms(modified: Option<i128>) -> (r: u64)
    ensures
        r == listed_ms(modified),
{
    match modified {
        Some(t) => {
            if t < 0 {
                return 0;
            }
            let ms: i128 = t / 1_000_000;
            if ms <= u64::MAX as i128 {
                ms as u64
            } else {
                0
            }
        },
        None => 0,
    }
}

/// The file that an entry of the output directory is listed as: a `mkv` or `mp4` file of known
/// size.
pub open spec fn file_of(entry: Entry) -> Option<RecFileView> {
    if (has_extension(entry.name@, "mkv"@) || has_extension(entry.name@, "mp4"@))
        && entry.meta is Some {
        Some(
            RecFileView {
                name: entry.name@,
                size_bytes: (entry.meta->0).size,
                modified_ms: listed_ms((entry.meta->0).modified),
            },
        )
    } else {
        None
    }
}

/// `f` put into its place in a list that has the newest first: after those that are as new.
pub open spec fn placed(files: Seq<RecFileView>, f: RecFileView) -> Seq<RecFileView>
    decreases files.len(),
{
    if files.len() == 0 || files.last().modified_ms >= f.modified_ms {
        files.push(f)
    } else {
        placed(files.drop_last(), f).push(files.last())
    }
}

/// The files among some entries, the newest first; files of the same time in the order of the
/// entries.
pub open spec fn newest_first(entries: Seq<Entry>) -> Seq<RecFileView>
    decreases entries.len(),
{
    if entries.len() == 0 {
        seq![]
    } else {
        match file_of(entries.last()) {
            Some(f) => placed(newest_first(entries.drop_last()), f),
            None => newest_first(entries.drop_last()),
        }
    }
}

/// Whether the newer stand before the older.
pub open spec fn descending(files: Seq<RecFileView>) -> bool {
    forall|i: int, j: int|
        0 <= i <= j < files.len() ==> (#[trigger] files[i]).modified_ms >= (
        #[trigger] files[j]).modified_ms
}

proof fn lemma_placed(files: Seq<RecFileView>, f: RecFileView)
    requires
        descending(files),
    ensures
        descending(placed(files, f)),
        placed(files, f).to_multiset() == files.to_multiset().insert(f),
        forall|i: int|
            0 <= i < placed(files, f).len() ==> (#[trigger] placed(files, f)[i]) == f
                || files.contains(placed(files, f)[i]),
    decreases files.len(),
{
    broadcast use vstd::seq_lib::group_to_multiset_ensures;

    let out = placed(files, f);
    if files.len() == 0 || files.last().modified_ms >= f.modified_ms {
        assert forall|i: int| 0 <= i < out.len() - 1 implies files.contains(#[trigger] out[i]) by {
            assert(files[i] == out[i]);
        }
        assert forall|i: int, j: int| 0 <= i <= j < out.len() implies (
        #[trigger] out[i]).modified_ms >= (#[trigger] out[j]).modified_ms by {
            if j == files.len() && i < j {
                assert(files[i].modified_ms >= files[files.len() - 1].modified_ms);
            }
        }
    } else {
        let shorter = files.drop_last();
        lemma_placed(shorter, f);
        let inner = placed(shorter, f);
        assert(files =~= shorter.push(files.last()));
        assert(out.to_multiset() =~= inner.to_multiset().insert(files.last()));
        assert(out.to_multiset() =~= files.to_multiset().insert(f));
        assert forall|i: int| 0 <= i < out.len() implies (#[trigger] out[i]) == f
            || files.contains(out[i]) by {
            if i < inner.len() {
                assert(out[i] == inner[i]);
                if inner[i] != f {
                    let k = choose|k: int| 0 <= k < shorter.len() && shorter[k] == inner[i];
                    assert(files[k] == out[i]);
                }
            } else {
                assert(out[i] == files[files.len() - 1]);
            }
        }
        assert forall|i: int, j: int| 0 <= i <= j < out.len() implies (
        #[trigger] out[i]).modified_ms >= (#[trigger] out[j]).modified_ms by {
            if j == inner.len() && i < j {
                assert(out[i] == inner[i]);
                if inner[i] != f {
                    let k = choose|k: int| 0 <= k < shorter.len() && shorter[k] == inner[i];
                    assert(files[k].modified_ms >= files[files.len() - 1].modified_ms);
                }
            }
        }
    }
}

proof fn lemma_newest_first(entries: Seq<Entry>)
    ensures
        descending(newest_first(entries)),
    decreases entries.len(),
{
    if entries.len() > 0 {
        lemma_newest_first(entries.drop_last());
        if let Some(f) = file_of(entries.last()) {
            lemma_placed(newest_first(entries.drop_last()), f);
        }
    }
}

/// The newest files are listed first, and none that is left out for want of room is newer than
/// one that is listed.
pub proof fn law_listing_is_newest(entries: Seq<Entry>, n: int)
    requires
        0 <= n <= newest_first(entries).len(),
    ensures
        descending(newest_first(entries)),
        forall|i: int, j: int|
            0 <= i < n <= j < newest_first(entries).len() ==> (
            #[trigger] newest_first(entries)[i]).modified_ms >= (
            #[trigger] newest_first(entries)[j]).modified_ms,
{
    lemma_newest_first(entries);
}

/// How many times a file is among the entries.
pub open spec fn times_listed(entries: Seq<Entry>, f: RecFileView) -> nat
    decreases entries.len(),
{
    if entries.len() == 0 {
        0
    } else {
        times_listed(entries.drop_last(), f) + if file_of(entries.last()) == Some(f) {
            1nat
        } else {
            0
        }
    }
}

/// Sorting loses no file and makes up none.
pub proof fn law_listing_is_complete(entries: Seq<Entry>, f: RecFileView)
    ensures
        newest_first(entries).to_multiset().count(f) == times_listed(entries, f),
    decreases entries.len(),
{
    broadcast use vstd::seq_lib::group_to_multiset_ensures;

    if entries.len() > 0 {
        let before = entries.drop_last();
        law_listing_is_complete(before, f);
        lemma_newest_first(before);
        if let Some(g) = file_of(entries.last()) {
            lemma_placed(newest_first(before), g);
        }
    }
}

proof fn lemma_place(files: Seq<RecFileView>, f: RecFileView, at: int)
    requires
        0 <= at <= files.len(),
        forall|i: int| at <= i < files.len() ==> (#[trigger] files[i]).modified_ms < f.modified_ms,
        at > 0 ==> files[at - 1].modified_ms >= f.modified_ms,
    ensures
        placed(files, f) == files.insert(at, f),
    decreases files.len(),
{
    if at == files.len() {
        assert(files.insert(at, f) =~= files.push(f));
    } else {
        let shorter = files.drop_last();
        assert(files[files.len() - 1].modified_ms < f.modified_ms);
        lemma_place(shorter, f, at);
        assert(files.insert(at, f) =~= shorter.insert(at, f).push(files.last()));
    }
}

/// Lists the files of the output directory that can be played: the newest first, and not too
/// many.
pub fn list_recordings(entries: &[Entry]) -> (r: Vec<RecFile>)
    ensures
        file_views(r@) == newest_first(entries@).take(
            if newest_first(entries@).len() <= MAX_LISTED {
                newest_first(entries@).len() as int
            } else {
                MAX_LISTED as int
            },
        ),
{
    let mut files: Vec<RecFile> = Vec::new();
    let mut i: usize = 0;
    assert(file_views(files@) =~= newest_first(entries@.take(0)));
    while i < entries.len()
        invariant
            i <= entries@.len(),
            file_views(files@) == newest_first(entries@.take(i as int)),
        decreases entries@.len() - i,
    {
        let entry = &entries[i];
        assert(entries@.take(i + 1).drop_last() =~= entries@.take(i as int));
        let playable = extension_is(entry.name.as_str(), "mkv") || extension_is(
            entry.name.as_str(),
            "mp4",
        );
        if playable {
            if let Some(meta) = entry.meta {
                let file = RecFile {
                    name: entry.name.clone(),
                    size_bytes: meta.size,
                    modified_ms: to_listed_ms(meta.modified),
                };
                let ghost f = file@;
                let ghost before = file_views(files@);
                let mut at: usize = files.len();
                while at > 0 && files[at - 1].modified_ms < file.modified_ms
                    invariant
                        at <= files@.len(),
                        before == file_views(files@),
                        f == file@,
                        forall|k: int|
                            at <= k < before.len() ==> (#[trigger] before[k]).modified_ms
                                < f.modified_ms,
                    decreases at,
                {
                    at -= 1;
                    assert(before[at as int] == files@[at as int]@);
                }
                proof {
                    if at > 0 {
                        assert(before[at - 1] == files@[at - 1]@);
                    }
                    lemma_place(before, f, at as int);
                }
                files.insert(at, file);
                assert(file_views(files@) =~= before.insert(at as int, f));
            }
        }
        i += 1;
    }
    assert(entries@.take(i as int) =~= entries@);
    let ghost all = file_views(files@);
    if files.len() > MAX_LISTED {
        files.truncate(MAX_LISTED);
        assert(file_views(files@) =~= all.take(MAX_LISTED as int));
    } else {
        assert(file_views(files@) =~= all.take(all.len() as int));
    }
    files
}

/// Why a file is refused.
#[derive(Debug, Clone, Copy, PartialEq, Eq, Structural)]
pub enum FileError {
    /// The name is not that of a media file of the output directory.
    Invalid,
    /// There is no such file.
    Missing,
    /// It is being recorded.
    InProgress,
    /// The name is not that of a recording that can be converted.
    NotConvertible,
    /// The name is not that of a file that can be clipped.
    NotClippable,
}

impl FileError {
    /// The text of the error.
    pub open spec fn text(self) -> Seq<char> {
        match self {
            FileError::Invalid => "fichier invalide"@,
            FileError::Missing => "fichier introuvable"@,
            FileError::InProgress => "enregistrement en cours — arrête-le avant de le supprimer"@,
            FileError::NotConvertible => "fichier à convertir invalide"@,
            FileError::NotClippable => "fichier à découper invalide"@,
        }
    }

    /// Gives the text of the error.
    pub fn message(self) -> (r: &'static str)
        ensures
            r@ == self.text(),
    {
        match self {
            FileError::Invalid => "fichier invalide",
            FileError::Missing => "fichier introuvable",
            FileError::InProgress => "enregistrement en cours — arrête-le avant de le supprimer",
            FileError::NotConvertible => "fichier à convertir invalide",
            FileError::NotClippable => "fichier à découper invalide",
        }
    }
}

/// Checks the name of a file that is to be opened or probed.
pub fn check_media(name: &str) -> (r: Result<(), FileError>)
    ensures
        r is Ok <==> media_name(name@),
        r matches Err(e) ==> e == FileError::Invalid,
{
    if valid_media_name(name) {
        Ok(())
    } else {
        Err(FileError::Invalid)
    }
}

/// Checks that a file whose name was accepted is there.
pub fn check_found(is_file: bool) -> (r: Result<(), FileError>)
    ensures
        r is Ok <==> is_file,
        r matches Err(e) ==> e == FileError::Missing,
{
    if is_file {
        Ok(())
    } else {
        Err(FileError::Missing)
    }
}

/// Whether `name` is the file at the path `current`.
pub open spec fn names_current(
    platform: Platform,
    current: Option<Seq<char>>,
    name: Seq<char>,
) -> bool {
    match current {
        Some(path) => file_name_on(path, platform) == Some(name),
        None => false,
    }
}

/// Checks the name of a file that is to be deleted: a media file of the output directory, and not
/// the one at `current`, which is being recorded.
pub fn delete_recording(platform: Platform, name: &str, current: Option<&str>) -> (r: Result<
    (),
    FileError,
>)
    ensures
        r == if !media_name(name@) {
            Err::<(), FileError>(FileError::Invalid)
        } else if names_current(
            platform,
            match current {
                Some(path) => Some(path@),
                None => None,
            },
            name@,
        ) {
            Err(FileError::InProgress)
        } else {
            Ok(())
        },
{
    if !valid_media_name(name) {
        return Err(FileError::Invalid);
    }
    if let Some(path) = current {
        let chars = chars_of(path);
        if let Some((from, to)) = find_file_name_on(chars.as_slice(), platform) {
            let file = vstd::slice::slice_subrange(chars.as_slice(), from, to);
            if same_text(file, chars_of(name).as_slice()) {
                return Err(FileError::InProgress);
            }
        }
    }
    Ok(())
}

/// Checks the name of a recording that is to be converted.
pub fn convert_recording(name: &str) -> (r: Result<(), FileError>)
    ensures
        r is Ok <==> convertible_name(name@),
        r matches Err(e) ==> e == FileError::NotConvertible,
{
    if valid_convert_name(name) {
        Ok(())
    } else {
        Err(FileError::NotConvertible)
    }
}

/// Checks the name of a file that is to be clipped.
pub fn clip_range(name: &str) -> (r: Result<(), FileError>)
    ensures
        r is Ok <==> media_name(name@),
        r matches Err(e) ==> e == FileError::NotClippable,
{
    if valid_media_name(name) {
        Ok(())
    } else {
        Err(FileError::NotClippable)
    }
}

/// What was found out about a file, as long as its size and time are the same.
pub struct CachedProbe<T> {
    pub name: String,
    pub size: u64,
    pub mtime_ms: u64,
    pub info: T,
}

/// What was found out about files, so that each is looked into only once.
pub struct ProbeCache<T> {
    pub probes: Vec<CachedProbe<T>>,
}

/// The position of the file among those looked into, from `from` on.
pub open spec fn probe_at<T>(probes: Seq<CachedProbe<T>>, name: Seq<char>, from: int) -> Option<int>
    decreases probes.len() - from,
{
    if from < 0 || from >= probes.len() {
        None
    } else if probes[from].name@ == name {
        Some(from)
    } else {
        probe_at(probes, name, from + 1)
    }
}

proof fn lemma_probe_at<T>(probes: Seq<CachedProbe<T>>, name: Seq<char>, from: int)
    requires
        0 <= from <= probes.len(),
    ensures
        match probe_at(probes, name, from) {
            Some(i) => from <= i < probes.len() && probes[i].name@ == name && forall|j: int|
                from <= j < i ==> (#[trigger] probes[j]).name@ != name,
            None => forall|j: int|
                from <= j < probes.len() ==> (#[trigger] probes[j]).name@ != name,
        },
    decreases probes.len() - from,
{
    if from < probes.len() && probes[from].name@ != name {
        lemma_probe_at(probes, name, from + 1);
    }
}

proof fn lemma_probe_at_is<T>(probes: Seq<CachedProbe<T>>, name: Seq<char>, at: int)
    requires
        0 <= at < probes.len(),
        probes[at].name@ == name,
        forall|j: int| 0 <= j < at ==> (#[trigger] probes[j]).name@ != name,
    ensures
        probe_at(probes, name, 0) == Some(at),
{
    lemma_probe_at(probes, name, 0);
    let i = probe_at(probes, name, 0)->0;
    if i < at {
        assert(probes[i].name@ == name);
    }
    if at < i {
        assert(probes[at].name@ != name);
    }
}

impl<T> ProbeCache<T> {
    /// What is known of a file: its size and time then, and what was found out.
    pub open spec fn known(self, name: Seq<char>) -> Option<(u64, u64, T)> {
        match probe_at(self.probes@, name, 0) {
            Some(i) => Some((self.probes@[i].size, self.probes@[i].mtime_ms, self.probes@[i].info)),
            None => None,
        }
    }

    /// Whether no file occurs twice.
    pub open spec fn distinct(self) -> bool {
        forall|i: int, j: int|
            0 <= i < j < self.probes@.len() ==> (#[trigger] self.probes@[i]).name@ != (
            #[trigger] self.probes@[j]).name@
    }

    /// Starts with nothing known.
    pub fn new() -> (r: Self)
        ensures
            r.distinct(),
            forall|name: Seq<char>| #[trigger] r.known(name) is None,
    {
        ProbeCache { probes: Vec::new() }
    }

    fn find(&self, name: &str) -> (r: Option<usize>)
        ensures
            match r {
                Some(i) => probe_at(self.probes@, name@, 0) == Some(i as int) && i
                    < self.probes@.len(),
                None => probe_at(self.probes@, name@, 0) is None,
            },
    {
        let mut i: usize = 0;
        while i < self.probes.len()
            invariant
                i <= self.probes@.len(),
                probe_at(self.probes@, name@, 0) == probe_at(self.probes@, name@, i as int),
            decreases self.probes@.len() - i,
        {
            if same_str(self.probes[i].name.as_str(), name) {
                return Some(i);
            }
            i += 1;
        }
        None
    }

    /// Finds what is known of a file, if both its size and its time are still the same.
    pub fn get(&self, name: &str, size: u64, mtime_ms: u64) -> (r: Option<&T>)
        ensures
            match r {
                Some(info) => self.known(name@) == Some((size, mtime_ms, *info)),
                None => !(self.known(name@) matches Some(k) && k.0 == size && k.1 == mtime_ms),
            },
    {
        match self.find(name) {
            Some(i) => {
                let probe = &self.probes[i];
                if probe.size == size && probe.mtime_ms == mtime_ms {
                    Some(&probe.info)
                } else {
                    None
                }
            },
            None => None,
        }
    }

    /// Remembers what was found out about a file, in place of what was known of it.
    pub fn insert(&mut self, name: String, size: u64, mtime_ms: u64, info: T)
        ensures
            forall|other: Seq<char>| #[trigger]
                final(self).known(other) == if other == name@ {
                    Some((size, mtime_ms, info))
                } else {
                    old(self).known(other)
                },
            old(self).distinct() ==> final(self).distinct(),
    {
        let ghost before = self.probes@;
        let probe = CachedProbe { name, size, mtime_ms, info };
        match self.find(probe.name.as_str()) {
            Some(i) => {
                proof {
                    lemma_probe_at(before, name@, 0);
                }
                self.probes.set(i, probe);
                proof {
                    let after = self.probes@;
                    assert forall|j: int| 0 <= j < after.len() implies (
                    #[trigger] after[j]).name@ == before[j].name@ by {}
                    assert forall|other: Seq<char>| #[trigger]
                        self.known(other) == if other == name@ {
                            Some((size, mtime_ms, info))
                        } else {
                            old(self).known(other)
                        } by {
                        lemma_probe_at(before, other, 0);
                        lemma_probe_at(after, other, 0);
                        if let Some(k) = probe_at(before, other, 0) {
                            assert(after[k].name@ == other);
                            lemma_probe_at_is(after, other, k);
                        } else if let Some(k) = probe_at(after, other, 0) {
                            assert(before[k].name@ == other);
                        }
                    }
                }
            },
            None => {
                self.probes.push(probe);
                proof {
                    let after = self.probes@;
                    lemma_probe_at(before, name@, 0);
                    assert forall|other: Seq<char>| #[trigger]
                        self.known(other) == if other == name@ {
                            Some((size, mtime_ms, info))
                        } else {
                            old(self).known(other)
                        } by {
                        lemma_probe_at(before, other, 0);
                        lemma_probe_at(after, other, 0);
                        if let Some(k) = probe_at(before, other, 0) {
                            assert(after[k] == before[k]);
                            lemma_probe_at_is(after, other, k);
                        } else if other == name@ {
                            lemma_probe_at_is(after, other, before.len() as int);
                        } else if let Some(k) = probe_at(after, other, 0) {
                            assert(before[k].name@ == other);
                        }
                    }
                }
            },
        }
    }
}

/// A time is listed in whole milliseconds, rounded down; one that is not known, lies before the
/// epoch or is out of range is listed as 0.
pub proof fn law_listed_time(t: i128)
    ensures
        0 <= t < 0x1_0000_0000_0000_0000 * 1_000_000 ==> {
            let ms = listed_ms(Some(t));
            ms * 1_000_000 <= t < (ms + 1) * 1_000_000
        },
        t < 0 || t >= 0x1_0000_0000_0000_0000 * 1_000_000 ==> listed_ms(Some(t)) == 0,
        listed_ms(None) == 0,
{
}

/// A file is listed where it can be looked at and its extension is `mkv` or `mp4`, under its own
/// name, with its own size and time.
pub proof fn law_what_is_listed(entry: Entry, base: Seq<char>, ext: Seq<char>)
    requires
        entry.name@ == base + seq!['.'] + ext,
        no_slash(base),
        no_slash(ext),
        no_dot(ext),
        base.len() > 0,
        base != seq!['.'] || ext.len() > 0,
    ensures
        file_of(entry) is Some <==> entry.meta is Some && (alike(ext, "mkv"@) || alike(
            ext,
            "mp4"@,
        )),
        file_of(entry) matches Some(file) ==> {
            &&& file.name == entry.name@
            &&& file.size_bytes == (entry.meta->0).size
            &&& file.modified_ms == listed_ms((entry.meta->0).modified)
        },
{
    law_stem_and_extension(seq![], base, ext, "mkv"@);
    law_stem_and_extension(seq![], base, ext, "mp4"@);
}

/// The files of a given time, in the order in which they stand.
pub open spec fn of_time(files: Seq<RecFileView>, ms: u64) -> Seq<RecFileView>
    decreases files.len(),
{
    if files.len() == 0 {
        seq![]
    } else if files.last().modified_ms == ms {
        of_time(files.drop_last(), ms).push(files.last())
    } else {
        of_time(files.drop_last(), ms)
    }
}

/// The files of a given time among some entries, in the order of the entries.
pub open spec fn entries_of_time(entries: Seq<Entry>, ms: u64) -> Seq<RecFileView>
    decreases entries.len(),
{
    if entries.len() == 0 {
        seq![]
    } else {
        match file_of(entries.last()) {
            Some(f) if f.modified_ms == ms => entries_of_time(entries.drop_last(), ms).push(f),
            _ => entries_of_time(entries.drop_last(), ms),
        }
    }
}

proof fn lemma_placed_of_time(files: Seq<RecFileView>, f: RecFileView, ms: u64)
    ensures
        of_time(placed(files, f), ms) == if f.modified_ms == ms {
            of_time(files, ms).push(f)
        } else {
            of_time(files, ms)
        },
    decreases files.len(),
{
    let out = placed(files, f);
    if files.len() == 0 || files.last().modified_ms >= f.modified_ms {
        assert(out.drop_last() =~= files);
    } else {
        lemma_placed_of_time(files.drop_last(), f, ms);
        assert(out.drop_last() =~= placed(files.drop_last(), f));
    }
}

/// Files of the same time are listed in the order in which they were found.
pub proof fn law_same_time_keeps_order(entries: Seq<Entry>, ms: u64)
    ensures
        of_time(newest_first(entries), ms) == entries_of_time(entries, ms),
    decreases entries.len(),
{
    if entries.len() > 0 {
        law_same_time_keeps_order(entries.drop_last(), ms);
        if let Some(f) = file_of(entries.last()) {
            lemma_placed_of_time(newest_first(entries.drop_last()), f, ms);
        }
    }
}

/// No more than thirty files are listed.
pub proof fn law_thirty_are_listed()
    ensures
        MAX_LISTED == 30,
{
}

/// The file that is being recorded is known by its name alone, whatever directory it stands in.
pub proof fn law_current_file(
    platform: Platform,
    dir: Seq<char>,
    sep: char,
    file: Seq<char>,
    name: Seq<char>,
)
    requires
        parts(sep, platform),
        is_component(file, platform),
        platform == Platform::Windows ==> !like_share(dir),
    ensures
        names_current(platform, Some(dir + seq![sep] + file), name) <==> file == name,
        !names_current(platform, None, name),
{
    law_file_name(dir, sep, file, platform);
}

/// What is no media file by its extension, or cannot be looked at, is not listed.
pub proof fn law_nothing_else_is_listed(entry: Entry)
    ensures
        file_of(entry) is Some <==> entry.meta is Some && (has_extension(entry.name@, "mkv"@)
            || has_extension(entry.name@, "mp4"@)),
{
}

/// What is listed is read file by file, in order.
pub proof fn law_files_are_read(files: Seq<RecFile>, i: int)
    requires
        0 <= i < files.len(),
    ensures
        file_views(files).len() == files.len(),
        file_views(files)[i].name == files[i].name@,
        file_views(files)[i].size_bytes == files[i].size_bytes,
        file_views(files)[i].modified_ms == files[i].modified_ms,
{
}

/// Every refusal is told in words of its own.
pub proof fn law_refusals_are_told_apart(a: FileError, b: FileError)
    requires
        a != b,
    ensures
        a.text() != b.text(),
{
    reveal_strlit("fichier invalide");
    reveal_strlit("fichier introuvable");
    reveal_strlit("enregistrement en cours — arrête-le avant de le supprimer");
    reveal_strlit("fichier à convertir invalide");
    reveal_strlit("fichier à découper invalide");
    assert(a.text().len() != b.text().len());
}

} // verus!
