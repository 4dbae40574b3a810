//! Scanning a directory of mod archives.
//!
//! The caller lists the directory and reads the files; the scanner decides.
//! A file whose size and modification time are those of its cached row is
//! served from the cache. Any other file gets a placeholder record and is
//! handed back as a parse job; when the caller has read the archive, the
//! result is merged with what the cache knew, stored, and put in place of
//! the placeholder.

use vstd::prelude::*;
use vstd::string::*;
use crate::assoc::with_entry;
use crate::cache::{
    cache_get, cache_upsert, get_mod, lemma_upsert_then_get, upsert_mod, CacheView, ContentCache,
};
use crate::models::{ModInfo, ModInfoView};
use crate::ordered::{index_entries, index_insert, index_new};
use crate::parsers::ReadError;
use crate::sorting::{sort_by_name, sorted_by_name, FileStat, StatView};
use crate::text::{chars_of, ends_with, has_suffix, slice_to_vec, str_eq, string_of};

verus! {

/// A file name is that of a mod archive when it ends in `.jar` or `.zip`
/// after at least one other character.
pub open spec fn is_archive_name(name: Seq<char>) -> bool {
    name.len() > 4 && (has_suffix(name, ".jar"@) || has_suffix(name, ".zip"@))
}

/// Whether a file name is that of a mod archive.
pub fn is_mod_archive(name: &str) -> (b: bool)
    ensures
        b == is_archive_name(name@),
{
    let n = chars_of(name);
    let jar = chars_of(".jar");
    let zip = chars_of(".zip");
    n.len() > 4 && (ends_with(n.as_slice(), jar.as_slice()) || ends_with(
        n.as_slice(),
        zip.as_slice(),
    ))
}

/// The name shown for an archive of which nothing but its file name is
/// known: the file name without its last four characters, the extension.
pub open spec fn name_from_filename(filename: Seq<char>) -> Seq<char> {
    if filename.len() > 4 {
        filename.take(filename.len() - 4)
    } else {
        filename
    }
}

/// The record of an archive of which only the directory entry is known.
pub open spec fn placeholder(stat: StatView) -> ModInfoView {
    ModInfoView {
        key: stat.filename,
        name: name_from_filename(stat.filename),
        detected_project_id: None,
        confirmed_project_id: None,
        version_local: None,
        version_remote: None,
        selected: true,
        file_size_bytes: Some(stat.size_bytes),
        file_mtime_secs: Some(stat.mtime_secs),
        depends: None,
    }
}

/// Builds the record of an archive of which only the directory entry is
/// known.
pub fn minimal_record(stat: &FileStat) -> (r: ModInfo)
    ensures
        r@ == placeholder(stat@),
{
    let chars = chars_of(stat.filename.as_str());
    let name = if chars.len() > 4 {
        let head = slice_to_vec(chars.as_slice(), 0, chars.len() - 4);
        string_of(head.as_slice())
    } else {
        stat.filename.clone()
    };
    ModInfo {
        key: stat.filename.clone(),
        name,
        detected_project_id: None,
        confirmed_project_id: None,
        version_local: None,
        version_remote: None,
        selected: true,
        file_size_bytes: Some(stat.size_bytes),
        file_mtime_secs: Some(stat.mtime_secs),
        depends: None,
    }
}

/// A cached record is fresh when it carries the size and the modification
/// time of the file on disk.
pub open spec fn is_fresh(cached: ModInfoView, stat: StatView) -> bool {
    cached.file_size_bytes == Some(stat.size_bytes) && cached.file_mtime_secs == Some(
        stat.mtime_secs,
    )
}

/// The cached record of a file, if it has one and that is fresh.
pub open spec fn fresh_record(c: CacheView, stat: StatView) -> Option<ModInfoView> {
    match cache_get(c, stat.filename) {
        Some(cached) => if is_fresh(cached, stat) {
            Some(cached)
        } else {
            None
        },
        None => None,
    }
}

/// The record a scan shows for a file before any archive is read: the
/// fresh cached record, else the placeholder.
pub open spec fn first_record(c: CacheView, stat: StatView) -> ModInfoView {
    match fresh_record(c, stat) {
        Some(cached) => cached,
        None => placeholder(stat),
    }
}

/// What the scan decides for one file.
#[derive(Debug, PartialEq, Eq)]
pub enum ScanDecision {
    /// The cache is fresh; this is the record.
    Cached(ModInfo),
    /// The archive has to be read; this is the placeholder shown meanwhile.
    Parse(ModInfo),
}

/// Decides for one file whether its cached record can be used.
pub fn plan_entry(cache: &ContentCache, stat: &FileStat) -> (d: ScanDecision)
    requires
        cache.wf(),
    ensures
        match d {
            ScanDecision::Cached(r) => fresh_record(cache@, stat@) == Some(r@),
            ScanDecision::Parse(r) => fresh_record(cache@, stat@) is None && r@ == placeholder(
                stat@,
            ),
        },
{
    match get_mod(cache, stat.filename.as_str()) {
        Some(cached) => {
            let size_ok = match cached.file_size_bytes {
                Some(s) => s == stat.size_bytes,
                None => false,
            };
            let mtime_ok = match cached.file_mtime_secs {
                Some(m) => m == stat.mtime_secs,
                None => false,
            };
            if size_ok && mtime_ok {
                ScanDecision::Cached(cached)
            } else {
                ScanDecision::Parse(minimal_record(stat))
            }
        },
        None => ScanDecision::Parse(minimal_record(stat)),
    }
}

/// A freshly parsed record with the size and modification time of its
/// file.
pub open spec fn with_stat(info: ModInfoView, stat: StatView) -> ModInfoView {
    ModInfoView {
        file_size_bytes: Some(stat.size_bytes),
        file_mtime_secs: Some(stat.mtime_secs),
        ..info
    }
}

/// A freshly parsed record with what the cache knew of the same file: the
/// confirmed id, the remote version and the selection, when the cached
/// record has the same key.
pub open spec fn kept_remote(info: ModInfoView, prior: Option<ModInfoView>) -> ModInfoView {
    match prior {
        Some(old) => if old.key == info.key {
            ModInfoView {
                confirmed_project_id: old.confirmed_project_id,
                version_remote: old.version_remote,
                selected: old.selected,
                ..info
            }
        } else {
            info
        },
        None => info,
    }
}

/// The record that is stored for a freshly parsed archive.
pub open spec fn to_store(c: CacheView, stat: StatView, parsed: ModInfoView) -> ModInfoView {
    kept_remote(with_stat(parsed, stat), cache_get(c, stat.filename))
}

/// The cache and the record after the archive of a file was read. A
/// record that was parsed is merged, stored, and shown as the cache now
/// returns it. A file that gave no record stays out of the cache and is
/// shown by its placeholder.
pub open spec fn finished(c: CacheView, stat: StatView, parsed: Option<ModInfoView>) -> (
    CacheView,
    ModInfoView,
) {
    match parsed {
        Some(p) => {
            let after = cache_upsert(c, stat.filename, to_store(c, stat, p));
            (after, cache_get(after, stat.filename).unwrap())
        },
        None => (c, placeholder(stat)),
    }
}

/// The outcome of reading an archive, as a value.
pub open spec fn parsed_view(parsed: Result<ModInfo, ReadError>) -> Option<ModInfoView> {
    match parsed {
        Ok(info) => Some(info@),
        Err(_) => None,
    }
}

/// Takes the outcome of reading the archive of a file: stores a parsed
/// record and returns the record to show.
pub fn finish_entry(cache: &mut ContentCache, stat: &FileStat, parsed: Result<ModInfo, ReadError>) -> (r:
    ModInfo)
    requires
        old(cache).wf(),
    ensures
        final(cache).wf(),
        (final(cache)@, r@) == finished(old(cache)@, stat@, parsed_view(parsed)),
{
    match parsed {
        Ok(info) => {
            let prior = get_mod(cache, stat.filename.as_str());
            let mut record = info;
            record.file_size_bytes = Some(stat.size_bytes);
            record.file_mtime_secs = Some(stat.mtime_secs);
            if let Some(old_record) = prior {
                if str_eq(old_record.key.as_str(), record.key.as_str()) {
                    record.confirmed_project_id = old_record.confirmed_project_id;
                    record.version_remote = old_record.version_remote;
                    record.selected = old_record.selected;
                }
            }
            proof {
                lemma_upsert_then_get(cache@, stat.filename@, record@);
            }
            upsert_mod(cache, stat.filename.as_str(), &record);
            match get_mod(cache, stat.filename.as_str()) {
                Some(stored) => stored,
                None => record,
            }
        },
        Err(_) => minimal_record(stat),
    }
}

/// The entries a scan shows for a listing, before any archive is read: one
/// for each archive, in the listing's order, under the file name.
pub open spec fn scan_entries(c: CacheView, stats: Seq<StatView>) -> Seq<(Seq<char>, ModInfoView)>
    decreases stats.len(),
{
    if stats.len() == 0 {
        Seq::empty()
    } else {
        let rest = scan_entries(c, stats.drop_last());
        let s = stats.last();
        if is_archive_name(s.filename) {
            with_entry(rest, s.filename, first_record(c, s))
        } else {
            rest
        }
    }
}

/// The files of a listing whose archive has to be read, in the listing's
/// order.
pub open spec fn scan_jobs(c: CacheView, stats: Seq<StatView>) -> Seq<StatView>
    decreases stats.len(),
{
    if stats.len() == 0 {
        Seq::empty()
    } else {
        let rest = scan_jobs(c, stats.drop_last());
        let s = stats.last();
        if is_archive_name(s.filename) && fresh_record(c, s) is None {
            rest.push(s)
        } else {
            rest
        }
    }
}

/// Plans the scan of a listing that is already in order: the map of
/// records to show, and the files to read.
pub fn plan_sorted(cache: &ContentCache, listing: &Vec<FileStat>) -> (r: (
    indexmap::IndexMap<String, ModInfo>,
    Vec<FileStat>,
))
    requires
        cache.wf(),
    ensures
        index_entries(r.0) == scan_entries(cache@, listing.deep_view()),
        r.1.deep_view() == scan_jobs(cache@, listing.deep_view()),
{
    let mut map = index_new();
    let mut jobs: Vec<FileStat> = Vec::new();
    assert(jobs.deep_view() =~= Seq::<StatView>::empty());
    let mut i: usize = 0;
    while i < listing.len()
        invariant
            i <= listing.len(),
            cache.wf(),
            index_entries(map) == scan_entries(cache@, listing.deep_view().take(i as int)),
            jobs.deep_view() == scan_jobs(cache@, listing.deep_view().take(i as int)),
        decreases listing.len() - i,
    {
        let stat = &listing[i];
        assert(listing.deep_view().take(i + 1).drop_last() =~= listing.deep_view().take(i as int));
        assert(listing.deep_view().take(i + 1).last() == stat@);
        if is_mod_archive(stat.filename.as_str()) {
            match plan_entry(cache, stat) {
                ScanDecision::Cached(record) => {
                    index_insert(&mut map, stat.filename.clone(), record);
                },
                ScanDecision::Parse(record) => {
                    index_insert(&mut map, stat.filename.clone(), record);
                    let ghost before = jobs.deep_view();
                    jobs.push(stat.clone());
                    assert(jobs.deep_view() =~= before.push(stat@));
                },
            }
        }
        i += 1;
    }
    assert(listing.deep_view().take(listing.len() as int) =~= listing.deep_view());
    (map, jobs)
}

/// Plans the scan of a directory from its listing, in whatever order the
/// listing came: the records are shown in the order of the file names.
pub fn read_mods_in_folder(cache: &ContentCache, listing: Vec<FileStat>) -> (r: (
    indexmap::IndexMap<String, ModInfo>,
    Vec<FileStat>,
))
    requires
        cache.wf(),
    ensures
        exists|sorted: Seq<StatView>|
            {
                &&& sorted_by_name(sorted)
                &&& sorted.to_multiset() == listing.deep_view().to_multiset()
                &&& index_entries(r.0) == #[trigger] scan_entries(cache@, sorted)
                &&& r.1.deep_view() == scan_jobs(cache@, sorted)
            },
{
    let sorted = sort_by_name(listing);
    plan_sorted(cache, &sorted)
}

/// Takes the outcome of reading the archive of a file during a scan: the
/// cache is updated and the record to show takes the place of the file's
/// placeholder in the map.
pub fn apply_parsed(
    map: &mut indexmap::IndexMap<String, ModInfo>,
    cache: &mut ContentCache,
    stat: &FileStat,
    parsed: Result<ModInfo, ReadError>,
)
    requires
        old(cache).wf(),
    ensures
        final(cache).wf(),
        final(cache)@ == finished(old(cache)@, stat@, parsed_view(parsed)).0,
        index_entries(*final(map)) == with_entry(
            index_entries(*old(map)),
            stat@.filename,
            finished(old(cache)@, stat@, parsed_view(parsed)).1,
        ),
{
    let record = finish_entry(cache, stat, parsed);
    index_insert(map, stat.filename.clone(), record);
}

/// Every record a scan shows carries the size and the modification time
/// of the file it stands for: the cached record because it is fresh, the
/// placeholder and the parsed record because they were given them.
pub proof fn lemma_records_match_files(c: CacheView, stat: StatView, parsed: Option<ModInfoView>)
    ensures
        is_fresh(first_record(c, stat), stat),
        is_fresh(finished(c, stat, parsed).1, stat),
        finished(c, stat, parsed).1.key == stat.filename,
{
    match parsed {
        Some(p) => {
            lemma_upsert_then_get(c, stat.filename, to_store(c, stat, p));
        },
        None => {},
    }
}

/// A file whose archive was read and gave a record is served from the
/// cache from then on: as long as the file does not change, a scan shows
/// the same record for it and asks for no reading.
pub proof fn lemma_rescan_is_cached(c: CacheView, stat: StatView, parsed: ModInfoView)
    ensures
        fresh_record(finished(c, stat, Some(parsed)).0, stat) == Some(
            finished(c, stat, Some(parsed)).1,
        ),
        first_record(finished(c, stat, Some(parsed)).0, stat) == finished(c, stat, Some(parsed)).1,
{
    lemma_upsert_then_get(c, stat.filename, to_store(c, stat, parsed));
}

/// The store that reading the archive of `stat` causes leaves the project
/// row of the file `other` as it was.
pub open spec fn keeps_project_row(
    c: CacheView,
    stat: StatView,
    parsed: Option<ModInfoView>,
    other: StatView,
) -> bool {
    crate::cache::row(c.files, other.filename) matches Some(file) ==> crate::cache::row(
        finished(c, stat, parsed).0.projects,
        file.project_ref,
    ) == crate::cache::row(c.projects, file.project_ref)
}

/// A store leaves the project row of a file as it was when the record
/// stored belongs to another project than that file, and also when it
/// belongs to the same project and the merged row is the row that was
/// there.
pub proof fn lemma_keeps_project_row(c: CacheView, stat: StatView, parsed: ModInfoView, other: StatView)
    requires
        crate::cache::row(c.files, other.filename) matches Some(file) ==> {
            let stored = to_store(c, stat, parsed);
            let id = crate::cache::project_id_of(stored);
            file.project_ref != id || crate::cache::row(c.projects, id) == Some(
                crate::cache::merged_project(stored, crate::cache::row(c.projects, id)),
            )
        },
    ensures
        keeps_project_row(c, stat, Some(parsed), other),
{
    let stored = to_store(c, stat, parsed);
    let id = crate::cache::project_id_of(stored);
    match crate::cache::row(c.files, other.filename) {
        Some(file) => {
            if file.project_ref != id {
                crate::cache::lemma_upsert_leaves_other_projects(
                    c,
                    stat.filename,
                    stored,
                    file.project_ref,
                );
            }
        },
        None => {},
    }
}

/// Reading the archive of one file does not change what a scan shows for
/// another file, as long as the store leaves the project row of that
/// other file as it was.
pub proof fn lemma_other_files_stay(
    c: CacheView,
    stat: StatView,
    parsed: Option<ModInfoView>,
    other: StatView,
)
    requires
        other.filename != stat.filename,
        keeps_project_row(c, stat, parsed, other),
    ensures
        first_record(finished(c, stat, parsed).0, other) == first_record(c, other),
        fresh_record(finished(c, stat, parsed).0, other) == fresh_record(c, other),
{
    match parsed {
        Some(p) => {
            crate::cache::lemma_upsert_leaves_other_files(
                c,
                stat.filename,
                to_store(c, stat, p),
                other.filename,
            );
        },
        None => {},
    }
}

/// Reading the archive of one file leaves every other file that had a
/// fresh record with a fresh record, whatever projects the files belong
/// to.
pub proof fn lemma_other_files_stay_fresh(
    c: CacheView,
    stat: StatView,
    parsed: Option<ModInfoView>,
    other: StatView,
)
    requires
        other.filename != stat.filename,
        fresh_record(c, other) is Some,
    ensures
        fresh_record(finished(c, stat, parsed).0, other) is Some,
{
    match parsed {
        Some(p) => {
            crate::cache::lemma_upsert_keeps_other_files(
                c,
                stat.filename,
                to_store(c, stat, p),
                other.filename,
            );
        },
        None => {},
    }
}

/// An archive without a description that can be read is shown under the
/// name taken from its file name, with no dependencies, and the cache is
/// left as it was.
pub proof fn lemma_unreadable_archive(c: CacheView, stat: StatView)
    ensures
        finished(c, stat, None).0 == c,
        finished(c, stat, None).1.name == name_from_filename(stat.filename),
        finished(c, stat, None).1.depends is None,
        finished(c, stat, None).1.key == stat.filename,
{
}

/// An archive to read.
#[derive(Debug, PartialEq, Eq)]
pub struct ReadJob {
    pub file_path: String,
}

/// How the reading of an archive ended.
#[derive(Debug, PartialEq, Eq)]
pub enum ReadEvent {
    Done { info: ModInfo },
    Error { path: String, msg: String },
}

/// Mathematical value of a [`ReadEvent`].
pub ghost enum ReadEventView {
    Done { info: ModInfoView },
    Error { path: Seq<char>, msg: Seq<char> },
}

impl View for ReadEvent {
    type V = ReadEventView;

    open spec fn view(&self) -> ReadEventView {
        match self {
            ReadEvent::Done { info } => ReadEventView::Done { info: info@ },
            ReadEvent::Error { path, msg } => ReadEventView::Error { path: path@, msg: msg@ },
        }
    }
}

/// The event that reports how the reading of an archive ended: the record
/// it gave, or the path of the file with the reason why it gave none.
pub fn read_event(job: &ReadJob, parsed: Result<ModInfo, ReadError>) -> (e: ReadEvent)
    ensures
        e@ == match parsed {
            Ok(info) => ReadEventView::Done { info: info@ },
            Err(ReadError::NotAnArchive) => ReadEventView::Error {
                path: job.file_path@,
                msg: "not a valid ZIP archive"@,
            },
            Err(ReadError::NoMetadata) => ReadEventView::Error {
                path: job.file_path@,
                msg: "no mod metadata found (neither fabric.mod.json nor META-INF/mods.toml)"@,
            },
        },
{
    match parsed {
        Ok(info) => ReadEvent::Done { info },
        Err(e) => ReadEvent::Error { path: job.file_path.clone(), msg: e.message() },
    }
}

} // verus!
