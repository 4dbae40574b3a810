//! The content cache: one table of file rows keyed by file name and one
//! table of project rows keyed by project id.
//!
//! A file row points at its project row, so that facts learned about a
//! project (its confirmed id, the version a registry resolved) are kept
//! once and survive a change of file name.

use vstd::prelude::*;
use crate::models::{
    clone_opt_pairs, clone_opt_string, CachedFile, CachedFileView, CachedProject,
    CachedProjectView, ModInfo, ModInfoView,
};
use crate::text::list_contains;
use crate::text_map::TextMap;

verus! {

/// The id under which a record's project row is kept: the confirmed id if
/// there is one, else the detected id, else the display name.
pub open spec fn project_id_of(info: ModInfoView) -> Seq<char> {
    match info.confirmed_project_id {
        Some(id) => id,
        None => match info.detected_project_id {
            Some(id) => id,
            None => info.name,
        },
    }
}

/// `first` if it is present, else `second`.
pub open spec fn or_else<T>(first: Option<T>, second: Option<T>) -> Option<T> {
    if first is Some {
        first
    } else {
        second
    }
}

/// The project row written for `info` when `existing` is the row already
/// kept under the same id: name and detected id come from `info`; the
/// confirmed id and the remote version come from `info` where it has them
/// and from the existing row where it does not.
pub open spec fn merged_project(
    info: ModInfoView,
    existing: Option<CachedProjectView>,
) -> CachedProjectView {
    CachedProjectView {
        name: info.name,
        detected_project_id: info.detected_project_id,
        confirmed_project_id: match existing {
            Some(row) => or_else(info.confirmed_project_id, row.confirmed_project_id),
            None => info.confirmed_project_id,
        },
        version_remote: match existing {
            Some(row) => or_else(info.version_remote, row.version_remote),
            None => info.version_remote,
        },
    }
}

/// The file row written for `info`.
pub open spec fn file_row_of(info: ModInfoView) -> CachedFileView {
    CachedFileView {
        file_size_bytes: info.file_size_bytes,
        file_mtime_secs: info.file_mtime_secs,
        version_local: info.version_local,
        depends: info.depends,
        project_ref: project_id_of(info),
    }
}

/// The record that a file row and its project row stand for. The selection
/// flag is not kept in the cache and always comes back set.
pub open spec fn materialized(
    filename: Seq<char>,
    file: CachedFileView,
    project: CachedProjectView,
) -> ModInfoView {
    ModInfoView {
        key: filename,
        name: project.name,
        detected_project_id: project.detected_project_id,
        confirmed_project_id: project.confirmed_project_id,
        version_local: file.version_local,
        version_remote: project.version_remote,
        selected: true,
        file_size_bytes: file.file_size_bytes,
        file_mtime_secs: file.file_mtime_secs,
        depends: file.depends,
    }
}

/// A project row with its two remote fields overwritten.
pub open spec fn with_remote(
    project: CachedProjectView,
    confirmed_project_id: Option<Seq<char>>,
    version_remote: Option<Seq<char>>,
) -> CachedProjectView {
    CachedProjectView {
        name: project.name,
        detected_project_id: project.detected_project_id,
        confirmed_project_id,
        version_remote,
    }
}

/// Computes the id under which a record's project row is kept.
pub fn project_id(info: &ModInfo) -> (id: String)
    ensures
        id@ == project_id_of(info@),
{
    match &info.confirmed_project_id {
        Some(id) => id.clone(),
        None => match &info.detected_project_id {
            Some(id) => id.clone(),
            None => info.name.clone(),
        },
    }
}

/// Builds the project row to write for `info`, keeping the remote fields of
/// the existing row where `info` leaves them empty.
pub fn merge_project(info: &ModInfo, existing: Option<&CachedProject>) -> (row: CachedProject)
    ensures
        row@ == merged_project(
            info@,
            match existing {
                Some(e) => Some(e@),
                None => None,
            },
        ),
{
    let mut confirmed = clone_opt_string(&info.confirmed_project_id);
    let mut version_remote = clone_opt_string(&info.version_remote);
    if let Some(e) = existing {
        if confirmed.is_none() {
            confirmed = clone_opt_string(&e.confirmed_project_id);
        }
        if version_remote.is_none() {
            version_remote = clone_opt_string(&e.version_remote);
        }
    }
    CachedProject {
        name: info.name.clone(),
        detected_project_id: clone_opt_string(&info.detected_project_id),
        confirmed_project_id: confirmed,
        version_remote,
    }
}

/// Builds the file row to write for `info`.
pub fn file_row(info: &ModInfo) -> (row: CachedFile)
    ensures
        row@ == file_row_of(info@),
{
    CachedFile {
        file_size_bytes: info.file_size_bytes,
        file_mtime_secs: info.file_mtime_secs,
        version_local: clone_opt_string(&info.version_local),
        depends: clone_opt_pairs(&info.depends),
        project_ref: project_id(info),
    }
}

/// Combines a file row and its project row into a record.
pub fn materialize(filename: &str, file: &CachedFile, project: &CachedProject) -> (info: ModInfo)
    ensures
        info@ == materialized(filename@, file@, project@),
{
    ModInfo {
        key: filename.to_owned(),
        name: project.name.clone(),
        detected_project_id: clone_opt_string(&project.detected_project_id),
        confirmed_project_id: clone_opt_string(&project.confirmed_project_id),
        version_local: clone_opt_string(&file.version_local),
        version_remote: clone_opt_string(&project.version_remote),
        selected: true,
        file_size_bytes: file.file_size_bytes,
        file_mtime_secs: file.file_mtime_secs,
        depends: clone_opt_pairs(&file.depends),
    }
}

/// Overwrites the two remote fields of a project row.
pub fn apply_remote(
    project: &CachedProject,
    confirmed_project_id: Option<String>,
    version_remote: Option<String>,
) -> (row: CachedProject)
    ensures
        row@ == with_remote(
            project@,
            confirmed_project_id.deep_view(),
            version_remote.deep_view(),
        ),
{
    CachedProject {
        name: project.name.clone(),
        detected_project_id: clone_opt_string(&project.detected_project_id),
        confirmed_project_id,
        version_remote,
    }
}

/// Mathematical value of a [`ContentCache`]: its two tables.
pub ghost struct CacheView {
    pub files: Map<Seq<char>, CachedFileView>,
    pub projects: Map<Seq<char>, CachedProjectView>,
}

/// The row kept under `key`, if any.
pub open spec fn row<V>(table: Map<Seq<char>, V>, key: Seq<char>) -> Option<V> {
    if table.dom().contains(key) {
        Some(table[key])
    } else {
        None
    }
}

/// What a lookup of `filename` returns: the record made of the file row and
/// the project row it points at, when both exist.
pub open spec fn cache_get(c: CacheView, filename: Seq<char>) -> Option<ModInfoView> {
    match row(c.files, filename) {
        Some(file) => match row(c.projects, file.project_ref) {
            Some(project) => Some(materialized(filename, file, project)),
            None => None,
        },
        None => None,
    }
}

/// The cache after `info` was stored under `filename`.
pub open spec fn cache_upsert(c: CacheView, filename: Seq<char>, info: ModInfoView) -> CacheView {
    let id = project_id_of(info);
    CacheView {
        files: c.files.insert(filename, file_row_of(info)),
        projects: c.projects.insert(id, merged_project(info, row(c.projects, id))),
    }
}

/// The cache after the remote fields of the project of `filename` were
/// overwritten. Nothing changes when the file or its project is unknown.
pub open spec fn cache_update_remote(
    c: CacheView,
    filename: Seq<char>,
    confirmed_project_id: Option<Seq<char>>,
    version_remote: Option<Seq<char>>,
) -> CacheView {
    match row(c.files, filename) {
        Some(file) => match row(c.projects, file.project_ref) {
            Some(project) => CacheView {
                files: c.files,
                projects: c.projects.insert(
                    file.project_ref,
                    with_remote(project, confirmed_project_id, version_remote),
                ),
            },
            None => c,
        },
        None => c,
    }
}

/// The cache after every file row whose key is not in `valid` was deleted.
/// Project rows stay.
pub open spec fn cache_prune(c: CacheView, valid: Set<Seq<char>>) -> CacheView {
    CacheView { files: c.files.restrict(valid), projects: c.projects }
}

/// The confirmed id kept in the project row under `detected_id`, if any.
pub open spec fn cache_confirmed_id(c: CacheView, detected_id: Seq<char>) -> Option<Seq<char>> {
    match row(c.projects, detected_id) {
        Some(project) => project.confirmed_project_id,
        None => None,
    }
}

/// The two tables of the content cache.
pub struct ContentCache {
    files: TextMap<CachedFile>,
    projects: TextMap<CachedProject>,
}

impl View for ContentCache {
    type V = CacheView;

    closed spec fn view(&self) -> CacheView {
        CacheView {
            files: self.files.map().map_values(|f: CachedFile| f@),
            projects: self.projects.map().map_values(|p: CachedProject| p@),
        }
    }
}

impl ContentCache {
    /// Both tables hold each key once.
    pub closed spec fn wf(&self) -> bool {
        self.files.wf() && self.projects.wf()
    }

    /// A cache with two empty tables.
    pub fn new() -> (c: Self)
        ensures
            c.wf(),
            c@.files == Map::<Seq<char>, CachedFileView>::empty(),
            c@.projects == Map::<Seq<char>, CachedProjectView>::empty(),
    {
        let c = ContentCache { files: TextMap::new(), projects: TextMap::new() };
        assert(c@.files =~= Map::<Seq<char>, CachedFileView>::empty());
        assert(c@.projects =~= Map::<Seq<char>, CachedProjectView>::empty());
        c
    }

    /// The number of file rows.
    pub fn file_count(&self) -> (n: usize)
        requires
            self.wf(),
        ensures
            n == self@.files.dom().len(),
    {
        assert(self@.files.dom() =~= self.files.map().dom());
        self.files.len()
    }

    /// The file row kept under `filename`, if any.
    pub fn file_row(&self, filename: &str) -> (r: Option<&CachedFile>)
        requires
            self.wf(),
        ensures
            match r {
                Some(f) => row(self@.files, filename@) == Some(f@),
                None => row(self@.files, filename@) is None,
            },
    {
        self.files.get(filename)
    }

    /// The project row kept under `id`, if any.
    pub fn project_row(&self, id: &str) -> (r: Option<&CachedProject>)
        requires
            self.wf(),
        ensures
            match r {
                Some(p) => row(self@.projects, id@) == Some(p@),
                None => row(self@.projects, id@) is None,
            },
    {
        self.projects.get(id)
    }

    /// Puts a file row as it is under `filename`, as when the cache is
    /// filled from what was stored.
    pub fn load_file(&mut self, filename: String, file: CachedFile)
        requires
            old(self).wf(),
        ensures
            final(self).wf(),
            final(self)@.files == old(self)@.files.insert(filename@, file@),
            final(self)@.projects == old(self)@.projects,
    {
        let ghost before = self@;
        self.files.insert(filename, file);
        assert(self@.files =~= before.files.insert(filename@, file@));
    }

    /// Puts a project row as it is under `id`, as when the cache is filled
    /// from what was stored.
    pub fn load_project(&mut self, id: String, project: CachedProject)
        requires
            old(self).wf(),
        ensures
            final(self).wf(),
            final(self)@.projects == old(self)@.projects.insert(id@, project@),
            final(self)@.files == old(self)@.files,
    {
        let ghost before = self@;
        self.projects.insert(id, project);
        assert(self@.projects =~= before.projects.insert(id@, project@));
    }

    /// The names under which file rows are kept.
    pub fn file_names(&self) -> (names: Vec<String>)
        requires
            self.wf(),
        ensures
            names.deep_view().to_set() == self@.files.dom(),
            names.len() == self@.files.dom().len(),
    {
        let n = self.files.len();
        let mut names: Vec<String> = Vec::new();
        let mut i: usize = 0;
        while i < n
            invariant
                i <= n,
                self.wf(),
                n == self.files.rows().len(),
                names.len() == i,
                forall|j: int| 0 <= j < i ==> (#[trigger] names@[j])@ == self.files.rows()[j].0@,
            decreases n - i,
        {
            names.push(self.files.key_at(i).clone());
            i += 1;
        }
        proof {
            self.files.lemma_count();
            let rows = self.files.rows();
            let listed = names.deep_view();
            assert forall|k: Seq<char>| listed.to_set().contains(k) <==> self@.files.dom().contains(
                k,
            ) by {
                if listed.to_set().contains(k) {
                    let j = choose|j: int| 0 <= j < listed.len() && listed[j] == k;
                    assert(rows[j].0@ == k);
                    assert(crate::text_map::has_key(rows, k));
                }
                if self@.files.dom().contains(k) {
                    assert(crate::text_map::has_key(rows, k));
                    let j = crate::text_map::row_of(rows, k);
                    assert(listed[j] == k);
                }
            }
            assert(listed.to_set() =~= self@.files.dom());
            assert(self@.files.dom() =~= self.files.map().dom());
        }
        names
    }

    /// The number of project rows.
    pub fn project_count(&self) -> (n: usize)
        requires
            self.wf(),
        ensures
            n == self@.projects.dom().len(),
    {
        assert(self@.projects.dom() =~= self.projects.map().dom());
        self.projects.len()
    }
}

/// Looks up the record stored under `filename`.
pub fn get_mod(cache: &ContentCache, filename: &str) -> (r: Option<ModInfo>)
    requires
        cache.wf(),
    ensures
        r.deep_view() == cache_get(cache@, filename@),
{
    match cache.files.get(filename) {
        Some(file) => match cache.projects.get(file.project_ref.as_str()) {
            Some(project) => Some(materialize(filename, file, project)),
            None => None,
        },
        None => None,
    }
}

/// Stores `info` under `filename`: writes the merged project row under the
/// record's project id and the file row under the file name.
pub fn upsert_mod(cache: &mut ContentCache, filename: &str, info: &ModInfo)
    requires
        old(cache).wf(),
    ensures
        final(cache).wf(),
        final(cache)@ == cache_upsert(old(cache)@, filename@, info@),
{
    let id = project_id(info);
    let project = merge_project(info, cache.projects.get(id.as_str()));
    let file = file_row(info);
    let ghost before = cache@;
    cache.projects.insert(id, project);
    cache.files.insert(filename.to_owned(), file);
    proof {
        let want = cache_upsert(before, filename@, info@);
        assert(cache@.files =~= want.files);
        assert(cache@.projects =~= want.projects);
    }
}

/// Overwrites the confirmed id and the remote version of the project that
/// the file stored under `filename` belongs to.
pub fn update_remote_info(
    cache: &mut ContentCache,
    filename: &str,
    project_id: Option<String>,
    version_remote: Option<String>,
)
    requires
        old(cache).wf(),
    ensures
        final(cache).wf(),
        final(cache)@ == cache_update_remote(
            old(cache)@,
            filename@,
            project_id.deep_view(),
            version_remote.deep_view(),
        ),
{
    let ghost before = cache@;
    let ghost confirmed = project_id.deep_view();
    let ghost version = version_remote.deep_view();
    let target: Option<(String, CachedProject)> = match cache.files.get(filename) {
        Some(file) => match cache.projects.get(file.project_ref.as_str()) {
            Some(project) => Some(
                (file.project_ref.clone(), apply_remote(project, project_id, version_remote)),
            ),
            None => None,
        },
        None => None,
    };
    match target {
        Some((key, project)) => {
            cache.projects.insert(key, project);
            proof {
                let want = cache_update_remote(before, filename@, confirmed, version);
                assert(cache@.files =~= want.files);
                assert(cache@.projects =~= want.projects);
            }
        },
        None => {},
    }
}

/// Deletes every file row whose key is not listed in `valid_filenames` and
/// returns how many were deleted.
pub fn prune_db(cache: &mut ContentCache, valid_filenames: &Vec<String>) -> (removed: usize)
    requires
        old(cache).wf(),
    ensures
        final(cache).wf(),
        final(cache)@ == cache_prune(old(cache)@, valid_filenames.deep_view().to_set()),
        removed == old(cache)@.files.dom().len() - final(cache)@.files.dom().len(),
{
    let ghost before = cache@;
    proof {
        cache.files.lemma_count();
        assert(cache@.files.dom() =~= cache.files.map().dom());
    }
    let removed = cache.files.retain_listed(valid_filenames);
    proof {
        cache.files.lemma_count();
        assert(cache@.files.dom() =~= cache.files.map().dom());
        let want = cache_prune(before, valid_filenames.deep_view().to_set());
        assert(cache@.files =~= want.files);
        assert(cache@.projects =~= want.projects);
    }
    removed
}

/// The names of the file rows that a pruning with `valid` would delete:
/// those under which a row is kept and that are not valid.
pub fn stale_files(cache: &ContentCache, valid: &Vec<String>) -> (r: Vec<String>)
    requires
        cache.wf(),
    ensures
        r.deep_view().to_set() == cache@.files.dom().difference(valid.deep_view().to_set()),
{
    let names = cache.file_names();
    let ghost kept = names.deep_view();
    let ghost wanted = valid.deep_view().to_set();
    let mut stale: Vec<String> = Vec::new();
    let mut i: usize = 0;
    while i < names.len()
        invariant
            i <= names.len(),
            kept == names.deep_view(),
            wanted == valid.deep_view().to_set(),
            forall|k: Seq<char>| #[trigger]
                stale.deep_view().contains(k) <==> (kept.take(i as int).contains(k)
                    && !wanted.contains(k)),
        decreases names.len() - i,
    {
        let ghost before = stale.deep_view();
        let ghost name = names@[i as int]@;
        let ghost head = kept.take(i as int);
        let ghost longer = kept.take(i + 1);
        assert(kept[i as int] == name);
        assert(longer =~= head.push(name));
        assert forall|k: Seq<char>| #[trigger] longer.contains(k) <==> (head.contains(k) || k == name) by {
            if longer.contains(k) {
                let m = choose|m: int| 0 <= m < longer.len() && longer[m] == k;
                if m < head.len() {
                    assert(head[m] == k);
                }
            }
            if head.contains(k) {
                let m = choose|m: int| 0 <= m < head.len() && head[m] == k;
                assert(longer[m] == k);
            }
            if k == name {
                assert(longer[head.len() as int] == k);
            }
        }
        if !list_contains(valid, names[i].as_str()) {
            stale.push(names[i].clone());
            let ghost after = stale.deep_view();
            assert(after =~= before.push(name));
            assert forall|k: Seq<char>| #[trigger] after.contains(k) <==> (longer.contains(k)
                && !wanted.contains(k)) by {
                assert(before.contains(k) <==> (head.contains(k) && !wanted.contains(k)));
                assert(longer.contains(k) <==> (head.contains(k) || k == name));
                if after.contains(k) {
                    let j = choose|j: int| 0 <= j < after.len() && after[j] == k;
                    if j < before.len() {
                        assert(before[j] == k);
                    }
                }
                if before.contains(k) {
                    let j = choose|j: int| 0 <= j < before.len() && before[j] == k;
                    assert(after[j] == k);
                }
                if k == name {
                    assert(after[before.len() as int] == k);
                }
            }
        } else {
            assert forall|k: Seq<char>| #[trigger] before.contains(k) <==> (longer.contains(k)
                && !wanted.contains(k)) by {
                assert(before.contains(k) <==> (head.contains(k) && !wanted.contains(k)));
                assert(longer.contains(k) <==> (head.contains(k) || k == name));
            }
        }
        i += 1;
    }
    proof {
        let found = stale.deep_view();
        assert(kept.take(names.len() as int) =~= kept);
        assert forall|k: Seq<char>| found.to_set().contains(k) <==> cache@.files.dom().difference(
            wanted,
        ).contains(k) by {
            assert(found.to_set().contains(k) == found.contains(k));
            assert(kept.to_set().contains(k) == kept.contains(k));
            assert(found.contains(k) <==> (kept.contains(k) && !wanted.contains(k)));
        }
        assert(found.to_set() =~= cache@.files.dom().difference(wanted));
    }
    stale
}

/// Looks up the confirmed id of the project row kept under `detected_id`.
pub fn get_confirmed_id(cache: &ContentCache, detected_id: &str) -> (r: Option<String>)
    requires
        cache.wf(),
    ensures
        r.deep_view() == cache_confirmed_id(cache@, detected_id@),
{
    match cache.projects.get(detected_id) {
        Some(project) => clone_opt_string(&project.confirmed_project_id),
        None => None,
    }
}

/// The cache after a sequence of stores, applied first to last. Each
/// element is a file name and the record stored under it.
pub open spec fn cache_upsert_all(c: CacheView, stores: Seq<(Seq<char>, ModInfoView)>) -> CacheView
    decreases stores.len(),
{
    if stores.len() == 0 {
        c
    } else {
        cache_upsert(cache_upsert_all(c, stores.drop_last()), stores.last().0, stores.last().1)
    }
}

/// After a record is stored under a file name, a lookup of that name
/// returns the record merged with the project row that was there before:
/// the stored fields, with the confirmed id and the remote version taken
/// from the earlier row where the record has none, under the file name as
/// key and with the selection flag set.
pub proof fn lemma_upsert_then_get(c: CacheView, filename: Seq<char>, info: ModInfoView)
    ensures
        cache_get(cache_upsert(c, filename, info), filename) == Some(
            materialized(
                filename,
                file_row_of(info),
                merged_project(info, row(c.projects, project_id_of(info))),
            ),
        ),
        cache_get(cache_upsert(c, filename, info), filename) matches Some(found) && {
            &&& found.key == filename
            &&& found.name == info.name
            &&& found.detected_project_id == info.detected_project_id
            &&& found.version_local == info.version_local
            &&& found.file_size_bytes == info.file_size_bytes
            &&& found.file_mtime_secs == info.file_mtime_secs
            &&& found.depends == info.depends
            &&& found.selected
            &&& info.confirmed_project_id is Some ==> found.confirmed_project_id
                == info.confirmed_project_id
            &&& info.version_remote is Some ==> found.version_remote == info.version_remote
        },
{
}

/// A confirmed id that a project row holds is still there after any number
/// of stores of records that carry no confirmed id.
pub proof fn lemma_confirmed_id_survives(
    c: CacheView,
    project: Seq<char>,
    stores: Seq<(Seq<char>, ModInfoView)>,
)
    requires
        row(c.projects, project) matches Some(p) && p.confirmed_project_id is Some,
        forall|i: int| 0 <= i < stores.len() ==> (#[trigger] stores[i]).1.confirmed_project_id is None,
    ensures
        row(cache_upsert_all(c, stores).projects, project) matches Some(p) && p.confirmed_project_id
            == c.projects[project].confirmed_project_id,
    decreases stores.len(),
{
    if stores.len() > 0 {
        let front = stores.drop_last();
        assert forall|i: int| 0 <= i < front.len() implies (
        #[trigger] front[i]).1.confirmed_project_id is None by {
            assert(front[i] == stores[i]);
        }
        lemma_confirmed_id_survives(c, project, front);
        assert(stores.last() == stores[stores.len() - 1]);
    }
}

/// Storing a record under one file name leaves the record of any other
/// file as it was, as long as the store leaves that file's project row as
/// it was. It does so whenever the two files belong to different projects.
pub proof fn lemma_upsert_leaves_other_files(
    c: CacheView,
    filename: Seq<char>,
    info: ModInfoView,
    other: Seq<char>,
)
    requires
        other != filename,
        row(c.files, other) matches Some(file) ==> row(
            cache_upsert(c, filename, info).projects,
            file.project_ref,
        ) == row(c.projects, file.project_ref),
    ensures
        cache_get(cache_upsert(c, filename, info), other) == cache_get(c, other),
{
}

/// A store changes no project row but the one of the record's own project,
/// so it leaves the record of a file of another project as it was.
pub proof fn lemma_upsert_leaves_other_projects(
    c: CacheView,
    filename: Seq<char>,
    info: ModInfoView,
    project: Seq<char>,
)
    requires
        project != project_id_of(info),
    ensures
        row(cache_upsert(c, filename, info).projects, project) == row(c.projects, project),
{
}

/// A store deletes nothing: a file that had a record still has one, with
/// the same file row, whatever became of its project row.
pub proof fn lemma_upsert_keeps_other_files(
    c: CacheView,
    filename: Seq<char>,
    info: ModInfoView,
    other: Seq<char>,
)
    requires
        other != filename,
        cache_get(c, other) is Some,
    ensures
        cache_get(cache_upsert(c, filename, info), other) matches Some(found) && {
            &&& found.file_size_bytes == cache_get(c, other).unwrap().file_size_bytes
            &&& found.file_mtime_secs == cache_get(c, other).unwrap().file_mtime_secs
        },
{
}

/// Pruning deletes exactly the file rows whose key is not valid: a file row
/// is there afterwards if and only if it was there before under a valid
/// key, it is unchanged, and no project row is touched.
pub proof fn lemma_prune_exact(c: CacheView, valid: Set<Seq<char>>)
    ensures
        forall|k: Seq<char>| #[trigger]
            cache_prune(c, valid).files.dom().contains(k) <==> c.files.dom().contains(k)
                && valid.contains(k),
        forall|k: Seq<char>| #[trigger]
            cache_prune(c, valid).files.dom().contains(k) ==> cache_prune(c, valid).files[k]
                == c.files[k],
        cache_prune(c, valid).projects == c.projects,
{
}

} // verus!
