//! The records the engine works on: a mod archive found on disk and its two
//! persistent rows, one per file and one per project.

use vstd::prelude::*;
use vstd::string::*;
use crate::text::str_eq;

verus! {

/// Mathematical value of a [`ModInfo`].
pub ghost struct ModInfoView {
    pub key: Seq<char>,
    pub name: Seq<char>,
    pub detected_project_id: Option<Seq<char>>,
    pub confirmed_project_id: Option<Seq<char>>,
    pub version_local: Option<Seq<char>>,
    pub version_remote: Option<Seq<char>>,
    pub selected: bool,
    pub file_size_bytes: Option<u64>,
    pub file_mtime_secs: Option<u64>,
    pub depends: Option<Seq<(Seq<char>, Seq<char>)>>,
}

/// One mod archive as the engine sees it.
///
/// `key` is the file name, unique within a profile directory. The pair
/// `(file_size_bytes, file_mtime_secs)` is the freshness fingerprint.
/// `depends` lists `(mod id, version constraint)` pairs.
#[derive(Debug, PartialEq, Eq)]
pub struct ModInfo {
    pub key: String,
    pub name: String,
    pub detected_project_id: Option<String>,
    pub confirmed_project_id: Option<String>,
    pub version_local: Option<String>,
    pub version_remote: Option<String>,
    pub selected: bool,
    pub file_size_bytes: Option<u64>,
    pub file_mtime_secs: Option<u64>,
    pub depends: Option<Vec<(String, String)>>,
}

impl View for ModInfo {
    type V = ModInfoView;

    open spec fn view(&self) -> ModInfoView {
        ModInfoView {
            key: self.key@,
            name: self.name@,
            detected_project_id: self.detected_project_id.deep_view(),
            confirmed_project_id: self.confirmed_project_id.deep_view(),
            version_local: self.version_local.deep_view(),
            version_remote: self.version_remote.deep_view(),
            selected: self.selected,
            file_size_bytes: self.file_size_bytes,
            file_mtime_secs: self.file_mtime_secs,
            depends: self.depends.deep_view(),
        }
    }
}

/// The record with every text empty, every option absent and the flag off.
pub open spec fn empty_mod_info() -> ModInfoView {
    ModInfoView {
        key: Seq::empty(),
        name: Seq::empty(),
        detected_project_id: None,
        confirmed_project_id: None,
        version_local: None,
        version_remote: None,
        selected: false,
        file_size_bytes: None,
        file_mtime_secs: None,
        depends: None,
    }
}

/// Copies an optional string.
pub fn clone_opt_string(o: &Option<String>) -> (r: Option<String>)
    ensures
        r.deep_view() == o.deep_view(),
{
    match o {
        Some(s) => Some(s.clone()),
        None => None,
    }
}

/// Copies a list of string pairs.
pub fn clone_pairs(v: &Vec<(String, String)>) -> (r: Vec<(String, String)>)
    ensures
        r.deep_view() == v.deep_view(),
{
    let mut r: Vec<(String, String)> = Vec::new();
    let mut i: usize = 0;
    while i < v.len()
        invariant
            i <= v.len(),
            r.len() == i,
            forall|j: int| 0 <= j < i ==> r@[j].deep_view() == v@[j].deep_view(),
        decreases v.len() - i,
    {
        r.push((v[i].0.clone(), v[i].1.clone()));
        i += 1;
    }
    assert(r.deep_view() =~= v.deep_view());
    r
}

/// Copies an optional list of string pairs.
pub fn clone_opt_pairs(o: &Option<Vec<(String, String)>>) -> (r: Option<Vec<(String, String)>>)
    ensures
        r.deep_view() == o.deep_view(),
{
    match o {
        Some(v) => Some(clone_pairs(v)),
        None => None,
    }
}

impl DeepView for ModInfo {
    type V = ModInfoView;

    open spec fn deep_view(&self) -> ModInfoView {
        self@
    }
}

impl Clone for ModInfo {
    fn clone(&self) -> (r: Self)
        ensures
            r@ == self@,
    {
        ModInfo {
            key: self.key.clone(),
            name: self.name.clone(),
            detected_project_id: clone_opt_string(&self.detected_project_id),
            confirmed_project_id: clone_opt_string(&self.confirmed_project_id),
            version_local: clone_opt_string(&self.version_local),
            version_remote: clone_opt_string(&self.version_remote),
            selected: self.selected,
            file_size_bytes: self.file_size_bytes,
            file_mtime_secs: self.file_mtime_secs,
            depends: clone_opt_pairs(&self.depends),
        }
    }
}

impl Default for ModInfo {
    fn default() -> (r: Self)
        ensures
            r@ == empty_mod_info(),
    {
        ModInfo {
            key: String::new(),
            name: String::new(),
            detected_project_id: None,
            confirmed_project_id: None,
            version_local: None,
            version_remote: None,
            selected: false,
            file_size_bytes: None,
            file_mtime_secs: None,
            depends: None,
        }
    }
}

/// Mathematical value of a [`CachedProject`].
pub ghost struct CachedProjectView {
    pub name: Seq<char>,
    pub detected_project_id: Option<Seq<char>>,
    pub confirmed_project_id: Option<Seq<char>>,
    pub version_remote: Option<Seq<char>>,
}

/// What the cache keeps once per project, under the project's id.
#[derive(Debug, PartialEq, Eq)]
pub struct CachedProject {
    pub name: String,
    pub detected_project_id: Option<String>,
    pub confirmed_project_id: Option<String>,
    pub version_remote: Option<String>,
}

impl View for CachedProject {
    type V = CachedProjectView;

    open spec fn view(&self) -> CachedProjectView {
        CachedProjectView {
            name: self.name@,
            detected_project_id: self.detected_project_id.deep_view(),
            confirmed_project_id: self.confirmed_project_id.deep_view(),
            version_remote: self.version_remote.deep_view(),
        }
    }
}

impl DeepView for CachedProject {
    type V = CachedProjectView;

    open spec fn deep_view(&self) -> CachedProjectView {
        self@
    }
}

impl Clone for CachedProject {
    fn clone(&self) -> (r: Self)
        ensures
            r@ == self@,
    {
        CachedProject {
            name: self.name.clone(),
            detected_project_id: clone_opt_string(&self.detected_project_id),
            confirmed_project_id: clone_opt_string(&self.confirmed_project_id),
            version_remote: clone_opt_string(&self.version_remote),
        }
    }
}

/// Mathematical value of a [`CachedFile`].
pub ghost struct CachedFileView {
    pub file_size_bytes: Option<u64>,
    pub file_mtime_secs: Option<u64>,
    pub version_local: Option<Seq<char>>,
    pub depends: Option<Seq<(Seq<char>, Seq<char>)>>,
    pub project_ref: Seq<char>,
}

/// What the cache keeps once per archive, under the file name.
/// `project_ref` is the id of the project row the file belongs to.
#[derive(Debug, PartialEq, Eq)]
pub struct CachedFile {
    pub file_size_bytes: Option<u64>,
    pub file_mtime_secs: Option<u64>,
    pub version_local: Option<String>,
    pub depends: Option<Vec<(String, String)>>,
    pub project_ref: String,
}

impl View for CachedFile {
    type V = CachedFileView;

    open spec fn view(&self) -> CachedFileView {
        CachedFileView {
            file_size_bytes: self.file_size_bytes,
            file_mtime_secs: self.file_mtime_secs,
            version_local: self.version_local.deep_view(),
            depends: self.depends.deep_view(),
            project_ref: self.project_ref@,
        }
    }
}

impl DeepView for CachedFile {
    type V = CachedFileView;

    open spec fn deep_view(&self) -> CachedFileView {
        self@
    }
}

impl Clone for CachedFile {
    fn clone(&self) -> (r: Self)
        ensures
            r@ == self@,
    {
        CachedFile {
            file_size_bytes: self.file_size_bytes,
            file_mtime_secs: self.file_mtime_secs,
            version_local: clone_opt_string(&self.version_local),
            depends: clone_opt_pairs(&self.depends),
            project_ref: self.project_ref.clone(),
        }
    }
}

/// The local version shown for a mod that was not read from a file.
pub open spec fn universal_version() -> Seq<char> {
    "Universal"@
}

impl ModInfo {
    /// The record of a mod picked from a search: it is known by its title,
    /// and the registry's id counts as detected and as confirmed.
    pub fn from_search(name: String, project_id: Option<String>) -> (r: Self)
        ensures
            r@ == (ModInfoView {
                key: name@,
                name: name@,
                detected_project_id: project_id.deep_view(),
                confirmed_project_id: project_id.deep_view(),
                version_local: Some(universal_version()),
                selected: true,
                ..empty_mod_info()
            }),
    {
        ModInfo {
            key: name.clone(),
            name,
            detected_project_id: clone_opt_string(&project_id),
            confirmed_project_id: project_id,
            version_local: Some(String::from_str("Universal")),
            version_remote: None,
            selected: true,
            file_size_bytes: None,
            file_mtime_secs: None,
            depends: None,
        }
    }

    /// The record of a dependency that the expander found: it is known by
    /// its file name; the slug counts as detected id, so that it can be
    /// compared with what is on disk, and the registry's id as confirmed.
    pub fn from_dep(filename: String, name: String, project_id: String, slug: String) -> (r: Self)
        ensures
            r@ == (ModInfoView {
                key: filename@,
                name: name@,
                detected_project_id: Some(slug@),
                confirmed_project_id: Some(project_id@),
                version_local: Some(universal_version()),
                selected: true,
                ..empty_mod_info()
            }),
    {
        ModInfo {
            key: filename,
            name,
            detected_project_id: Some(slug),
            confirmed_project_id: Some(project_id),
            version_local: Some(String::from_str("Universal")),
            version_remote: None,
            selected: true,
            file_size_bytes: None,
            file_mtime_secs: None,
            depends: None,
        }
    }
}

/// One entry of the game's version manifest.
#[derive(Debug, PartialEq, Eq)]
pub struct VersionInfo {
    pub id: String,
    pub version_type: String,
}

/// The game's version manifest.
#[derive(Debug, PartialEq, Eq)]
pub struct VersionManifest {
    pub versions: Vec<VersionInfo>,
}

/// The ids of the entries of a manifest that are releases, in their order.
pub open spec fn release_ids(versions: Seq<VersionInfo>) -> Seq<Seq<char>>
    decreases versions.len(),
{
    if versions.len() == 0 {
        Seq::empty()
    } else {
        let rest = release_ids(versions.drop_last());
        if versions.last().version_type@ == "release"@ {
            rest.push(versions.last().id@)
        } else {
            rest
        }
    }
}

/// The game versions that a manifest offers: its releases.
pub fn get_minecraft_versions(manifest: &VersionManifest) -> (ids: Vec<String>)
    ensures
        ids.deep_view() == release_ids(manifest.versions@),
{
    let mut ids: Vec<String> = Vec::new();
    assert(ids.deep_view() =~= Seq::<Seq<char>>::empty());
    let mut i: usize = 0;
    while i < manifest.versions.len()
        invariant
            i <= manifest.versions.len(),
            ids.deep_view() == release_ids(manifest.versions@.take(i as int)),
        decreases manifest.versions.len() - i,
    {
        assert(manifest.versions@.take(i + 1).drop_last() =~= manifest.versions@.take(i as int));
        let ghost before = ids.deep_view();
        if str_eq(manifest.versions[i].version_type.as_str(), "release") {
            ids.push(manifest.versions[i].id.clone());
            assert(ids.deep_view() =~= before.push(manifest.versions@[i as int].id@));
        }
        i += 1;
    }
    assert(manifest.versions@.take(manifest.versions.len() as int) =~= manifest.versions@);
    ids
}

} // verus!
