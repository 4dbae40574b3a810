//! What the two registries send back, and the requests the engine sends
//! them: addresses and query parameters.

use vstd::prelude::*;
use vstd::string::*;
use crate::text::{
    concat3, decimal_digits, decimal_string, eq_ignore_ascii_case, is_blank_str,
    lowercase_of, same_ignoring_ascii_case, str_eq, to_lowercase, trimmed,
};

verus! {

/// A dependency by the id it has in its own registry.
#[derive(Debug, PartialEq, Eq)]
pub struct UnifiedDependency {
    pub mod_id: String,
}

impl DeepView for UnifiedDependency {
    type V = Seq<char>;

    open spec fn deep_view(&self) -> Seq<char> {
        self.mod_id@
    }
}

impl Clone for UnifiedDependency {
    fn clone(&self) -> (r: Self)
        ensures
            r.mod_id@ == self.mod_id@,
    {
        UnifiedDependency { mod_id: self.mod_id.clone() }
    }
}

/// One downloadable file of a version on the primary registry.
#[derive(Debug, PartialEq, Eq)]
pub struct ModFile {
    pub url: String,
    pub filename: String,
}

/// One entry of a version's dependency list on the primary registry.
#[derive(Debug, PartialEq, Eq)]
pub struct ModrinthDependency {
    pub project_id: Option<String>,
    pub dependency_type: String,
}

/// A version of a project on the primary registry.
#[derive(Debug, PartialEq, Eq)]
pub struct ModrinthVersion {
    pub files: Vec<ModFile>,
    pub game_versions: Vec<String>,
    pub loaders: Vec<String>,
    pub dependencies: Option<Vec<ModrinthDependency>>,
    pub version_number: String,
}

/// One hit of a search on the primary registry.
#[derive(Debug, PartialEq, Eq)]
pub struct ModrinthSearchHit {
    pub project_id: String,
    pub slug: String,
    pub title: String,
    pub description: Option<String>,
    pub icon_url: Option<String>,
    pub author: String,
}

/// The logo of a project on the secondary registry.
#[derive(Debug, PartialEq, Eq)]
pub struct CurseLogo {
    pub thumbnail_url: String,
}

/// The links of a project on the secondary registry.
#[derive(Debug, PartialEq, Eq)]
pub struct CurseLinks {
    pub website_url: String,
}

/// One hit of a search on the secondary registry.
#[derive(Debug, PartialEq, Eq)]
pub struct CurseMod {
    pub id: u32,
    pub name: String,
    pub slug: String,
    pub summary: Option<String>,
    pub logo: Option<CurseLogo>,
    pub links: Option<CurseLinks>,
}

/// One entry of a file's dependency list on the secondary registry.
#[derive(Debug, PartialEq, Eq)]
pub struct CurseDependency {
    pub mod_id: u32,
    pub relation_type: u32,
}

/// A file of a project on the secondary registry.
#[derive(Debug, PartialEq, Eq)]
pub struct CurseFile {
    pub id: u32,
    pub file_name: String,
    pub download_url: Option<String>,
    pub game_versions: Vec<String>,
    pub mod_loaders: Vec<String>,
    pub dependencies: Vec<CurseDependency>,
}

/// The relation type that marks a dependency of the secondary registry as
/// required.
pub const REQUIRED_RELATION: u32 = 3;

/// The ids of the entries of `deps` that are marked `required` and carry a
/// project id, in their order.
pub open spec fn required_ids(deps: Seq<ModrinthDependency>) -> Seq<Seq<char>>
    decreases deps.len(),
{
    if deps.len() == 0 {
        Seq::empty()
    } else {
        let rest = required_ids(deps.drop_last());
        let d = deps.last();
        if d.dependency_type@ == "required"@ && d.project_id is Some {
            rest.push(d.project_id.unwrap()@)
        } else {
            rest
        }
    }
}

/// The ids, written in decimal, of the entries of `deps` whose relation
/// type is the required one, in their order.
pub open spec fn required_curse_ids(deps: Seq<CurseDependency>) -> Seq<Seq<char>>
    decreases deps.len(),
{
    if deps.len() == 0 {
        Seq::empty()
    } else {
        let rest = required_curse_ids(deps.drop_last());
        let d = deps.last();
        if d.relation_type == REQUIRED_RELATION {
            rest.push(decimal_digits(d.mod_id as nat))
        } else {
            rest
        }
    }
}

impl ModrinthVersion {
    /// The first file of the version, if it has any.
    pub fn first_file(&self) -> (r: Option<&ModFile>)
        ensures
            r == if self.files@.len() > 0 {
                Some(&self.files@[0])
            } else {
                None
            },
    {
        if self.files.len() > 0 {
            Some(&self.files[0])
        } else {
            None
        }
    }

    /// The required dependencies of the version.
    pub fn required_deps(&self) -> (r: Vec<UnifiedDependency>)
        ensures
            r.deep_view() == required_ids(
                match self.dependencies {
                    Some(d) => d@,
                    None => Seq::empty(),
                },
            ),
    {
        let mut out: Vec<UnifiedDependency> = Vec::new();
        match &self.dependencies {
            Some(deps) => {
                let mut i: usize = 0;
                while i < deps.len()
                    invariant
                        i <= deps.len(),
                        out.deep_view() == required_ids(deps@.take(i as int)),
                    decreases deps.len() - i,
                {
                    assert(deps@.take(i + 1).drop_last() =~= deps@.take(i as int));
                    let ghost before = out.deep_view();
                    if str_eq(deps[i].dependency_type.as_str(), "required") {
                        if let Some(id) = &deps[i].project_id {
                            out.push(UnifiedDependency { mod_id: id.clone() });
                            assert(out.deep_view() =~= before.push(id@));
                        }
                    }
                    i += 1;
                }
                assert(deps@.take(deps.len() as int) =~= deps@);
            },
            None => {
                assert(out.deep_view() =~= Seq::<Seq<char>>::empty());
            },
        }
        out
    }
}

impl CurseFile {
    /// The required dependencies of the file.
    pub fn required_deps(&self) -> (r: Vec<UnifiedDependency>)
        ensures
            r.deep_view() == required_curse_ids(self.dependencies@),
    {
        let mut out: Vec<UnifiedDependency> = Vec::new();
        assert(out.deep_view() =~= Seq::<Seq<char>>::empty());
        let mut i: usize = 0;
        while i < self.dependencies.len()
            invariant
                i <= self.dependencies.len(),
                out.deep_view() == required_curse_ids(self.dependencies@.take(i as int)),
            decreases self.dependencies.len() - i,
        {
            assert(self.dependencies@.take(i + 1).drop_last() =~= self.dependencies@.take(i as int));
            let ghost before = out.deep_view();
            if self.dependencies[i].relation_type == REQUIRED_RELATION {
                let id = decimal_string(self.dependencies[i].mod_id as u64);
                let ghost text = id@;
                out.push(UnifiedDependency { mod_id: id });
                assert(out.deep_view() =~= before.push(text));
            }
            i += 1;
        }
        assert(self.dependencies@.take(self.dependencies.len() as int) =~= self.dependencies@);
        out
    }
}

/// The id of the first hit of a search on the secondary registry.
pub fn first_project_id(results: &Vec<CurseMod>) -> (r: Option<u32>)
    ensures
        r == if results@.len() > 0 {
            Some(results@[0].id)
        } else {
            None
        },
{
    if results.len() > 0 {
        Some(results[0].id)
    } else {
        None
    }
}

/// The first of the versions that the primary registry lists for a
/// project, if it lists any.
pub fn first_version(versions: Vec<ModrinthVersion>) -> (r: Option<ModrinthVersion>)
    ensures
        r == if versions@.len() > 0 {
            Some(versions@[0])
        } else {
            None
        },
{
    let mut versions = versions;
    if versions.len() > 0 {
        Some(versions.remove(0))
    } else {
        None
    }
}

/// The first of the files that the secondary registry lists for a
/// project, if it lists any.
pub fn first_curse_file(files: Vec<CurseFile>) -> (r: Option<CurseFile>)
    ensures
        r == if files@.len() > 0 {
            Some(files@[0])
        } else {
            None
        },
{
    let mut files = files;
    if files.len() > 0 {
        Some(files.remove(0))
    } else {
        None
    }
}

/// The numeric code the secondary registry uses for a mod loader, matched
/// without regard to the case of ASCII letters; `None` for a name it does
/// not know.
pub open spec fn loader_code_of(loader: Seq<char>) -> Option<u32> {
    if same_ignoring_ascii_case(loader, "any"@) {
        Some(0u32)
    } else if same_ignoring_ascii_case(loader, "forge"@) {
        Some(1u32)
    } else if same_ignoring_ascii_case(loader, "cauldron"@) {
        Some(2u32)
    } else if same_ignoring_ascii_case(loader, "liteloader"@) {
        Some(3u32)
    } else if same_ignoring_ascii_case(loader, "fabric"@) {
        Some(4u32)
    } else if same_ignoring_ascii_case(loader, "quilt"@) {
        Some(5u32)
    } else if same_ignoring_ascii_case(loader, "neoforge"@) {
        Some(6u32)
    } else {
        None
    }
}

/// The code used in file queries when the loader's name is not known.
pub const DEFAULT_LOADER_CODE: u32 = 4;

/// Maps a loader's name to the secondary registry's code.
pub fn curse_loader_code(loader: &str) -> (code: Option<u32>)
    ensures
        code == loader_code_of(loader@),
{
    if eq_ignore_ascii_case(loader, "any") {
        Some(0)
    } else if eq_ignore_ascii_case(loader, "forge") {
        Some(1)
    } else if eq_ignore_ascii_case(loader, "cauldron") {
        Some(2)
    } else if eq_ignore_ascii_case(loader, "liteloader") {
        Some(3)
    } else if eq_ignore_ascii_case(loader, "fabric") {
        Some(4)
    } else if eq_ignore_ascii_case(loader, "quilt") {
        Some(5)
    } else if eq_ignore_ascii_case(loader, "neoforge") {
        Some(6)
    } else {
        None
    }
}

/// The loader code for a file query: an unknown name counts as fabric.
pub fn curse_file_loader_code(loader: &str) -> (code: u32)
    ensures
        code == match loader_code_of(loader@) {
            Some(c) => c,
            None => DEFAULT_LOADER_CODE,
        },
{
    match curse_loader_code(loader) {
        Some(c) => c,
        None => DEFAULT_LOADER_CODE,
    }
}

/// A request to a registry: the address and the query parameters, in the
/// order in which they are sent.
#[derive(Debug, PartialEq, Eq)]
pub struct RegistryRequest {
    pub url: String,
    pub params: Vec<(String, String)>,
}

/// Mathematical value of a [`RegistryRequest`].
pub ghost struct RequestView {
    pub url: Seq<char>,
    pub params: Seq<(Seq<char>, Seq<char>)>,
}

impl View for RegistryRequest {
    type V = RequestView;

    open spec fn view(&self) -> RequestView {
        RequestView { url: self.url@, params: self.params.deep_view() }
    }
}

/// The compact JSON text of a list of strings, as `serde_json` writes it.
pub uninterp spec fn json_string_list(items: Seq<Seq<char>>) -> Seq<char>;

/// Writes a list of strings as a JSON array.
///
/// Wraps `serde_json::Value::from` on a slice, which builds an array of
/// string values, and the value's `to_string`, which writes it as compact
/// JSON. The text depends on the strings alone.
#[verifier::external_body]
pub(crate) fn json_list(items: &Vec<String>) -> (r: String)
    ensures
        r@ == json_string_list(items.deep_view()),
{
    serde_json::Value::from(items.as_slice()).to_string()
}

/// A text is given when it is present and not blank.
pub open spec fn given(o: Option<Seq<char>>) -> bool {
    o matches Some(s) && trimmed(s).len() > 0
}

/// The facets of a search on the primary registry: a list of at most two
/// one-element lists, the game version first, then the loader, given here
/// in lower case. `None` when neither is given.
pub open spec fn facets_text(version: Option<Seq<char>>, loader: Option<Seq<char>>) -> Option<
    Seq<char>,
> {
    let v = "[\"versions:"@ + version.unwrap() + "\"]"@;
    let l = "[\"categories:"@ + loader.unwrap() + "\"]"@;
    if given(version) && loader is Some {
        Some("["@ + v + ","@ + l + "]"@)
    } else if given(version) {
        Some("["@ + v + "]"@)
    } else if loader is Some {
        Some("["@ + l + "]"@)
    } else {
        None
    }
}

/// Builds the facets of a search on the primary registry. `loader` is the
/// loader's name in lower case, present only when a loader was given.
pub fn modrinth_facets(version: &Option<String>, loader: &Option<String>) -> (r: Option<String>)
    ensures
        r.deep_view() == facets_text(version.deep_view(), loader.deep_view()),
{
    let v: Option<String> = match version {
        Some(v) => if !is_blank_str(v.as_str()) {
            Some(concat3("[\"versions:", v.as_str(), "\"]"))
        } else {
            None
        },
        None => None,
    };
    let l: Option<String> = match loader {
        Some(l) => Some(concat3("[\"categories:", l.as_str(), "\"]")),
        None => None,
    };
    match (v, l) {
        (Some(v), Some(l)) => {
            let mut out = concat3("[", v.as_str(), ",");
            out.append(l.as_str());
            out.append("]");
            Some(out)
        },
        (Some(v), None) => Some(concat3("[", v.as_str(), "]")),
        (None, Some(l)) => Some(concat3("[", l.as_str(), "]")),
        (None, None) => None,
    }
}

/// The loader's name in lower case when a loader is given.
pub open spec fn lowered_loader(loader: Option<Seq<char>>) -> Option<Seq<char>> {
    if given(loader) {
        Some(lowercase_of(loader.unwrap()))
    } else {
        None
    }
}

/// A pair of texts.
pub open spec fn pair(k: Seq<char>, v: Seq<char>) -> (Seq<char>, Seq<char>) {
    (k, v)
}

/// The search request for the primary registry.
pub open spec fn modrinth_search_view(
    query: Seq<char>,
    loader: Option<Seq<char>>,
    version: Option<Seq<char>>,
    offset: u32,
    limit: u32,
) -> RequestView {
    let base = seq![
        pair("query"@, query),
        pair("limit"@, decimal_digits(limit as nat)),
        pair("offset"@, decimal_digits(offset as nat)),
    ];
    RequestView {
        url: "https://api.modrinth.com/v2/search"@,
        params: match facets_text(version, lowered_loader(loader)) {
            Some(f) => base.push(pair("facets"@, f)),
            None => base,
        },
    }
}

/// Makes a pair of owned strings.
pub fn param(k: &str, v: &str) -> (p: (String, String))
    ensures
        p.deep_view() == pair(k@, v@),
{
    (String::from_str(k), String::from_str(v))
}

/// Builds the search request for the primary registry: the query, the page
/// and, when a version or a loader is given, the facets.
pub fn modrinth_search_request(
    query: &str,
    loader: &Option<String>,
    version: &Option<String>,
    offset: u32,
    limit: u32,
) -> (r: RegistryRequest)
    ensures
        r@ == modrinth_search_view(query@, loader.deep_view(), version.deep_view(), offset, limit),
{
    let lowered: Option<String> = match loader {
        Some(l) => if !is_blank_str(l.as_str()) {
            Some(to_lowercase(l.as_str()))
        } else {
            None
        },
        None => None,
    };
    let facets = modrinth_facets(version, &lowered);
    let limit_text = decimal_string(limit as u64);
    let offset_text = decimal_string(offset as u64);
    let mut params: Vec<(String, String)> = Vec::new();
    params.push(param("query", query));
    params.push(param("limit", limit_text.as_str()));
    params.push(param("offset", offset_text.as_str()));
    if let Some(f) = facets {
        params.push(param("facets", f.as_str()));
    }
    let r = RegistryRequest { url: String::from_str("https://api.modrinth.com/v2/search"), params };
    assert(r@.params =~= modrinth_search_view(
        query@,
        loader.deep_view(),
        version.deep_view(),
        offset,
        limit,
    ).params);
    r
}

/// The request for a project's title and slug on the primary registry.
pub fn modrinth_project_request(mod_id: &str) -> (r: RegistryRequest)
    ensures
        r@ == (RequestView {
            url: "https://api.modrinth.com/v2/project/"@ + mod_id@,
            params: Seq::empty(),
        }),
{
    let r = RegistryRequest {
        url: concat3("https://api.modrinth.com/v2/project/", mod_id, ""),
        params: Vec::new(),
    };
    proof {
        reveal_strlit("");
        assert(r.url@ =~= "https://api.modrinth.com/v2/project/"@ + mod_id@);
        assert(r@.params =~= Seq::empty());
    }
    r
}

/// The request for the versions of a project on the primary registry that
/// fit a game version and a loader.
pub open spec fn modrinth_version_view(
    mod_id: Seq<char>,
    version: Seq<char>,
    loader: Seq<char>,
) -> RequestView {
    RequestView {
        url: "https://api.modrinth.com/v2/project/"@ + mod_id + "/version"@,
        params: seq![
            pair("loaders"@, json_string_list(seq![lowercase_of(loader)])),
            pair("game_versions"@, json_string_list(seq![version])),
        ],
    }
}

/// Builds the request for the versions of a project on the primary
/// registry: the loader in lower case and the game version, each as a JSON
/// list of one string.
pub fn modrinth_version_request(mod_id: &str, version: &str, loader: &str) -> (r: RegistryRequest)
    ensures
        r@ == modrinth_version_view(mod_id@, version@, loader@),
{
    let mut loaders: Vec<String> = Vec::new();
    loaders.push(to_lowercase(loader));
    let mut versions: Vec<String> = Vec::new();
    versions.push(String::from_str(version));
    assert(loaders.deep_view() =~= seq![lowercase_of(loader@)]);
    assert(versions.deep_view() =~= seq![version@]);
    let loaders_json = json_list(&loaders);
    let versions_json = json_list(&versions);
    let mut params: Vec<(String, String)> = Vec::new();
    params.push(param("loaders", loaders_json.as_str()));
    params.push(param("game_versions", versions_json.as_str()));
    let r = RegistryRequest {
        url: concat3("https://api.modrinth.com/v2/project/", mod_id, "/version"),
        params,
    };
    assert(r@.params =~= modrinth_version_view(mod_id@, version@, loader@).params);
    r
}

/// The game id of Minecraft on the secondary registry.
pub open spec fn curse_game_id() -> Seq<char> {
    "432"@
}

/// The search request for the secondary registry.
pub open spec fn curse_search_view(
    query: Seq<char>,
    loader: Option<Seq<char>>,
    version: Option<Seq<char>>,
    offset: u32,
    limit: u32,
) -> RequestView {
    let base = seq![
        pair("gameId"@, curse_game_id()),
        pair("searchFilter"@, query),
        pair("sortField"@, "2"@),
        pair("sortOrder"@, "desc"@),
        pair("pageSize"@, decimal_digits(limit as nat)),
        pair("index"@, decimal_digits(offset as nat)),
    ];
    let with_version = if given(version) {
        base.push(pair("gameVersion"@, version.unwrap()))
    } else {
        base
    };
    let code = match loader {
        Some(l) => loader_code_of(l),
        None => None,
    };
    RequestView {
        url: "https://api.curseforge.com/v1/mods/search"@,
        params: match code {
            Some(c) => with_version.push(pair("modLoaderType"@, decimal_digits(c as nat))),
            None => with_version,
        },
    }
}

/// Builds the search request for the secondary registry: relevance order,
/// the page, the game version when one is given and the loader's code when
/// the loader is known.
pub fn curse_search_request(
    query: &str,
    loader: &Option<String>,
    version: &Option<String>,
    offset: u32,
    limit: u32,
) -> (r: RegistryRequest)
    ensures
        r@ == curse_search_view(query@, loader.deep_view(), version.deep_view(), offset, limit),
{
    let limit_text = decimal_string(limit as u64);
    let offset_text = decimal_string(offset as u64);
    let mut params: Vec<(String, String)> = Vec::new();
    params.push(param("gameId", "432"));
    params.push(param("searchFilter", query));
    params.push(param("sortField", "2"));
    params.push(param("sortOrder", "desc"));
    params.push(param("pageSize", limit_text.as_str()));
    params.push(param("index", offset_text.as_str()));
    if let Some(v) = version {
        if !is_blank_str(v.as_str()) {
            params.push(param("gameVersion", v.as_str()));
        }
    }
    let code: Option<u32> = match loader {
        Some(l) => curse_loader_code(l.as_str()),
        None => None,
    };
    if let Some(c) = code {
        let code_text = decimal_string(c as u64);
        params.push(param("modLoaderType", code_text.as_str()));
    }
    let r = RegistryRequest {
        url: String::from_str("https://api.curseforge.com/v1/mods/search"),
        params,
    };
    assert(r@.params =~= curse_search_view(
        query@,
        loader.deep_view(),
        version.deep_view(),
        offset,
        limit,
    ).params);
    r
}

/// The request for the files of a project on the secondary registry.
pub open spec fn curse_file_view(mod_id: u32, game_version: Seq<char>, loader: Seq<char>) -> RequestView {
    let code = match loader_code_of(loader) {
        Some(c) => c,
        None => DEFAULT_LOADER_CODE,
    };
    RequestView {
        url: "https://api.curseforge.com/v1/mods/"@ + decimal_digits(mod_id as nat) + "/files"@,
        params: seq![
            pair("gameVersion"@, game_version),
            pair("modLoaderType"@, decimal_digits(code as nat)),
        ],
    }
}

/// Builds the request for the files of a project on the secondary registry
/// that fit a game version and a loader.
pub fn curse_file_request(mod_id: u32, game_version: &str, loader: &str) -> (r: RegistryRequest)
    ensures
        r@ == curse_file_view(mod_id, game_version@, loader@),
{
    let id_text = decimal_string(mod_id as u64);
    let code_text = decimal_string(curse_file_loader_code(loader) as u64);
    let mut params: Vec<(String, String)> = Vec::new();
    params.push(param("gameVersion", game_version));
    params.push(param("modLoaderType", code_text.as_str()));
    let r = RegistryRequest {
        url: concat3("https://api.curseforge.com/v1/mods/", id_text.as_str(), "/files"),
        params,
    };
    assert(r@.params =~= curse_file_view(mod_id, game_version@, loader@).params);
    r
}

} // verus!
