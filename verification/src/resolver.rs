//! Finding the file to download for a mod.
//!
//! The resolver is a state machine. It never talks to a registry itself:
//! each step hands out the next request as a [`ResolverAction`], and the
//! caller hands in what the registry answered as a [`ResolverEvent`]. The
//! machine tries one registry first, the primary one unless that is out
//! of capacity, and the other one after it, and finishes with the first
//! file found.

use vstd::prelude::*;
use vstd::string::*;
use crate::registry::{
    curse_file_request, curse_file_view, curse_search_request, curse_search_view,
    modrinth_project_request, modrinth_search_request, modrinth_search_view,
    modrinth_version_request, modrinth_version_view, CurseFile, CurseMod, ModrinthSearchHit,
    ModrinthVersion, RegistryRequest, RequestView, UnifiedDependency,
};
use crate::text::{
    decimal_digits, decimal_string, lowercase_of, lowered_overlap, str_eq, texts_overlap,
    to_lowercase,
};

verus! {

/// The two registries.
#[derive(Debug, Clone, Copy, PartialEq, Eq, Structural)]
pub enum Registry {
    Modrinth,
    CurseForge,
}

/// A file found in a registry: where to get it, what it is called, which
/// version it is and the ids of what it requires.
#[derive(Debug, PartialEq, Eq)]
pub struct FoundFile {
    pub filename: String,
    pub url: String,
    pub version: String,
    pub dependencies: Vec<String>,
}

/// Mathematical value of a [`FoundFile`].
pub ghost struct FoundView {
    pub filename: Seq<char>,
    pub url: Seq<char>,
    pub version: Seq<char>,
    pub dependencies: Seq<Seq<char>>,
}

impl View for FoundFile {
    type V = FoundView;

    open spec fn view(&self) -> FoundView {
        FoundView {
            filename: self.filename@,
            url: self.url@,
            version: self.version@,
            dependencies: self.dependencies.deep_view(),
        }
    }
}

impl DeepView for FoundFile {
    type V = FoundView;

    open spec fn deep_view(&self) -> FoundView {
        self@
    }
}

/// A project that a search returned and that may hold the wanted file.
#[derive(Debug, PartialEq, Eq)]
pub struct Candidate {
    pub project_id: String,
    pub slug: String,
    pub title: String,
}

/// Mathematical value of a [`Candidate`].
pub ghost struct CandidateView {
    pub project_id: Seq<char>,
    pub slug: Seq<char>,
    pub title: Seq<char>,
}

impl View for Candidate {
    type V = CandidateView;

    open spec fn view(&self) -> CandidateView {
        CandidateView { project_id: self.project_id@, slug: self.slug@, title: self.title@ }
    }
}

impl DeepView for Candidate {
    type V = CandidateView;

    open spec fn deep_view(&self) -> CandidateView {
        self@
    }
}

/// The file chosen for download, with the project it belongs to.
#[derive(Debug, PartialEq, Eq)]
pub struct ModDownloadInfo {
    pub filename: String,
    pub url: String,
    pub project_id: String,
    pub version_remote: String,
    pub title: String,
    pub slug: String,
    pub dependencies: Vec<UnifiedDependency>,
}

/// Mathematical value of a [`ModDownloadInfo`].
pub ghost struct InfoView {
    pub filename: Seq<char>,
    pub url: Seq<char>,
    pub project_id: Seq<char>,
    pub version_remote: Seq<char>,
    pub title: Seq<char>,
    pub slug: Seq<char>,
    pub dependencies: Seq<Seq<char>>,
}

impl View for ModDownloadInfo {
    type V = InfoView;

    open spec fn view(&self) -> InfoView {
        InfoView {
            filename: self.filename@,
            url: self.url@,
            project_id: self.project_id@,
            version_remote: self.version_remote@,
            title: self.title@,
            slug: self.slug@,
            dependencies: self.dependencies.deep_view(),
        }
    }
}

impl DeepView for ModDownloadInfo {
    type V = InfoView;

    open spec fn deep_view(&self) -> InfoView {
        self@
    }
}

/// What is looked for: a mod by name, perhaps with an id that may belong
/// to it, for one game version and loader. An empty credential means that
/// the secondary registry cannot be used.
#[derive(Debug, PartialEq, Eq)]
pub struct ResolveQuery {
    pub name: String,
    pub candidate_id: Option<String>,
    pub game_version: String,
    pub loader: String,
    pub credential: String,
}

/// Mathematical value of a [`ResolveQuery`].
pub ghost struct QueryView {
    pub name: Seq<char>,
    pub candidate_id: Option<Seq<char>>,
    pub game_version: Seq<char>,
    pub loader: Seq<char>,
    pub credential: Seq<char>,
}

impl View for ResolveQuery {
    type V = QueryView;

    open spec fn view(&self) -> QueryView {
        QueryView {
            name: self.name@,
            candidate_id: self.candidate_id.deep_view(),
            game_version: self.game_version@,
            loader: self.loader@,
            credential: self.credential@,
        }
    }
}

/// The request the caller is to make next, or the end of the search. File
/// requests are for the query's game version and loader; searches on the
/// primary registry ask for at most [`SEARCH_LIMIT`] hits.
#[derive(Debug, PartialEq, Eq)]
pub enum ResolverAction {
    FetchModrinthVersion { project: String },
    FetchModrinthProject { project: String },
    SearchModrinth { query: String },
    SearchCurse { query: String },
    FetchCurseFile { mod_id: u32 },
    Finish(Option<ModDownloadInfo>),
}

/// Mathematical value of a [`ResolverAction`].
pub ghost enum ActionView {
    FetchModrinthVersion { project: Seq<char> },
    FetchModrinthProject { project: Seq<char> },
    SearchModrinth { query: Seq<char> },
    SearchCurse { query: Seq<char> },
    FetchCurseFile { mod_id: u32 },
    Finish(Option<InfoView>),
}

impl View for ResolverAction {
    type V = ActionView;

    open spec fn view(&self) -> ActionView {
        match self {
            ResolverAction::FetchModrinthVersion { project } => ActionView::FetchModrinthVersion {
                project: project@,
            },
            ResolverAction::FetchModrinthProject { project } => ActionView::FetchModrinthProject {
                project: project@,
            },
            ResolverAction::SearchModrinth { query } => ActionView::SearchModrinth { query: query@ },
            ResolverAction::SearchCurse { query } => ActionView::SearchCurse { query: query@ },
            ResolverAction::FetchCurseFile { mod_id } => ActionView::FetchCurseFile {
                mod_id: *mod_id,
            },
            ResolverAction::Finish(info) => ActionView::Finish(info.deep_view()),
        }
    }
}

/// What a registry answered to the last request.
#[derive(Debug, PartialEq, Eq)]
pub enum ResolverEvent {
    /// The answer to a file request on either registry.
    File(Option<FoundFile>),
    /// The answer to a project request: title and slug.
    Project(Option<(String, String)>),
    /// The answer to a search on the primary registry.
    Hits(Vec<Candidate>),
    /// The answer to a search on the secondary registry: the id of the
    /// first result.
    CurseProject(Option<u32>),
}

/// Mathematical value of a [`ResolverEvent`].
pub ghost enum EventView {
    File(Option<FoundView>),
    Project(Option<(Seq<char>, Seq<char>)>),
    Hits(Seq<CandidateView>),
    CurseProject(Option<u32>),
}

impl View for ResolverEvent {
    type V = EventView;

    open spec fn view(&self) -> EventView {
        match self {
            ResolverEvent::File(f) => EventView::File(f.deep_view()),
            ResolverEvent::Project(p) => EventView::Project(p.deep_view()),
            ResolverEvent::Hits(h) => EventView::Hits(h.deep_view()),
            ResolverEvent::CurseProject(p) => EventView::CurseProject(*p),
        }
    }
}

/// Which answer the machine is waiting for.
#[derive(Debug, Clone, Copy, PartialEq, Eq, Structural)]
pub enum Phase {
    /// The file of the candidate id itself.
    Direct,
    /// Title and slug of the candidate id, after its file was found.
    DirectInfo,
    /// The hits of the search for the candidate id.
    SlugSearch,
    /// The file of one of those hits.
    SlugProbe,
    /// The hits of the search for the name.
    NameSearch,
    /// The file of one of those hits.
    NameProbe,
    /// The first result of the search on the secondary registry.
    CurseSearch,
    /// The file of that result.
    CurseFile,
    /// Nothing: the search is over.
    Finished,
}

/// How many hits of a search on the primary registry are looked at.
pub const SEARCH_LIMIT: usize = 5;

/// The state of a search.
pub struct Resolver {
    query: ResolveQuery,
    primary: Registry,
    on_second: bool,
    phase: Phase,
    candidates: Vec<Candidate>,
    next: usize,
    pending: Option<ModDownloadInfo>,
    curse_project: u32,
}

/// Mathematical value of a [`Resolver`].
pub ghost struct ResolverView {
    pub query: QueryView,
    /// The registry that is tried first.
    pub primary: Registry,
    /// Whether the registry tried first has been given up.
    pub on_second: bool,
    pub phase: Phase,
    /// The hits of the last search that are worth a file request.
    pub candidates: Seq<CandidateView>,
    /// How many of them have been asked for.
    pub next: nat,
    /// The file found for the candidate id, while its title is asked for.
    pub pending: Option<InfoView>,
    /// The project found on the secondary registry.
    pub curse_project: u32,
}

impl View for Resolver {
    type V = ResolverView;

    closed spec fn view(&self) -> ResolverView {
        ResolverView {
            query: self.query@,
            primary: self.primary,
            on_second: self.on_second,
            phase: self.phase,
            candidates: self.candidates.deep_view(),
            next: self.next as nat,
            pending: self.pending.deep_view(),
            curse_project: self.curse_project,
        }
    }
}

/// The registry to try first: the primary one, unless it is out of
/// capacity and the secondary one can be used.
pub open spec fn primary_registry(modrinth_has_capacity: bool, credential: Seq<char>) -> Registry {
    if !modrinth_has_capacity && credential.len() > 0 {
        Registry::CurseForge
    } else {
        Registry::Modrinth
    }
}

/// The other registry.
pub open spec fn other_registry(r: Registry) -> Registry {
    match r {
        Registry::Modrinth => Registry::CurseForge,
        Registry::CurseForge => Registry::Modrinth,
    }
}

/// The registry that a state is working on.
pub open spec fn current_registry(s: ResolverView) -> Registry {
    if s.on_second {
        other_registry(s.primary)
    } else {
        s.primary
    }
}

/// The state with the search over.
pub open spec fn finished(s: ResolverView) -> ResolverView {
    ResolverView { phase: Phase::Finished, candidates: Seq::empty(), next: 0, pending: None, ..s }
}

/// The descriptor of a found file of a project.
pub open spec fn descriptor(
    f: FoundView,
    project_id: Seq<char>,
    title: Seq<char>,
    slug: Seq<char>,
) -> InfoView {
    InfoView {
        filename: f.filename,
        url: f.url,
        project_id,
        version_remote: f.version,
        title,
        slug,
        dependencies: f.dependencies,
    }
}

/// Starting on a registry. On the primary registry the candidate id is
/// asked for first, and the name is searched when there is none. The
/// secondary registry is searched by name, and skipped without a
/// credential.
pub open spec fn enter(s: ResolverView, registry: Registry) -> (ResolverView, ActionView) {
    let base = ResolverView { candidates: Seq::empty(), next: 0, pending: None, ..s };
    match registry {
        Registry::Modrinth => match s.query.candidate_id {
            Some(id) => (
                ResolverView { phase: Phase::Direct, ..base },
                ActionView::FetchModrinthVersion { project: id },
            ),
            None => (
                ResolverView { phase: Phase::NameSearch, ..base },
                ActionView::SearchModrinth { query: s.query.name },
            ),
        },
        Registry::CurseForge => if s.query.credential.len() == 0 {
            leave(base)
        } else {
            (
                ResolverView { phase: Phase::CurseSearch, ..base },
                ActionView::SearchCurse { query: s.query.name },
            )
        },
    }
}

/// Giving up the registry at hand: the other one is next if it has not
/// been tried, else the search ends without a file.
pub open spec fn leave(s: ResolverView) -> (ResolverView, ActionView) {
    if s.on_second {
        (finished(s), ActionView::Finish(None))
    } else {
        let t = ResolverView { on_second: true, candidates: Seq::empty(), next: 0, pending: None, ..s };
        match other_registry(s.primary) {
            Registry::Modrinth => match s.query.candidate_id {
                Some(id) => (
                    ResolverView { phase: Phase::Direct, ..t },
                    ActionView::FetchModrinthVersion { project: id },
                ),
                None => (
                    ResolverView { phase: Phase::NameSearch, ..t },
                    ActionView::SearchModrinth { query: s.query.name },
                ),
            },
            Registry::CurseForge => if s.query.credential.len() == 0 {
                (finished(t), ActionView::Finish(None))
            } else {
                (
                    ResolverView { phase: Phase::CurseSearch, ..t },
                    ActionView::SearchCurse { query: s.query.name },
                )
            },
        }
    }
}

/// Asking for the file of the next candidate. When none is left, the name
/// search follows the probes of the slug search, and the registry is given
/// up after the probes of the name search.
pub open spec fn probe_next(s: ResolverView) -> (ResolverView, ActionView) {
    if s.next < s.candidates.len() {
        (s, ActionView::FetchModrinthVersion { project: s.candidates[s.next as int].project_id })
    } else if s.phase == Phase::SlugProbe {
        (
            ResolverView { phase: Phase::NameSearch, candidates: Seq::empty(), next: 0, ..s },
            ActionView::SearchModrinth { query: s.query.name },
        )
    } else {
        leave(s)
    }
}

/// Two titles overlap when, in lower case, one contains the other.
pub open spec fn titles_overlap(a: Seq<char>, b: Seq<char>) -> bool {
    lowered_overlap(lowercase_of(a), lowercase_of(b))
}

/// A hit of the search for the candidate id is worth a probe when its slug
/// is that id.
pub open spec fn slug_matches(q: QueryView, c: CandidateView) -> bool {
    q.candidate_id == Some(c.slug)
}

/// A hit of the search for the name is worth a probe when its slug is the
/// candidate id or its title overlaps with the name.
pub open spec fn name_matches(q: QueryView, c: CandidateView) -> bool {
    slug_matches(q, c) || titles_overlap(q.name, c.title)
}

/// A hit is worth a probe: by its slug after the search for the candidate
/// id, by slug or title after the search for the name.
pub open spec fn probe_worthy(q: QueryView, c: CandidateView, by_name: bool) -> bool {
    if by_name {
        name_matches(q, c)
    } else {
        slug_matches(q, c)
    }
}

/// The hits that are worth a probe, in their order.
pub open spec fn keep_worthy(q: QueryView, hits: Seq<CandidateView>, by_name: bool) -> Seq<
    CandidateView,
>
    decreases hits.len(),
{
    if hits.len() == 0 {
        Seq::empty()
    } else {
        let rest = keep_worthy(q, hits.drop_last(), by_name);
        if probe_worthy(q, hits.last(), by_name) {
            rest.push(hits.last())
        } else {
            rest
        }
    }
}

/// The first [`SEARCH_LIMIT`] of the hits.
pub open spec fn looked_at(hits: Seq<CandidateView>) -> Seq<CandidateView> {
    if hits.len() > SEARCH_LIMIT {
        hits.take(SEARCH_LIMIT as int)
    } else {
        hits
    }
}

/// The hits among the first [`SEARCH_LIMIT`] that are worth a probe, in
/// their order.
pub open spec fn worth_probing(q: QueryView, hits: Seq<CandidateView>, by_name: bool) -> Seq<
    CandidateView,
> {
    keep_worthy(q, looked_at(hits), by_name)
}

/// No more hits are kept than there are.
pub proof fn lemma_keep_worthy_len(q: QueryView, hits: Seq<CandidateView>, by_name: bool)
    ensures
        keep_worthy(q, hits, by_name).len() <= hits.len(),
    decreases hits.len(),
{
    if hits.len() > 0 {
        lemma_keep_worthy_len(q, hits.drop_last(), by_name);
    }
}

/// The hits that an event carries; any other event counts as no hits.
pub open spec fn hits_of(e: EventView) -> Seq<CandidateView> {
    match e {
        EventView::Hits(h) => h,
        _ => Seq::empty(),
    }
}

/// The file that an event carries; any other event counts as no file.
pub open spec fn file_of(e: EventView) -> Option<FoundView> {
    match e {
        EventView::File(f) => f,
        _ => None,
    }
}

/// One step of the search: the state after the answer `e` to the request
/// that was handed out last, and what to do next.
pub open spec fn step_of(s: ResolverView, e: EventView) -> (ResolverView, ActionView) {
    match s.phase {
        Phase::Direct => match file_of(e) {
            Some(f) => {
                let id = s.query.candidate_id.unwrap();
                (
                    ResolverView {
                        phase: Phase::DirectInfo,
                        pending: Some(descriptor(f, id, f.filename, id)),
                        ..s
                    },
                    ActionView::FetchModrinthProject { project: id },
                )
            },
            None => (
                ResolverView { phase: Phase::SlugSearch, ..s },
                ActionView::SearchModrinth { query: s.query.candidate_id.unwrap() },
            ),
        },
        Phase::DirectInfo => match s.pending {
            Some(found) => match e {
                EventView::Project(Some((title, slug))) => (
                    finished(s),
                    ActionView::Finish(Some(InfoView { title, slug, ..found })),
                ),
                _ => (finished(s), ActionView::Finish(Some(found))),
            },
            None => (finished(s), ActionView::Finish(None)),
        },
        Phase::SlugSearch => probe_next(
            ResolverView {
                phase: Phase::SlugProbe,
                candidates: worth_probing(s.query, hits_of(e), false),
                next: 0,
                ..s
            },
        ),
        Phase::NameSearch => probe_next(
            ResolverView {
                phase: Phase::NameProbe,
                candidates: worth_probing(s.query, hits_of(e), true),
                next: 0,
                ..s
            },
        ),
        Phase::SlugProbe | Phase::NameProbe => if s.next < s.candidates.len() {
            match file_of(e) {
                Some(f) => {
                    let c = s.candidates[s.next as int];
                    (
                        finished(s),
                        ActionView::Finish(Some(descriptor(f, c.project_id, c.title, c.slug))),
                    )
                },
                None => probe_next(ResolverView { next: s.next + 1, ..s }),
            }
        } else {
            probe_next(s)
        },
        Phase::CurseSearch => match e {
            EventView::CurseProject(Some(id)) => (
                ResolverView { phase: Phase::CurseFile, curse_project: id, ..s },
                ActionView::FetchCurseFile { mod_id: id },
            ),
            _ => leave(s),
        },
        Phase::CurseFile => match file_of(e) {
            Some(f) => {
                let id = decimal_digits(s.curse_project as nat);
                (finished(s), ActionView::Finish(Some(descriptor(f, id, s.query.name, id))))
            },
            None => leave(s),
        },
        Phase::Finished => (finished(s), ActionView::Finish(None)),
    }
}

/// The state a search starts in.
pub open spec fn initial(q: QueryView, modrinth_has_capacity: bool) -> ResolverView {
    ResolverView {
        query: q,
        primary: primary_registry(modrinth_has_capacity, q.credential),
        on_second: false,
        phase: Phase::Finished,
        candidates: Seq::empty(),
        next: 0,
        pending: None,
        curse_project: 0,
    }
}

/// The first state of a search and its first request.
pub open spec fn start_of(q: QueryView, modrinth_has_capacity: bool) -> (ResolverView, ActionView) {
    let s = initial(q, modrinth_has_capacity);
    enter(s, s.primary)
}

/// A state is consistent: the probes stay within the candidates, of which
/// there are at most [`SEARCH_LIMIT`], and the phases of the primary
/// registry that ask for the candidate id have one.
pub open spec fn state_wf(s: ResolverView) -> bool {
    &&& s.next <= s.candidates.len() <= SEARCH_LIMIT
    &&& (s.phase == Phase::Direct || s.phase == Phase::DirectInfo || s.phase == Phase::SlugSearch
        || s.phase == Phase::SlugProbe) ==> s.query.candidate_id is Some
    &&& s.phase == Phase::DirectInfo ==> s.pending is Some
    &&& (s.phase == Phase::SlugProbe || s.phase == Phase::NameProbe) ==> s.next < s.candidates.len()
    &&& (s.phase == Phase::CurseSearch || s.phase == Phase::CurseFile) ==> {
        &&& current_registry(s) == Registry::CurseForge
        &&& s.query.credential.len() > 0
    }
    &&& (s.phase != Phase::CurseSearch && s.phase != Phase::CurseFile && s.phase
        != Phase::Finished) ==> current_registry(s) == Registry::Modrinth
}

/// Copies a candidate.
pub fn clone_candidate(c: &Candidate) -> (r: Candidate)
    ensures
        r@ == c@,
{
    Candidate { project_id: c.project_id.clone(), slug: c.slug.clone(), title: c.title.clone() }
}

/// The dependencies of a descriptor, from their ids.
pub fn to_dependencies(ids: Vec<String>) -> (r: Vec<UnifiedDependency>)
    ensures
        r.deep_view() == ids.deep_view(),
{
    let ghost all = ids.deep_view();
    let ghost raw = ids@;
    let mut r: Vec<UnifiedDependency> = Vec::new();
    for id in it: ids.into_iter()
        invariant
            it.seq() == raw,
            all.len() == raw.len(),
            forall|j: int| 0 <= j < raw.len() ==> all[j] == (#[trigger] raw[j])@,
            r.len() == it.index(),
            forall|j: int| 0 <= j < r.len() ==> (#[trigger] r@[j]).mod_id@ == all[j],
    {
        r.push(UnifiedDependency { mod_id: id });
    }
    assert(r.deep_view() =~= all);
    r
}

/// Builds the descriptor of a found file of a project.
pub fn make_descriptor(f: FoundFile, project_id: String, title: String, slug: String) -> (r:
    ModDownloadInfo)
    ensures
        r@ == descriptor(f@, project_id@, title@, slug@),
{
    ModDownloadInfo {
        filename: f.filename,
        url: f.url,
        project_id,
        version_remote: f.version,
        title,
        slug,
        dependencies: to_dependencies(f.dependencies),
    }
}

/// What a version of the primary registry offers for download: its first
/// file, under the version's number, with its required dependencies.
pub open spec fn found_in_version(v: ModrinthVersion) -> Option<FoundView> {
    if v.files@.len() > 0 {
        Some(
            FoundView {
                filename: v.files@[0].filename@,
                url: v.files@[0].url@,
                version: v.version_number@,
                dependencies: crate::registry::required_ids(
                    match v.dependencies {
                        Some(d) => d@,
                        None => Seq::empty(),
                    },
                ),
            },
        )
    } else {
        None
    }
}

/// What a file of the secondary registry offers for download, if it has an
/// address: the file under its own name as version, with its required
/// dependencies.
pub open spec fn found_in_curse_file(f: CurseFile) -> Option<FoundView> {
    match f.download_url {
        Some(url) => Some(
            FoundView {
                filename: f.file_name@,
                url: url@,
                version: f.file_name@,
                dependencies: crate::registry::required_curse_ids(f.dependencies@),
            },
        ),
        None => None,
    }
}

/// Turns dependencies into the list of their ids.
pub fn dependency_ids(deps: Vec<UnifiedDependency>) -> (r: Vec<String>)
    ensures
        r.deep_view() == deps.deep_view(),
{
    let ghost all = deps.deep_view();
    let ghost raw = deps@;
    let mut r: Vec<String> = Vec::new();
    for d in it: deps.into_iter()
        invariant
            it.seq() == raw,
            all.len() == raw.len(),
            forall|j: int| 0 <= j < raw.len() ==> all[j] == (#[trigger] raw[j]).mod_id@,
            r.len() == it.index(),
            forall|j: int| 0 <= j < r.len() ==> (#[trigger] r@[j])@ == all[j],
    {
        r.push(d.mod_id);
    }
    assert(r.deep_view() =~= all);
    r
}

/// Reads the answer to a file request on the primary registry: no version,
/// or a version without files, is no file.
pub fn modrinth_file_event(version: Option<ModrinthVersion>) -> (e: ResolverEvent)
    ensures
        e@ == EventView::File(
            match version {
                Some(v) => found_in_version(v),
                None => None,
            },
        ),
{
    match version {
        Some(v) => {
            let deps = dependency_ids(v.required_deps());
            match v.first_file() {
                Some(file) => ResolverEvent::File(
                    Some(
                        FoundFile {
                            filename: file.filename.clone(),
                            url: file.url.clone(),
                            version: v.version_number.clone(),
                            dependencies: deps,
                        },
                    ),
                ),
                None => ResolverEvent::File(None),
            }
        },
        None => ResolverEvent::File(None),
    }
}

/// Reads the answer to a file request on the secondary registry: no file,
/// or a file without an address, is no file.
pub fn curse_file_event(file: Option<CurseFile>) -> (e: ResolverEvent)
    ensures
        e@ == EventView::File(
            match file {
                Some(f) => found_in_curse_file(f),
                None => None,
            },
        ),
{
    match file {
        Some(f) => {
            let deps = dependency_ids(f.required_deps());
            match f.download_url {
                Some(url) => ResolverEvent::File(
                    Some(
                        FoundFile {
                            filename: f.file_name.clone(),
                            url,
                            version: f.file_name,
                            dependencies: deps,
                        },
                    ),
                ),
                None => ResolverEvent::File(None),
            }
        },
        None => ResolverEvent::File(None),
    }
}

/// The candidate that stands for a hit of the primary registry.
pub open spec fn candidate_of(hit: ModrinthSearchHit) -> CandidateView {
    CandidateView { project_id: hit.project_id@, slug: hit.slug@, title: hit.title@ }
}

/// Reads the answer to a search on the primary registry.
pub fn modrinth_hits_event(hits: Vec<ModrinthSearchHit>) -> (e: ResolverEvent)
    ensures
        e@ == EventView::Hits(hits@.map_values(|h: ModrinthSearchHit| candidate_of(h))),
{
    let ghost raw = hits@;
    let mut out: Vec<Candidate> = Vec::new();
    for hit in it: hits.into_iter()
        invariant
            it.seq() == raw,
            out.len() == it.index(),
            forall|j: int| 0 <= j < out.len() ==> (#[trigger] out@[j])@ == candidate_of(raw[j]),
    {
        out.push(Candidate { project_id: hit.project_id, slug: hit.slug, title: hit.title });
    }
    assert(out.deep_view() =~= raw.map_values(|h: ModrinthSearchHit| candidate_of(h)));
    ResolverEvent::Hits(out)
}

/// Reads the answer to a search on the secondary registry.
pub fn curse_search_event(results: &Vec<CurseMod>) -> (e: ResolverEvent)
    ensures
        e@ == EventView::CurseProject(
            if results@.len() > 0 {
                Some(results@[0].id)
            } else {
                None
            },
        ),
{
    ResolverEvent::CurseProject(crate::registry::first_project_id(results))
}

impl Resolver {
    /// The state is consistent.
    pub open spec fn wf(&self) -> bool {
        state_wf(self@)
    }

    /// The query of the search.
    pub fn query(&self) -> (q: &ResolveQuery)
        ensures
            q@ == self@.query,
    {
        &self.query
    }

    /// Whether the search is over.
    pub fn is_finished(&self) -> (b: bool)
        ensures
            b == (self@.phase == Phase::Finished),
    {
        self.phase == Phase::Finished
    }

    /// The registry that is tried first.
    pub fn primary(&self) -> (r: Registry)
        ensures
            r == self@.primary,
    {
        self.primary
    }

    fn clear(&mut self)
        ensures
            final(self)@ == (ResolverView {
                candidates: Seq::empty(),
                next: 0,
                pending: None,
                ..old(self)@
            }),
    {
        self.candidates = Vec::new();
        self.next = 0;
        self.pending = None;
        assert(self.candidates.deep_view() =~= Seq::<CandidateView>::empty());
    }

    fn finish(&mut self, found: Option<ModDownloadInfo>) -> (action: ResolverAction)
        ensures
            final(self)@ == finished(old(self)@),
            action@ == ActionView::Finish(found.deep_view()),
    {
        self.clear();
        self.phase = Phase::Finished;
        ResolverAction::Finish(found)
    }

    fn begin_modrinth(&mut self) -> (action: ResolverAction)
        ensures
            (final(self)@, action@) == enter(old(self)@, Registry::Modrinth),
    {
        self.clear();
        match &self.query.candidate_id {
            Some(id) => {
                let project = id.clone();
                self.phase = Phase::Direct;
                ResolverAction::FetchModrinthVersion { project }
            },
            None => {
                self.phase = Phase::NameSearch;
                ResolverAction::SearchModrinth { query: self.query.name.clone() }
            },
        }
    }

    fn give_up(&mut self) -> (action: ResolverAction)
        ensures
            (final(self)@, action@) == leave(old(self)@),
    {
        if self.on_second {
            self.finish(None)
        } else {
            self.on_second = true;
            match self.primary {
                Registry::CurseForge => self.begin_modrinth(),
                Registry::Modrinth => {
                    if self.query.credential.as_str().unicode_len() == 0 {
                        self.finish(None)
                    } else {
                        self.clear();
                        self.phase = Phase::CurseSearch;
                        ResolverAction::SearchCurse { query: self.query.name.clone() }
                    }
                },
            }
        }
    }

    fn begin(&mut self, registry: Registry) -> (action: ResolverAction)
        ensures
            (final(self)@, action@) == enter(old(self)@, registry),
    {
        match registry {
            Registry::Modrinth => self.begin_modrinth(),
            Registry::CurseForge => {
                self.clear();
                if self.query.credential.as_str().unicode_len() == 0 {
                    self.give_up()
                } else {
                    self.phase = Phase::CurseSearch;
                    ResolverAction::SearchCurse { query: self.query.name.clone() }
                }
            },
        }
    }

    fn probe(&mut self) -> (action: ResolverAction)
        ensures
            (final(self)@, action@) == probe_next(old(self)@),
    {
        if self.next < self.candidates.len() {
            assert(self.candidates.deep_view()[self.next as int] == self.candidates@[self.next as int]@);
            ResolverAction::FetchModrinthVersion {
                project: self.candidates[self.next].project_id.clone(),
            }
        } else if self.phase == Phase::SlugProbe {
            self.candidates = Vec::new();
            self.next = 0;
            self.phase = Phase::NameSearch;
            assert(self.candidates.deep_view() =~= Seq::<CandidateView>::empty());
            ResolverAction::SearchModrinth { query: self.query.name.clone() }
        } else {
            self.give_up()
        }
    }

    fn is_worthy(&self, c: &Candidate, lowered_name: &str, by_name: bool) -> (b: bool)
        requires
            lowered_name@ == lowercase_of(self@.query.name),
        ensures
            b == probe_worthy(self@.query, c@, by_name),
    {
        let by_slug = match &self.query.candidate_id {
            Some(id) => str_eq(id.as_str(), c.slug.as_str()),
            None => false,
        };
        if by_slug {
            true
        } else if by_name {
            let lowered_title = to_lowercase(c.title.as_str());
            texts_overlap(lowered_name, lowered_title.as_str())
        } else {
            false
        }
    }

    fn select(&self, hits: Vec<Candidate>, by_name: bool) -> (kept: Vec<Candidate>)
        ensures
            kept.deep_view() == worth_probing(self@.query, hits.deep_view(), by_name),
            kept.len() <= SEARCH_LIMIT,
    {
        let lowered_name = to_lowercase(self.query.name.as_str());
        let ghost all = hits.deep_view();
        let ghost raw = hits@;
        let ghost q = self@.query;
        let mut kept: Vec<Candidate> = Vec::new();
        assert(kept.deep_view() =~= Seq::<CandidateView>::empty());
        let mut seen: usize = 0;
        for c in it: hits.into_iter()
            invariant
                it.seq() == raw,
                all.len() == raw.len(),
                forall|j: int| 0 <= j < raw.len() ==> all[j] == (#[trigger] raw[j])@,
                q == self@.query,
                lowered_name@ == lowercase_of(q.name),
                seen == (if it.index() < SEARCH_LIMIT {
                    it.index()
                } else {
                    SEARCH_LIMIT as int
                }),
                kept.deep_view() == keep_worthy(q, all.take(seen as int), by_name),
                kept.len() <= seen,
        {
            if seen < SEARCH_LIMIT {
                assert(all.take(seen + 1).drop_last() =~= all.take(seen as int));
                assert(all.take(seen + 1).last() == c@);
                let ghost before = kept.deep_view();
                if self.is_worthy(&c, lowered_name.as_str(), by_name) {
                    kept.push(c);
                    assert(kept.deep_view() =~= before.push(c@));
                }
                seen += 1;
            }
        }
        proof {
            if all.len() <= SEARCH_LIMIT {
                assert(all.take(seen as int) =~= all);
            }
        }
        kept
    }

    /// Starts a search. `modrinth_has_capacity` says whether the primary
    /// registry has capacity now; when it has none and a credential is
    /// set, the secondary registry is tried first.
    pub fn start(query: ResolveQuery, modrinth_has_capacity: bool) -> (r: (Self, ResolverAction))
        ensures
            (r.0@, r.1@) == start_of(query@, modrinth_has_capacity),
            r.0.wf(),
    {
        let primary = if !modrinth_has_capacity && query.credential.as_str().unicode_len() > 0 {
            Registry::CurseForge
        } else {
            Registry::Modrinth
        };
        let mut s = Resolver {
            query,
            primary,
            on_second: false,
            phase: Phase::Finished,
            candidates: Vec::new(),
            next: 0,
            pending: None,
            curse_project: 0,
        };
        assert(s.candidates.deep_view() =~= Seq::<CandidateView>::empty());
        let action = s.begin(primary);
        (s, action)
    }

    /// Takes the answer to the last request and hands out the next one.
    /// An answer of a kind that was not asked for counts as empty.
    pub fn step(&mut self, event: ResolverEvent) -> (action: ResolverAction)
        requires
            old(self).wf(),
        ensures
            (final(self)@, action@) == step_of(old(self)@, event@),
            final(self).wf(),
    {
        proof {
            lemma_step_keeps_wf(self@, event@);
        }
        match self.phase {
            Phase::Direct => {
                let found: Option<FoundFile> = match event {
                    ResolverEvent::File(f) => f,
                    _ => None,
                };
                let id: String = match &self.query.candidate_id {
                    Some(id) => id.clone(),
                    None => String::new(),
                };
                match found {
                    Some(f) => {
                        let title = f.filename.clone();
                        self.pending = Some(make_descriptor(f, id.clone(), title, id.clone()));
                        self.phase = Phase::DirectInfo;
                        ResolverAction::FetchModrinthProject { project: id }
                    },
                    None => {
                        self.phase = Phase::SlugSearch;
                        ResolverAction::SearchModrinth { query: id }
                    },
                }
            },
            Phase::DirectInfo => {
                let pending = self.pending.take();
                match pending {
                    Some(found) => match event {
                        ResolverEvent::Project(Some((title, slug))) => {
                            let named = ModDownloadInfo {
                                filename: found.filename,
                                url: found.url,
                                project_id: found.project_id,
                                version_remote: found.version_remote,
                                title,
                                slug,
                                dependencies: found.dependencies,
                            };
                            self.finish(Some(named))
                        },
                        _ => self.finish(Some(found)),
                    },
                    None => self.finish(None),
                }
            },
            Phase::SlugSearch => {
                let hits: Vec<Candidate> = match event {
                    ResolverEvent::Hits(h) => h,
                    _ => Vec::new(),
                };
                assert(event@ !is Hits ==> hits.deep_view() =~= Seq::<CandidateView>::empty());
                self.candidates = self.select(hits, false);
                self.next = 0;
                self.phase = Phase::SlugProbe;
                self.probe()
            },
            Phase::NameSearch => {
                let hits: Vec<Candidate> = match event {
                    ResolverEvent::Hits(h) => h,
                    _ => Vec::new(),
                };
                assert(event@ !is Hits ==> hits.deep_view() =~= Seq::<CandidateView>::empty());
                self.candidates = self.select(hits, true);
                self.next = 0;
                self.phase = Phase::NameProbe;
                self.probe()
            },
            Phase::SlugProbe | Phase::NameProbe => {
                if self.next < self.candidates.len() {
                    let found: Option<FoundFile> = match event {
                        ResolverEvent::File(f) => f,
                        _ => None,
                    };
                    match found {
                        Some(f) => {
                            assert(self.candidates.deep_view()[self.next as int]
                                == self.candidates@[self.next as int]@);
                            let c = clone_candidate(&self.candidates[self.next]);
                            let info = make_descriptor(f, c.project_id, c.title, c.slug);
                            self.finish(Some(info))
                        },
                        None => {
                            self.next = self.next + 1;
                            self.probe()
                        },
                    }
                } else {
                    self.probe()
                }
            },
            Phase::CurseSearch => match event {
                ResolverEvent::CurseProject(Some(id)) => {
                    self.curse_project = id;
                    self.phase = Phase::CurseFile;
                    ResolverAction::FetchCurseFile { mod_id: id }
                },
                _ => self.give_up(),
            },
            Phase::CurseFile => {
                let found: Option<FoundFile> = match event {
                    ResolverEvent::File(f) => f,
                    _ => None,
                };
                match found {
                    Some(f) => {
                        let id = decimal_string(self.curse_project as u64);
                        let info = make_descriptor(f, id.clone(), self.query.name.clone(), id);
                        self.finish(Some(info))
                    },
                    None => self.give_up(),
                }
            },
            Phase::Finished => self.finish(None),
        }
    }
}

/// Every state that a search starts in is consistent, and every step keeps
/// it so.
pub proof fn lemma_start_wf(q: QueryView, modrinth_has_capacity: bool)
    ensures
        state_wf(start_of(q, modrinth_has_capacity).0),
{
}

/// A step from a consistent state leads to a consistent state.
pub proof fn lemma_step_keeps_wf(s: ResolverView, e: EventView)
    requires
        state_wf(s),
    ensures
        state_wf(step_of(s, e).0),
{
    lemma_keep_worthy_len(s.query, looked_at(hits_of(e)), false);
    lemma_keep_worthy_len(s.query, looked_at(hits_of(e)), true);
}

/// How many results a search on the secondary registry asks for.
pub const CURSE_SEARCH_LIMIT: u32 = 10;

/// The request that an action stands for, for a query: searches ask for
/// the first page without filters, file requests for the query's game
/// version and loader. The end of the search stands for no request.
pub open spec fn request_view(q: QueryView, a: ActionView) -> Option<RequestView> {
    match a {
        ActionView::FetchModrinthVersion { project } => Some(
            modrinth_version_view(project, q.game_version, q.loader),
        ),
        ActionView::FetchModrinthProject { project } => Some(
            RequestView {
                url: "https://api.modrinth.com/v2/project/"@ + project,
                params: Seq::empty(),
            },
        ),
        ActionView::SearchModrinth { query } => Some(
            modrinth_search_view(query, None, None, 0, SEARCH_LIMIT as u32),
        ),
        ActionView::SearchCurse { query } => Some(
            curse_search_view(query, None, None, 0, CURSE_SEARCH_LIMIT),
        ),
        ActionView::FetchCurseFile { mod_id } => Some(
            curse_file_view(mod_id, q.game_version, q.loader),
        ),
        ActionView::Finish(_) => None,
    }
}

/// Builds the request that an action stands for.
pub fn request_of(query: &ResolveQuery, action: &ResolverAction) -> (r: Option<RegistryRequest>)
    ensures
        match r {
            Some(request) => request_view(query@, action@) == Some(request@),
            None => request_view(query@, action@) is None,
        },
{
    match action {
        ResolverAction::FetchModrinthVersion { project } => Some(
            modrinth_version_request(
                project.as_str(),
                query.game_version.as_str(),
                query.loader.as_str(),
            ),
        ),
        ResolverAction::FetchModrinthProject { project } => Some(
            modrinth_project_request(project.as_str()),
        ),
        ResolverAction::SearchModrinth { query: text } => Some(
            modrinth_search_request(text.as_str(), &None, &None, 0, SEARCH_LIMIT as u32),
        ),
        ResolverAction::SearchCurse { query: text } => Some(
            curse_search_request(text.as_str(), &None, &None, 0, CURSE_SEARCH_LIMIT),
        ),
        ResolverAction::FetchCurseFile { mod_id } => Some(
            curse_file_request(*mod_id, query.game_version.as_str(), query.loader.as_str()),
        ),
        ResolverAction::Finish(_) => None,
    }
}

/// An action is a request to the secondary registry.
pub open spec fn is_curse_request(a: ActionView) -> bool {
    a is SearchCurse || a is FetchCurseFile
}

/// Without a credential no request goes to the secondary registry: neither
/// the first request of a search nor any later one.
pub proof fn lemma_no_credential_no_curse_request(
    q: QueryView,
    modrinth_has_capacity: bool,
    s: ResolverView,
    e: EventView,
)
    requires
        q.credential.len() == 0,
        state_wf(s),
        s.query.credential.len() == 0,
    ensures
        !is_curse_request(start_of(q, modrinth_has_capacity).1),
        !is_curse_request(step_of(s, e).1),
        step_of(s, e).0.query == s.query,
{
}

/// A file found under the candidate id ends the search after one more
/// request, for the project's title: no search is made, and the search
/// finishes with that file whatever the answer is.
pub proof fn lemma_direct_hit_short_circuits(s: ResolverView, f: FoundView, e: EventView)
    requires
        state_wf(s),
        s.phase == Phase::Direct,
    ensures
        step_of(s, EventView::File(Some(f))).1 == (ActionView::FetchModrinthProject {
            project: s.query.candidate_id.unwrap(),
        }),
        step_of(step_of(s, EventView::File(Some(f))).0, e).1 matches ActionView::Finish(Some(found))
            && found.filename == f.filename && found.url == f.url && found.project_id
            == s.query.candidate_id.unwrap(),
{
}

/// With the primary registry out of capacity and a credential set, the
/// first request goes to the secondary registry; in every other case it
/// goes to the primary one.
pub proof fn lemma_first_request(q: QueryView, modrinth_has_capacity: bool)
    ensures
        !modrinth_has_capacity && q.credential.len() > 0 ==> start_of(q, modrinth_has_capacity).1
            == (ActionView::SearchCurse { query: q.name }),
        modrinth_has_capacity || q.credential.len() == 0 ==> start_of(q, modrinth_has_capacity).1
            == (match q.candidate_id {
            Some(id) => ActionView::FetchModrinthVersion { project: id },
            None => ActionView::SearchModrinth { query: q.name },
        }),
{
}

/// A search ends without a file only when both registries have had their
/// turn, or when the registry that is left is the secondary one and no
/// credential is set.
pub proof fn lemma_gives_up_only_after_both(s: ResolverView, e: EventView)
    requires
        state_wf(s),
        s.phase != Phase::Finished,
        step_of(s, e).1 == ActionView::Finish(None),
    ensures
        s.on_second || (s.primary == Registry::Modrinth && s.query.credential.len() == 0),
{
    lemma_keep_worthy_len(s.query, looked_at(hits_of(e)), false);
    lemma_keep_worthy_len(s.query, looked_at(hits_of(e)), true);
}

/// The first file found ends the search: a file in answer to a probe of a
/// candidate, or to the file request on the secondary registry, is what
/// the search finishes with.
pub proof fn lemma_first_hit_wins(s: ResolverView, f: FoundView)
    requires
        state_wf(s),
        s.phase == Phase::SlugProbe || s.phase == Phase::NameProbe || s.phase == Phase::CurseFile,
    ensures
        step_of(s, EventView::File(Some(f))).1 matches ActionView::Finish(Some(found))
            && found.filename == f.filename && found.url == f.url && found.version_remote
            == f.version && found.dependencies == f.dependencies,
{
}

/// An upper bound on the requests of a whole attempt on a registry.
pub open spec fn attempt_cost(q: QueryView, registry: Registry) -> nat {
    match registry {
        Registry::Modrinth => if q.candidate_id is Some {
            13
        } else {
            6
        },
        Registry::CurseForge => if q.credential.len() == 0 {
            0
        } else {
            2
        },
    }
}

/// An upper bound on the requests still to come once the registry at hand
/// is given up.
pub open spec fn cost_after_leaving(s: ResolverView) -> nat {
    if s.on_second {
        0
    } else {
        attempt_cost(s.query, other_registry(s.primary))
    }
}

/// An upper bound on the requests that a search hands out after the one it
/// is waiting for.
pub open spec fn requests_left(s: ResolverView) -> nat {
    match s.phase {
        Phase::Direct => 12 + cost_after_leaving(s),
        Phase::DirectInfo => 0,
        Phase::SlugSearch => 11 + cost_after_leaving(s),
        Phase::SlugProbe => (s.candidates.len() - s.next - 1) as nat + 6 + cost_after_leaving(s),
        Phase::NameSearch => 5 + cost_after_leaving(s),
        Phase::NameProbe => (s.candidates.len() - s.next - 1) as nat + cost_after_leaving(s),
        Phase::CurseSearch => 1 + cost_after_leaving(s),
        Phase::CurseFile => cost_after_leaving(s),
        Phase::Finished => 0,
    }
}

/// A search hands out at most fifteen requests: the first one leaves at
/// most fourteen to come, and every step that hands out another request
/// lowers what is left.
pub proof fn lemma_requests_bounded(
    q: QueryView,
    modrinth_has_capacity: bool,
    s: ResolverView,
    e: EventView,
)
    requires
        state_wf(s),
    ensures
        requests_left(start_of(q, modrinth_has_capacity).0) <= 14,
        !(step_of(s, e).1 is Finish) ==> requests_left(step_of(s, e).0) < requests_left(s),
        step_of(s, e).1 is Finish ==> step_of(s, e).0.phase == Phase::Finished,
{
    lemma_keep_worthy_len(s.query, looked_at(hits_of(e)), false);
    lemma_keep_worthy_len(s.query, looked_at(hits_of(e)), true);
}

} // verus!
