//! What a search finds.
//!
//! The resolver is specified step by step. This module says what a whole
//! search comes to when the registries answer each request in a fixed
//! way, and proves that driving the resolver to its end gives exactly
//! that: the file of the registry tried first, else the file of the other.

use vstd::prelude::*;
use crate::resolver::{
    descriptor, lemma_keep_worthy_len, lemma_step_keeps_wf, looked_at, other_registry,
    primary_registry, requests_left, start_of, state_wf, step_of, worth_probing, ActionView,
    CandidateView, EventView, FoundView, InfoView, Phase, QueryView, Registry, ResolverView,
};
use crate::text::decimal_digits;

verus! {

/// What the registries answer to each request a search can make.
pub ghost struct Registries {
    /// The file of a project on the primary registry, for the query's game
    /// version and loader.
    pub modrinth_file: spec_fn(Seq<char>) -> Option<FoundView>,
    /// Title and slug of a project on the primary registry.
    pub modrinth_project: spec_fn(Seq<char>) -> Option<(Seq<char>, Seq<char>)>,
    /// The hits of a search on the primary registry.
    pub modrinth_search: spec_fn(Seq<char>) -> Seq<CandidateView>,
    /// The first result of a search on the secondary registry.
    pub curse_search: spec_fn(Seq<char>) -> Option<u32>,
    /// The file of a project on the secondary registry.
    pub curse_file: spec_fn(u32) -> Option<FoundView>,
}

/// The answer to a request.
pub open spec fn answer_to(r: Registries, a: ActionView) -> EventView {
    match a {
        ActionView::FetchModrinthVersion { project } => EventView::File((r.modrinth_file)(project)),
        ActionView::FetchModrinthProject { project } => EventView::Project(
            (r.modrinth_project)(project),
        ),
        ActionView::SearchModrinth { query } => EventView::Hits((r.modrinth_search)(query)),
        ActionView::SearchCurse { query } => EventView::CurseProject((r.curse_search)(query)),
        ActionView::FetchCurseFile { mod_id } => EventView::File((r.curse_file)(mod_id)),
        ActionView::Finish(_) => EventView::File(None),
    }
}

/// What a search comes to when it is driven from state `s`, where `a` was
/// handed out last, for at most `fuel` more requests.
pub open spec fn outcome(r: Registries, s: ResolverView, a: ActionView, fuel: nat) -> Option<InfoView>
    decreases fuel,
{
    match a {
        ActionView::Finish(found) => found,
        _ => if fuel == 0 {
            None
        } else {
            let next = step_of(s, answer_to(r, a));
            outcome(r, next.0, next.1, (fuel - 1) as nat)
        },
    }
}

/// `first` if it is there, else `second`.
pub open spec fn or_else(first: Option<InfoView>, second: Option<InfoView>) -> Option<InfoView> {
    match first {
        Some(_) => first,
        None => second,
    }
}

/// The file of the first of the candidates that has one.
pub open spec fn first_found(r: Registries, candidates: Seq<CandidateView>) -> Option<InfoView>
    decreases candidates.len(),
{
    if candidates.len() == 0 {
        None
    } else {
        let c = candidates[0];
        match (r.modrinth_file)(c.project_id) {
            Some(f) => Some(descriptor(f, c.project_id, c.title, c.slug)),
            None => first_found(r, candidates.drop_first()),
        }
    }
}

/// What the search for the name finds on the primary registry.
pub open spec fn found_by_name(r: Registries, q: QueryView) -> Option<InfoView> {
    first_found(r, worth_probing(q, (r.modrinth_search)(q.name), true))
}

/// What the search for the candidate id finds on the primary registry.
pub open spec fn found_by_slug(r: Registries, q: QueryView) -> Option<InfoView> {
    first_found(r, worth_probing(q, (r.modrinth_search)(q.candidate_id.unwrap()), false))
}

/// A descriptor under the title and slug that the registry knows for the
/// project, if it knows them.
pub open spec fn named(found: InfoView, project: Option<(Seq<char>, Seq<char>)>) -> InfoView {
    match project {
        Some((title, slug)) => InfoView { title, slug, ..found },
        None => found,
    }
}

/// What the primary registry has for a query: the file of the candidate
/// id itself; else the file of the first hit of the search for the id
/// whose slug is the id; else the file of the first hit of the search for
/// the name that fits by slug or title.
pub open spec fn modrinth_result(r: Registries, q: QueryView) -> Option<InfoView> {
    match q.candidate_id {
        Some(id) => match (r.modrinth_file)(id) {
            Some(f) => Some(named(descriptor(f, id, f.filename, id), (r.modrinth_project)(id))),
            None => or_else(found_by_slug(r, q), found_by_name(r, q)),
        },
        None => found_by_name(r, q),
    }
}

/// What the secondary registry has for a project of its own.
pub open spec fn curse_file_result(r: Registries, q: QueryView, project: u32) -> Option<InfoView> {
    match (r.curse_file)(project) {
        Some(f) => Some(
            descriptor(f, decimal_digits(project as nat), q.name, decimal_digits(project as nat)),
        ),
        None => None,
    }
}

/// What the secondary registry has for a query: nothing without a
/// credential; else the file of the first result of the search for the
/// name.
pub open spec fn curse_result(r: Registries, q: QueryView) -> Option<InfoView> {
    if q.credential.len() == 0 {
        None
    } else {
        match (r.curse_search)(q.name) {
            Some(project) => curse_file_result(r, q, project),
            None => None,
        }
    }
}

/// What a registry has for a query.
pub open spec fn registry_result(r: Registries, q: QueryView, registry: Registry) -> Option<InfoView> {
    match registry {
        Registry::Modrinth => modrinth_result(r, q),
        Registry::CurseForge => curse_result(r, q),
    }
}

/// What a search finds: what the registry tried first has, else what the
/// other one has.
pub open spec fn resolved(r: Registries, q: QueryView, modrinth_has_capacity: bool) -> Option<InfoView> {
    let first = primary_registry(modrinth_has_capacity, q.credential);
    or_else(registry_result(r, q, first), registry_result(r, q, other_registry(first)))
}

/// The request that a state is waiting for the answer to.
pub open spec fn pending_request(s: ResolverView) -> ActionView {
    match s.phase {
        Phase::Direct => ActionView::FetchModrinthVersion { project: s.query.candidate_id.unwrap() },
        Phase::DirectInfo => ActionView::FetchModrinthProject {
            project: s.query.candidate_id.unwrap(),
        },
        Phase::SlugSearch => ActionView::SearchModrinth { query: s.query.candidate_id.unwrap() },
        Phase::NameSearch => ActionView::SearchModrinth { query: s.query.name },
        Phase::SlugProbe | Phase::NameProbe => ActionView::FetchModrinthVersion {
            project: s.candidates[s.next as int].project_id,
        },
        Phase::CurseSearch => ActionView::SearchCurse { query: s.query.name },
        Phase::CurseFile => ActionView::FetchCurseFile { mod_id: s.curse_project },
        Phase::Finished => ActionView::Finish(None),
    }
}

/// What the search comes to once the registry at hand is given up.
pub open spec fn after_leaving(r: Registries, s: ResolverView) -> Option<InfoView> {
    if s.on_second {
        None
    } else {
        registry_result(r, s.query, other_registry(s.primary))
    }
}

/// What a search in state `s` will come to.
pub open spec fn expected(r: Registries, s: ResolverView) -> Option<InfoView> {
    let q = s.query;
    let rest = s.candidates.skip(s.next as int);
    match s.phase {
        Phase::Direct => or_else(modrinth_result(r, q), after_leaving(r, s)),
        Phase::DirectInfo => Some(
            named(s.pending.unwrap(), (r.modrinth_project)(q.candidate_id.unwrap())),
        ),
        Phase::SlugSearch => or_else(
            or_else(found_by_slug(r, q), found_by_name(r, q)),
            after_leaving(r, s),
        ),
        Phase::SlugProbe => or_else(
            or_else(first_found(r, rest), found_by_name(r, q)),
            after_leaving(r, s),
        ),
        Phase::NameSearch => or_else(found_by_name(r, q), after_leaving(r, s)),
        Phase::NameProbe => or_else(first_found(r, rest), after_leaving(r, s)),
        Phase::CurseSearch => or_else(curse_result(r, q), after_leaving(r, s)),
        Phase::CurseFile => or_else(curse_file_result(r, q, s.curse_project), after_leaving(r, s)),
        Phase::Finished => None,
    }
}

/// One step of a search that is at work either ends it with what was
/// expected, or hands out the request that the next state waits for and
/// leaves what is expected as it was.
pub proof fn lemma_step_keeps_expectation(r: Registries, s: ResolverView)
    requires
        state_wf(s),
        s.phase != Phase::Finished,
    ensures
        ({
            let next = step_of(s, answer_to(r, pending_request(s)));
            match next.1 {
                ActionView::Finish(found) => found == expected(r, s),
                a => a == pending_request(next.0) && next.0.phase != Phase::Finished && expected(
                    r,
                    next.0,
                ) == expected(r, s),
            }
        }),
{
    let e = answer_to(r, pending_request(s));
    let next = step_of(s, e);
    let q = s.query;
    lemma_keep_worthy_len(q, looked_at(crate::resolver::hits_of(e)), false);
    lemma_keep_worthy_len(q, looked_at(crate::resolver::hits_of(e)), true);
    match s.phase {
        Phase::SlugSearch => {
            let found = worth_probing(q, (r.modrinth_search)(q.candidate_id.unwrap()), false);
            assert(found.skip(0) =~= found);
        },
        Phase::NameSearch => {
            let found = worth_probing(q, (r.modrinth_search)(q.name), true);
            assert(found.skip(0) =~= found);
        },
        Phase::SlugProbe | Phase::NameProbe => {
            let rest = s.candidates.skip(s.next as int);
            let tail = s.candidates.skip((s.next + 1) as int);
            assert(rest[0] == s.candidates[s.next as int]);
            assert(rest.drop_first() =~= tail);
            assert(first_found(r, rest) == match (r.modrinth_file)(rest[0].project_id) {
                Some(f) => Some(descriptor(f, rest[0].project_id, rest[0].title, rest[0].slug)),
                None => first_found(r, tail),
            });
            if tail.len() == 0 {
                assert(first_found(r, tail) is None);
            }
        },
        _ => {},
    }
}

/// Driving a search that is at work to its end gives what is expected.
pub proof fn lemma_outcome(r: Registries, s: ResolverView, fuel: nat)
    requires
        state_wf(s),
        s.phase != Phase::Finished,
        fuel > requests_left(s),
    ensures
        outcome(r, s, pending_request(s), fuel) == expected(r, s),
    decreases fuel,
{
    let e = answer_to(r, pending_request(s));
    let next = step_of(s, e);
    lemma_step_keeps_expectation(r, s);
    lemma_step_keeps_wf(s, e);
    crate::resolver::lemma_requests_bounded(s.query, true, s, e);
    match next.1 {
        ActionView::Finish(found) => {
            assert(outcome(r, next.0, next.1, (fuel - 1) as nat) == found);
        },
        _ => {
            lemma_outcome(r, next.0, (fuel - 1) as nat);
        },
    }
}

/// A search driven to its end, for at most fifteen requests, finds what
/// the registry tried first has for the query, and else what the other
/// registry has.
pub proof fn lemma_search_finds_first_registry_first(
    r: Registries,
    q: QueryView,
    modrinth_has_capacity: bool,
)
    ensures
        outcome(
            r,
            start_of(q, modrinth_has_capacity).0,
            start_of(q, modrinth_has_capacity).1,
            15,
        ) == resolved(r, q, modrinth_has_capacity),
{
    let start = start_of(q, modrinth_has_capacity);
    crate::resolver::lemma_start_wf(q, modrinth_has_capacity);
    crate::resolver::lemma_requests_bounded(q, modrinth_has_capacity, start.0, EventView::File(None));
    assert(start.1 == pending_request(start.0));
    lemma_outcome(r, start.0, 15);
}

} // verus!
