//! One result list out of the hits of both registries.

use vstd::prelude::*;
use vstd::string::*;
use crate::models::clone_opt_string;
use crate::registry::{
    curse_search_request, curse_search_view, modrinth_search_request, modrinth_search_view,
    CurseMod, ModrinthSearchHit, RegistryRequest,
};
use crate::text::str_eq;

verus! {

/// One search result, from either registry or from both.
#[derive(Debug, PartialEq, Eq)]
pub struct UnifiedSearchResult {
    pub name: String,
    pub slug: String,
    pub description: String,
    pub icon_url: Option<String>,
    pub author: String,
    pub modrinth_id: Option<String>,
    pub curseforge_id: Option<u32>,
}

/// Mathematical value of a [`UnifiedSearchResult`].
pub ghost struct UnifiedView {
    pub name: Seq<char>,
    pub slug: Seq<char>,
    pub description: Seq<char>,
    pub icon_url: Option<Seq<char>>,
    pub author: Seq<char>,
    pub modrinth_id: Option<Seq<char>>,
    pub curseforge_id: Option<u32>,
}

impl View for UnifiedSearchResult {
    type V = UnifiedView;

    open spec fn view(&self) -> UnifiedView {
        UnifiedView {
            name: self.name@,
            slug: self.slug@,
            description: self.description@,
            icon_url: self.icon_url.deep_view(),
            author: self.author@,
            modrinth_id: self.modrinth_id.deep_view(),
            curseforge_id: self.curseforge_id,
        }
    }
}

impl DeepView for UnifiedSearchResult {
    type V = UnifiedView;

    open spec fn deep_view(&self) -> UnifiedView {
        self@
    }
}

/// What to search for, and which page of the results is wanted.
#[derive(Debug, PartialEq, Eq)]
pub struct SearchRequest {
    pub query: String,
    pub loader: Option<String>,
    pub version: Option<String>,
    pub offset: u32,
    pub limit: u32,
}

/// The requests of a search on both registries: the one to the secondary
/// registry is made only when a credential is set.
pub fn search_requests(req: &SearchRequest, credential: &str) -> (r: (
    RegistryRequest,
    Option<RegistryRequest>,
))
    ensures
        r.0@ == modrinth_search_view(
            req.query@,
            req.loader.deep_view(),
            req.version.deep_view(),
            req.offset,
            req.limit,
        ),
        match r.1 {
            Some(request) => credential@.len() > 0 && request@ == curse_search_view(
                req.query@,
                req.loader.deep_view(),
                req.version.deep_view(),
                req.offset,
                req.limit,
            ),
            None => credential@.len() == 0,
        },
{
    let first = modrinth_search_request(
        req.query.as_str(),
        &req.loader,
        &req.version,
        req.offset,
        req.limit,
    );
    let second = if credential.unicode_len() > 0 {
        Some(
            curse_search_request(
                req.query.as_str(),
                &req.loader,
                &req.version,
                req.offset,
                req.limit,
            ),
        )
    } else {
        None
    };
    (first, second)
}

/// The text of an optional string, empty when it is absent.
pub open spec fn text_or_empty(o: Option<String>) -> Seq<char> {
    match o {
        Some(s) => s@,
        None => Seq::empty(),
    }
}

/// The address of the thumbnail of a hit of the secondary registry.
pub open spec fn thumbnail_of(hit: CurseMod) -> Option<Seq<char>> {
    match hit.logo {
        Some(l) => Some(l.thumbnail_url@),
        None => None,
    }
}

/// The result that stands for a hit of the primary registry.
pub open spec fn from_modrinth(hit: ModrinthSearchHit) -> UnifiedView {
    UnifiedView {
        name: hit.title@,
        slug: hit.slug@,
        description: text_or_empty(hit.description),
        icon_url: hit.icon_url.deep_view(),
        author: hit.author@,
        modrinth_id: Some(hit.project_id@),
        curseforge_id: None,
    }
}

/// The result that stands for a hit of the secondary registry alone. That
/// registry's search names no author.
pub open spec fn from_curse(hit: CurseMod) -> UnifiedView {
    UnifiedView {
        name: hit.name@,
        slug: hit.slug@,
        description: text_or_empty(hit.summary),
        icon_url: thumbnail_of(hit),
        author: "Unknown (CF)"@,
        modrinth_id: None,
        curseforge_id: Some(hit.id),
    }
}

/// A result and a hit of the secondary registry stand for the same project
/// when they agree in slug or in name.
pub open spec fn same_project(r: UnifiedView, hit: CurseMod) -> bool {
    r.slug == hit.slug@ || r.name == hit.name@
}

/// A result after it took in a hit of the secondary registry for the same
/// project: it gains that registry's id, and the icon and the description
/// where it had none.
pub open spec fn absorbed(r: UnifiedView, hit: CurseMod) -> UnifiedView {
    UnifiedView {
        name: r.name,
        slug: r.slug,
        description: if r.description.len() == 0 {
            text_or_empty(hit.summary)
        } else {
            r.description
        },
        icon_url: if r.icon_url is None {
            thumbnail_of(hit)
        } else {
            r.icon_url
        },
        author: r.author,
        modrinth_id: r.modrinth_id,
        curseforge_id: Some(hit.id),
    }
}

/// The index of the first result that stands for the same project as
/// `hit`, if there is one.
pub open spec fn match_index(results: Seq<UnifiedView>, hit: CurseMod) -> Option<int>
    decreases results.len(),
{
    if results.len() == 0 {
        None
    } else {
        match match_index(results.drop_last(), hit) {
            Some(i) => Some(i),
            None => if same_project(results.last(), hit) {
                Some(results.len() - 1)
            } else {
                None
            },
        }
    }
}

/// The results after one hit of the secondary registry was merged in: the
/// first result for the same project takes it in; with no such result the
/// hit becomes a new result at the end.
pub open spec fn merged_one(results: Seq<UnifiedView>, hit: CurseMod) -> Seq<UnifiedView> {
    match match_index(results, hit) {
        Some(i) => results.update(i, absorbed(results[i], hit)),
        None => results.push(from_curse(hit)),
    }
}

/// The results after the hits of the secondary registry were merged in, one
/// after the other.
pub open spec fn merged_all(results: Seq<UnifiedView>, hits: Seq<CurseMod>) -> Seq<UnifiedView>
    decreases hits.len(),
{
    if hits.len() == 0 {
        results
    } else {
        merged_one(merged_all(results, hits.drop_last()), hits.last())
    }
}

/// The unified results of a search: the hits of the primary registry in
/// their order, then the hits of the secondary registry merged in.
pub open spec fn unified(modrinth: Seq<ModrinthSearchHit>, curse: Seq<CurseMod>) -> Seq<UnifiedView> {
    merged_all(modrinth.map_values(|h: ModrinthSearchHit| from_modrinth(h)), curse)
}

/// What `match_index` says of a list: the index it gives is the first at
/// which a result stands for the same project as `hit`.
pub proof fn lemma_match_index(results: Seq<UnifiedView>, hit: CurseMod)
    ensures
        match match_index(results, hit) {
            Some(i) => 0 <= i < results.len() && same_project(results[i], hit) && forall|j: int|
                0 <= j < i ==> !same_project(#[trigger] results[j], hit),
            None => forall|j: int| 0 <= j < results.len() ==> !same_project(#[trigger] results[j], hit),
        },
    decreases results.len(),
{
    if results.len() > 0 {
        lemma_match_index(results.drop_last(), hit);
        assert forall|j: int| 0 <= j < results.len() - 1 implies results.drop_last()[j]
            == results[j] by {}
        match match_index(results.drop_last(), hit) {
            Some(i) => {
                assert(results.drop_last()[i] == results[i]);
            },
            None => {
                assert forall|j: int| 0 <= j < results.len() - 1 implies !same_project(
                    #[trigger] results[j],
                    hit,
                ) by {
                    assert(results.drop_last()[j] == results[j]);
                }
            },
        }
    }
}

/// The result that stands for a hit of the primary registry.
pub fn result_from_modrinth(hit: ModrinthSearchHit) -> (r: UnifiedSearchResult)
    ensures
        r@ == from_modrinth(hit),
{
    UnifiedSearchResult {
        name: hit.title,
        slug: hit.slug,
        description: match hit.description {
            Some(d) => d,
            None => String::new(),
        },
        icon_url: hit.icon_url,
        author: hit.author,
        modrinth_id: Some(hit.project_id),
        curseforge_id: None,
    }
}

/// Merges one hit of the secondary registry into the results.
pub fn merge_curse_hit(results: &mut Vec<UnifiedSearchResult>, hit: CurseMod)
    ensures
        final(results).deep_view() == merged_one(old(results).deep_view(), hit),
{
    let ghost before = results.deep_view();
    let mut found: Option<usize> = None;
    let mut i: usize = 0;
    while i < results.len()
        invariant_except_break
            found is None,
        invariant
            i <= results.len(),
            results.deep_view() == before,
            forall|j: int| 0 <= j < i ==> !same_project(#[trigger] before[j], hit),
        ensures
            i <= results.len(),
            results.deep_view() == before,
            match found {
                Some(k) => k == i && i < results.len() && same_project(before[i as int], hit),
                None => i == results.len(),
            },
            forall|j: int| 0 <= j < i ==> !same_project(#[trigger] before[j], hit),
        decreases results.len() - i,
    {
        if str_eq(results[i].slug.as_str(), hit.slug.as_str()) || str_eq(
            results[i].name.as_str(),
            hit.name.as_str(),
        ) {
            assert(before[i as int] == results@[i as int]@);
            found = Some(i);
            break ;
        }
        assert(before[i as int] == results@[i as int]@);
        i += 1;
    }
    proof {
        lemma_match_index(before, hit);
    }
    match found {
        Some(k) => {
            let ghost old_entry = results@[k as int]@;
            assert(old_entry == before[k as int]);
            let summary: String = match hit.summary {
                Some(s) => s,
                None => String::new(),
            };
            let thumbnail: Option<String> = match hit.logo {
                Some(l) => Some(l.thumbnail_url),
                None => None,
            };
            let entry = &results[k];
            let merged = UnifiedSearchResult {
                name: entry.name.clone(),
                slug: entry.slug.clone(),
                description: if entry.description.as_str().unicode_len() == 0 {
                    summary
                } else {
                    entry.description.clone()
                },
                icon_url: if entry.icon_url.is_none() {
                    thumbnail
                } else {
                    clone_opt_string(&entry.icon_url)
                },
                author: entry.author.clone(),
                modrinth_id: clone_opt_string(&entry.modrinth_id),
                curseforge_id: Some(hit.id),
            };
            assert(merged@ == absorbed(old_entry, hit));
            results.set(k, merged);
            assert(results.deep_view() =~= merged_one(before, hit));
        },
        None => {
            let fresh = UnifiedSearchResult {
                name: hit.name,
                slug: hit.slug,
                description: match hit.summary {
                    Some(s) => s,
                    None => String::new(),
                },
                icon_url: match hit.logo {
                    Some(l) => Some(l.thumbnail_url),
                    None => None,
                },
                author: String::from_str("Unknown (CF)"),
                modrinth_id: None,
                curseforge_id: Some(hit.id),
            };
            assert(fresh@ == from_curse(hit));
            results.push(fresh);
            assert(results.deep_view() =~= merged_one(before, hit));
        },
    }
}

/// Builds the unified result list of a search from the hits of the two
/// registries.
pub fn merge_search_results(modrinth_hits: Vec<ModrinthSearchHit>, curse_hits: Vec<CurseMod>) -> (r:
    Vec<UnifiedSearchResult>)
    ensures
        r.deep_view() == unified(modrinth_hits@, curse_hits@),
{
    let mut results: Vec<UnifiedSearchResult> = Vec::new();
    let ghost m = modrinth_hits@;
    let ghost c = curse_hits@;
    for hit in it: modrinth_hits.into_iter()
        invariant
            it.seq() == m,
            results.deep_view() == m.take(it.index() as int).map_values(
                |h: ModrinthSearchHit| from_modrinth(h),
            ),
    {
        let ghost before = results.deep_view();
        results.push(result_from_modrinth(hit));
        assert(results.deep_view() =~= before.push(from_modrinth(hit)));
        assert(results.deep_view() =~= m.take(it.index() + 1).map_values(
            |h: ModrinthSearchHit| from_modrinth(h),
        ));
    }
    assert(m.take(m.len() as int) =~= m);
    for hit in it: curse_hits.into_iter()
        invariant
            it.seq() == c,
            results.deep_view() == merged_all(
                m.map_values(|h: ModrinthSearchHit| from_modrinth(h)),
                c.take(it.index() as int),
            ),
    {
        assert(c.take(it.index() + 1).drop_last() =~= c.take(it.index() as int));
        merge_curse_hit(&mut results, hit);
    }
    assert(c.take(c.len() as int) =~= c);
    results
}

} // verus!
