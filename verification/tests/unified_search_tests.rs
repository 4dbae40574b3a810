use mods_updater::registry::{CurseLogo, CurseMod, ModrinthSearchHit};
use mods_updater::search::{merge_search_results, SearchRequest, UnifiedSearchResult};

fn modrinth_hit(id: &str, slug: &str, title: &str, description: Option<&str>, icon: Option<&str>) -> ModrinthSearchHit {
    ModrinthSearchHit {
        project_id: id.to_string(),
        slug: slug.to_string(),
        title: title.to_string(),
        description: description.map(|s| s.to_string()),
        icon_url: icon.map(|s| s.to_string()),
        author: "mezz".to_string(),
    }
}

fn curse_hit(id: u32, slug: &str, name: &str, summary: Option<&str>, logo: Option<&str>) -> CurseMod {
    CurseMod {
        id,
        name: name.to_string(),
        slug: slug.to_string(),
        summary: summary.map(|s| s.to_string()),
        logo: logo.map(|l| CurseLogo { thumbnail_url: l.to_string() }),
        links: None,
    }
}

#[test]
fn test_unified_flow() {
    let req = SearchRequest {
        query: "JEI".to_string(),
        loader: Some("Fabric".to_string()),
        version: Some("1.20.1".to_string()),
        offset: 0,
        limit: 10,
    };
    assert_eq!(req.limit, 10);

    let results = merge_search_results(
        vec![modrinth_hit("u6dRKJwZ", "jei", "Just Enough Items", Some("recipes"), None)],
        vec![curse_hit(238222, "jei", "Just Enough Items (JEI)", Some("View items"), Some("logo.png"))],
    );

    assert!(!results.is_empty(), "Should return results for JEI");

    let first = &results[0];
    assert!(first.modrinth_id.is_some(), "Should have Modrinth ID (primary source)");

    let merged = results.iter().find(|r| r.modrinth_id.is_some() && r.curseforge_id.is_some());
    assert!(merged.is_some());
    assert_eq!(results.len(), 1);
    assert_eq!(
        results[0],
        UnifiedSearchResult {
            name: "Just Enough Items".to_string(),
            slug: "jei".to_string(),
            description: "recipes".to_string(),
            icon_url: Some("logo.png".to_string()),
            author: "mezz".to_string(),
            modrinth_id: Some("u6dRKJwZ".to_string()),
            curseforge_id: Some(238222),
        }
    );
}

#[test]
fn hits_of_the_secondary_registry_merge_or_follow() {
    let results = merge_search_results(
        vec![
            modrinth_hit("M1", "alpha", "Alpha", None, Some("a.png")),
            modrinth_hit("M2", "beta", "Beta", Some(""), None),
        ],
        vec![
            curse_hit(10, "gamma", "Gamma", None, None),
            curse_hit(20, "other-slug", "Beta", Some("from cf"), None),
            curse_hit(30, "alpha", "A different name", Some("ignored"), Some("cf.png")),
            curse_hit(40, "gamma", "Gamma again", Some("later"), Some("late.png")),
        ],
    );
    assert_eq!(results.len(), 3);
    // merged by slug: icon and description stay where they were present
    assert_eq!(results[0].curseforge_id, Some(30));
    assert_eq!(results[0].icon_url, Some("a.png".to_string()));
    assert_eq!(results[0].description, "ignored");
    // merged by name: the empty description is filled
    assert_eq!(results[1].curseforge_id, Some(20));
    assert_eq!(results[1].description, "from cf");
    assert_eq!(results[1].icon_url, None);
    // new result, later merged with a hit of the same slug
    assert_eq!(results[2].name, "Gamma");
    assert_eq!(results[2].author, "Unknown (CF)");
    assert_eq!(results[2].modrinth_id, None);
    assert_eq!(results[2].curseforge_id, Some(40));
    assert_eq!(results[2].description, "later");
    assert_eq!(results[2].icon_url, Some("late.png".to_string()));
}

#[test]
fn no_hits_no_results() {
    assert!(merge_search_results(vec![], vec![]).is_empty());
}

#[test]
fn requests_of_a_search() {
    let req = SearchRequest {
        query: "JEI".to_string(),
        loader: Some("Fabric".to_string()),
        version: Some("1.20.1".to_string()),
        offset: 10,
        limit: 10,
    };
    let (first, second) = mods_updater::search::search_requests(&req, "");
    assert_eq!(first.url, "https://api.modrinth.com/v2/search");
    assert_eq!(first.params[2], ("offset".to_string(), "10".to_string()));
    assert!(second.is_none());
    let (_, second) = mods_updater::search::search_requests(&req, "key");
    let second = second.unwrap();
    assert_eq!(second.url, "https://api.curseforge.com/v1/mods/search");
    assert_eq!(second.params[7], ("modLoaderType".to_string(), "4".to_string()));
}
