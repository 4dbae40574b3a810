use mods_updater::governor::{has_capacity, ModrinthRateLimit};
use mods_updater::registry::{
    curse_file_loader_code, curse_file_request, curse_loader_code, curse_search_request,
    first_curse_file, first_project_id, first_version, modrinth_facets, modrinth_project_request, modrinth_search_request,
    modrinth_version_request, CurseDependency, CurseFile, CurseMod, ModFile, ModrinthDependency,
    ModrinthVersion,
};

fn pair(k: &str, v: &str) -> (String, String) {
    (k.to_string(), v.to_string())
}

#[test]
fn test_modrinth_has_capacity() {
    let state = ModrinthRateLimit::new(0);
    assert!(has_capacity(&state, 0), "Should have capacity at startup");
}

#[test]
fn modrinth_capacity_thresholds() {
    let mut state = ModrinthRateLimit::new(1_000);
    state.update_ratelimit(Some("10"), Some("30"), 1_000);
    assert_eq!(state.remaining, 10);
    assert_eq!(state.reset_at, 31_000);
    assert!(!has_capacity(&state, 1_000));
    assert!(!has_capacity(&state, 30_999));
    assert!(has_capacity(&state, 31_000));
    state.update_ratelimit(Some("11"), Some("30"), 1_000);
    assert!(has_capacity(&state, 1_000));
}

#[test]
fn modrinth_blocks_below_five_until_reset() {
    let mut state = ModrinthRateLimit::new(0);
    assert_eq!(state.wait_for_ratelimit(0), None);
    state.update_ratelimit(Some("4"), Some("2"), 500);
    assert_eq!(state.wait_for_ratelimit(500), Some(2_000));
    assert_eq!(state.wait_for_ratelimit(2_400), Some(100));
    assert_eq!(state.wait_for_ratelimit(2_500), None);
    state.update_ratelimit(Some("5"), Some("2"), 500);
    assert_eq!(state.wait_for_ratelimit(500), None);
}

#[test]
fn modrinth_ignores_headers_that_are_no_numbers() {
    let mut state = ModrinthRateLimit::new(7);
    state.update_ratelimit(Some("abc"), Some("30"), 100);
    assert_eq!(state, ModrinthRateLimit { remaining: 300, reset_at: 7 });
    state.update_ratelimit(Some("12"), None, 100);
    assert_eq!(state, ModrinthRateLimit { remaining: 300, reset_at: 7 });
    state.update_ratelimit(Some("4294967296"), Some("1"), 100);
    assert_eq!(state, ModrinthRateLimit { remaining: 300, reset_at: 7 });
    state.update_ratelimit(Some("+12"), Some("1"), 100);
    assert_eq!(state, ModrinthRateLimit { remaining: 12, reset_at: 1_100 });
    state.update_ratelimit(Some("1"), Some("18446744073709551615"), 100);
    assert_eq!(state, ModrinthRateLimit { remaining: 1, reset_at: u64::MAX });
}

#[test]
fn first_file_and_required_deps() {
    let version = ModrinthVersion {
        files: vec![
            ModFile { url: "u1".to_string(), filename: "f1.jar".to_string() },
            ModFile { url: "u2".to_string(), filename: "f2.jar".to_string() },
        ],
        game_versions: vec!["1.20.1".to_string()],
        loaders: vec!["fabric".to_string()],
        dependencies: Some(vec![
            ModrinthDependency {
                project_id: Some("P1".to_string()),
                dependency_type: "required".to_string(),
            },
            ModrinthDependency {
                project_id: Some("P2".to_string()),
                dependency_type: "optional".to_string(),
            },
            ModrinthDependency { project_id: None, dependency_type: "required".to_string() },
            ModrinthDependency {
                project_id: Some("P3".to_string()),
                dependency_type: "required".to_string(),
            },
        ]),
        version_number: "1.0".to_string(),
    };
    assert_eq!(version.first_file().unwrap().filename, "f1.jar");
    let deps: Vec<String> = version.required_deps().into_iter().map(|d| d.mod_id).collect();
    assert_eq!(deps, vec!["P1".to_string(), "P3".to_string()]);

    let empty = ModrinthVersion {
        files: vec![],
        game_versions: vec![],
        loaders: vec![],
        dependencies: None,
        version_number: String::new(),
    };
    assert!(empty.first_file().is_none());
    assert!(empty.required_deps().is_empty());
}

#[test]
fn curse_required_deps_are_relation_three() {
    let file = CurseFile {
        id: 1,
        file_name: "x.jar".to_string(),
        download_url: None,
        game_versions: vec![],
        mod_loaders: vec![],
        dependencies: vec![
            CurseDependency { mod_id: 306612, relation_type: 3 },
            CurseDependency { mod_id: 5, relation_type: 2 },
            CurseDependency { mod_id: 0, relation_type: 3 },
        ],
    };
    let deps: Vec<String> = file.required_deps().into_iter().map(|d| d.mod_id).collect();
    assert_eq!(deps, vec!["306612".to_string(), "0".to_string()]);
}

#[test]
fn loader_codes() {
    assert_eq!(curse_loader_code("any"), Some(0));
    assert_eq!(curse_loader_code("Forge"), Some(1));
    assert_eq!(curse_loader_code("CAULDRON"), Some(2));
    assert_eq!(curse_loader_code("liteLoader"), Some(3));
    assert_eq!(curse_loader_code("fabric"), Some(4));
    assert_eq!(curse_loader_code("Quilt"), Some(5));
    assert_eq!(curse_loader_code("NeoForge"), Some(6));
    assert_eq!(curse_loader_code("rift"), None);
    assert_eq!(curse_loader_code(""), None);
    assert_eq!(curse_file_loader_code("rift"), 4);
    assert_eq!(curse_file_loader_code("forge"), 1);
}

#[test]
fn modrinth_search_request_with_facets() {
    let r = modrinth_search_request(
        "Fabric API",
        &Some("Fabric".to_string()),
        &Some("1.20.1".to_string()),
        0,
        5,
    );
    assert_eq!(r.url, "https://api.modrinth.com/v2/search");
    assert_eq!(
        r.params,
        vec![
            pair("query", "Fabric API"),
            pair("limit", "5"),
            pair("offset", "0"),
            pair("facets", "[[\"versions:1.20.1\"],[\"categories:fabric\"]]"),
        ]
    );
}

#[test]
fn modrinth_search_request_without_facets() {
    let r = modrinth_search_request("Sodium", &None, &Some("  ".to_string()), 20, 10);
    assert_eq!(
        r.params,
        vec![pair("query", "Sodium"), pair("limit", "10"), pair("offset", "20")]
    );
    let only_loader = modrinth_search_request("x", &Some("QUILT".to_string()), &None, 0, 1);
    assert_eq!(only_loader.params[3], pair("facets", "[[\"categories:quilt\"]]"));
}

#[test]
fn facets_of_lowered_loader() {
    assert_eq!(modrinth_facets(&None, &None), None);
    assert_eq!(
        modrinth_facets(&Some("1.21".to_string()), &None),
        Some("[[\"versions:1.21\"]]".to_string())
    );
    assert_eq!(
        modrinth_facets(&Some("".to_string()), &Some("forge".to_string())),
        Some("[[\"categories:forge\"]]".to_string())
    );
}

#[test]
fn modrinth_version_request_writes_json_lists() {
    let r = modrinth_version_request("AANobbMI", "1.20.1", "Fabric");
    assert_eq!(r.url, "https://api.modrinth.com/v2/project/AANobbMI/version");
    assert_eq!(
        r.params,
        vec![pair("loaders", "[\"fabric\"]"), pair("game_versions", "[\"1.20.1\"]")]
    );
    let quoted = modrinth_version_request("p", "1.\"20", "f");
    assert_eq!(quoted.params[1], pair("game_versions", "[\"1.\\\"20\"]"));
}

#[test]
fn modrinth_project_request_address() {
    let r = modrinth_project_request("sodium");
    assert_eq!(r.url, "https://api.modrinth.com/v2/project/sodium");
    assert!(r.params.is_empty());
}

#[test]
fn curse_search_request_parameters() {
    let r = curse_search_request(
        "Fabric API",
        &Some("Fabric".to_string()),
        &Some("1.20.1".to_string()),
        0,
        5,
    );
    assert_eq!(r.url, "https://api.curseforge.com/v1/mods/search");
    assert_eq!(
        r.params,
        vec![
            pair("gameId", "432"),
            pair("searchFilter", "Fabric API"),
            pair("sortField", "2"),
            pair("sortOrder", "desc"),
            pair("pageSize", "5"),
            pair("index", "0"),
            pair("gameVersion", "1.20.1"),
            pair("modLoaderType", "4"),
        ]
    );
    let bare = curse_search_request("JEI", &Some("rift".to_string()), &None, 40, 20);
    assert_eq!(bare.params.len(), 6);
    assert_eq!(bare.params[4], pair("pageSize", "20"));
    assert_eq!(bare.params[5], pair("index", "40"));
}

#[test]
fn curse_file_request_parameters() {
    let r = curse_file_request(238222, "1.20.1", "Forge");
    assert_eq!(r.url, "https://api.curseforge.com/v1/mods/238222/files");
    assert_eq!(r.params, vec![pair("gameVersion", "1.20.1"), pair("modLoaderType", "1")]);
    let unknown = curse_file_request(7, "1.0", "whatever");
    assert_eq!(unknown.params[1], pair("modLoaderType", "4"));
}

#[test]
fn first_project_id_of_results() {
    assert_eq!(first_project_id(&vec![]), None);
    let hit = |id: u32| CurseMod {
        id,
        name: "n".to_string(),
        slug: "s".to_string(),
        summary: None,
        logo: None,
        links: None,
    };
    assert_eq!(first_project_id(&vec![hit(238222), hit(5)]), Some(238222));
}

#[test]
fn first_of_the_listed_versions_and_files() {
    let version = |number: &str| ModrinthVersion {
        files: vec![],
        game_versions: vec![],
        loaders: vec![],
        dependencies: None,
        version_number: number.to_string(),
    };
    assert_eq!(first_version(vec![]), None);
    assert_eq!(first_version(vec![version("2.0"), version("1.0")]), Some(version("2.0")));
    let file = |id: u32| CurseFile {
        id,
        file_name: "f.jar".to_string(),
        download_url: None,
        game_versions: vec![],
        mod_loaders: vec![],
        dependencies: vec![],
    };
    assert_eq!(first_curse_file(vec![]), None);
    assert_eq!(first_curse_file(vec![file(7), file(8)]), Some(file(7)));
}
