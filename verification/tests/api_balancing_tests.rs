use mods_updater::governor::{has_capacity, is_available, ModrinthRateLimit, TokenBucket};
use mods_updater::text::texts_overlap;
use mods_updater::registry::{
    CurseDependency, CurseFile, CurseMod, ModFile, ModrinthDependency, ModrinthSearchHit,
    ModrinthVersion,
};
use mods_updater::resolver::{
    curse_file_event, curse_search_event, modrinth_file_event, request_of,
    modrinth_hits_event, Candidate, FoundFile, ModDownloadInfo, Registry, ResolveQuery, Resolver,
    ResolverAction, ResolverEvent,
};

fn query(name: &str, id: Option<&str>, credential: &str) -> ResolveQuery {
    ResolveQuery {
        name: name.to_string(),
        candidate_id: id.map(|s| s.to_string()),
        game_version: "1.20.1".to_string(),
        loader: "fabric".to_string(),
        credential: credential.to_string(),
    }
}

fn found(filename: &str) -> FoundFile {
    FoundFile {
        filename: filename.to_string(),
        url: format!("https://cdn.example/{}", filename),
        version: "mc1.20.1-0.5.3".to_string(),
        dependencies: vec!["P7dR8mSH".to_string()],
    }
}

fn candidate(id: &str, slug: &str, title: &str) -> Candidate {
    Candidate { project_id: id.to_string(), slug: slug.to_string(), title: title.to_string() }
}

fn fetch_version(project: &str) -> ResolverAction {
    ResolverAction::FetchModrinthVersion { project: project.to_string() }
}

fn search(q: &str) -> ResolverAction {
    ResolverAction::SearchModrinth { query: q.to_string() }
}

fn is_curse_action(a: &ResolverAction) -> bool {
    matches!(a, ResolverAction::SearchCurse { .. } | ResolverAction::FetchCurseFile { .. })
}

fn is_modrinth_action(a: &ResolverAction) -> bool {
    matches!(
        a,
        ResolverAction::FetchModrinthVersion { .. }
            | ResolverAction::FetchModrinthProject { .. }
            | ResolverAction::SearchModrinth { .. }
    )
}

#[test]
fn test_both_apis_report_capacity_at_startup() {
    let modrinth = ModrinthRateLimit::new(0);
    assert!(has_capacity(&modrinth, 0), "Modrinth should have capacity at startup");

    let curseforge = TokenBucket::new(150, 0);
    assert!(curseforge.has_capacity(0), "CurseForge token bucket should be full at startup");
}

#[test]
fn test_find_mod_download_modrinth_primary() {
    let cf_key = String::new();
    let (mut resolver, first) = Resolver::start(query("Sodium", Some("AANobbMI"), &cf_key), true);
    assert_eq!(first, fetch_version("AANobbMI"));
    let second = resolver.step(ResolverEvent::File(Some(found("sodium-fabric-0.5.3.jar"))));
    assert_eq!(second, ResolverAction::FetchModrinthProject { project: "AANobbMI".to_string() });
    let last = resolver
        .step(ResolverEvent::Project(Some(("Sodium".to_string(), "sodium".to_string()))));
    let result = match last {
        ResolverAction::Finish(r) => r,
        other => panic!("unexpected action {:?}", other),
    };

    assert!(result.is_some(), "Should find Sodium via load-balanced download");
    let info = result.unwrap();
    assert!(info.filename.contains("sodium"), "Downloaded file should be sodium");
    assert!(!info.url.is_empty(), "Should have a download URL");
    assert_eq!(info.project_id, "AANobbMI");
    assert_eq!(info.version_remote, "mc1.20.1-0.5.3");
    assert_eq!(info.title, "Sodium");
    assert_eq!(info.slug, "sodium");
    assert_eq!(info.dependencies.len(), 1);
    assert_eq!(info.dependencies[0].mod_id, "P7dR8mSH");
    assert!(resolver.is_finished());
}

#[test]
fn test_find_mod_download_by_name_only() {
    let cf_key = String::new();
    let (mut resolver, first) = Resolver::start(query("Fabric API", None, &cf_key), true);
    assert_eq!(first, search("Fabric API"));
    let hits = vec![
        candidate("X1", "other", "Something else"),
        candidate("P7dR8mSH", "fabric-api", "Fabric API"),
    ];
    let probe = resolver.step(ResolverEvent::Hits(hits));
    assert_eq!(probe, fetch_version("P7dR8mSH"));
    let last = resolver.step(ResolverEvent::File(Some(found("fabric-api-0.92.2.jar"))));
    let result = match last {
        ResolverAction::Finish(r) => r,
        other => panic!("unexpected action {:?}", other),
    };

    assert!(result.is_some(), "Should find Fabric API by name search");
    let info = result.unwrap();
    assert!(
        info.filename.to_lowercase().contains("fabric") || info.filename.to_lowercase().contains("api"),
        "Downloaded file should be fabric-related: got '{}'",
        info.filename
    );
    assert_eq!(info.project_id, "P7dR8mSH");
    assert_eq!(info.title, "Fabric API");
    assert_eq!(info.slug, "fabric-api");
}

#[test]
fn test_find_mod_download_not_found() {
    let cf_key = String::new();
    let (mut resolver, first) =
        Resolver::start(query("sdflkjhsdflkgjhsdlfkgjh_nonexistent_mod", None, &cf_key), true);
    assert_eq!(first, search("sdflkjhsdflkgjhsdlfkgjh_nonexistent_mod"));
    let last = resolver.step(ResolverEvent::Hits(vec![]));
    let result = match last {
        ResolverAction::Finish(r) => r,
        other => panic!("unexpected action {:?}", other),
    };
    assert!(result.is_none(), "Should return None for nonexistent mod");
}

#[test]
fn direct_hit_falls_back_to_filename_and_id_without_project_info() {
    let (mut resolver, _) = Resolver::start(query("Sodium", Some("AANobbMI"), ""), true);
    resolver.step(ResolverEvent::File(Some(found("sodium.jar"))));
    let last = resolver.step(ResolverEvent::Project(None));
    assert_eq!(
        last,
        ResolverAction::Finish(Some(ModDownloadInfo {
            filename: "sodium.jar".to_string(),
            url: "https://cdn.example/sodium.jar".to_string(),
            project_id: "AANobbMI".to_string(),
            version_remote: "mc1.20.1-0.5.3".to_string(),
            title: "sodium.jar".to_string(),
            slug: "AANobbMI".to_string(),
            dependencies: vec![mods_updater::registry::UnifiedDependency {
                mod_id: "P7dR8mSH".to_string()
            }],
        }))
    );
}

#[test]
fn slug_search_then_name_search_then_give_up() {
    let (mut resolver, first) = Resolver::start(query("Sodium", Some("sodium"), ""), true);
    assert_eq!(first, fetch_version("sodium"));
    // direct probe misses: search for the id
    assert_eq!(resolver.step(ResolverEvent::File(None)), search("sodium"));
    // only hits with that slug are probed
    let hits = vec![
        candidate("A", "sodium-extra", "Sodium Extra"),
        candidate("B", "sodium", "Sodium"),
        candidate("C", "sodium", "Sodium fork"),
    ];
    assert_eq!(resolver.step(ResolverEvent::Hits(hits)), fetch_version("B"));
    assert_eq!(resolver.step(ResolverEvent::File(None)), fetch_version("C"));
    // probes exhausted: search for the name
    assert_eq!(resolver.step(ResolverEvent::File(None)), search("Sodium"));
    let by_name = vec![
        candidate("D", "reeses", "Reese's SODIUM Options"),
        candidate("E", "lithium", "Lithium"),
        candidate("F", "sod", "Sod"),
    ];
    // titles overlap without regard to case, in either direction
    assert_eq!(resolver.step(ResolverEvent::Hits(by_name)), fetch_version("D"));
    assert_eq!(resolver.step(ResolverEvent::File(None)), fetch_version("F"));
    // no credential: the secondary registry is never asked
    assert_eq!(resolver.step(ResolverEvent::File(None)), ResolverAction::Finish(None));
    assert!(resolver.is_finished());
}

#[test]
fn search_looks_at_five_hits_at_most() {
    let (mut resolver, _) = Resolver::start(query("mod", None, ""), true);
    let hits: Vec<Candidate> =
        (0..8).map(|i| candidate(&format!("P{}", i), &format!("s{}", i), "A mod")).collect();
    let mut action = resolver.step(ResolverEvent::Hits(hits));
    let mut probes = Vec::new();
    while let ResolverAction::FetchModrinthVersion { project } = action {
        probes.push(project);
        action = resolver.step(ResolverEvent::File(None));
    }
    assert_eq!(probes, vec!["P0", "P1", "P2", "P3", "P4"]);
    assert_eq!(action, ResolverAction::Finish(None));
}

#[test]
fn empty_credential_never_asks_the_secondary_registry() {
    // whatever the capacity says, and whatever is answered
    for capacity in [true, false] {
        let (mut resolver, mut action) = Resolver::start(query("JEI", Some("jei"), ""), capacity);
        assert_eq!(resolver.primary(), Registry::Modrinth);
        let mut requests = 0;
        loop {
            assert!(!is_curse_action(&action));
            if let ResolverAction::Finish(r) = action {
                assert!(r.is_none());
                break;
            }
            requests += 1;
            let event = match action {
                ResolverAction::SearchModrinth { .. } => ResolverEvent::Hits(vec![
                    candidate("1", "jei", "JEI"),
                    candidate("2", "jei", "JEI"),
                    candidate("3", "jei", "JEI"),
                    candidate("4", "jei", "JEI"),
                    candidate("5", "jei", "JEI"),
                    candidate("6", "jei", "JEI"),
                ]),
                _ => ResolverEvent::File(None),
            };
            action = resolver.step(event);
        }
        // 1 direct + 1 search + 5 probes + 1 search + 5 probes
        assert_eq!(requests, 13);
    }
}

#[test]
fn low_capacity_with_credential_probes_secondary_first() {
    // the governor of the primary registry was told that 3 requests are left
    let mut governor = ModrinthRateLimit::new(0);
    governor.update_ratelimit(Some("3"), Some("30"), 0);
    let capacity = has_capacity(&governor, 1_000);
    assert!(!capacity);
    assert!(is_available("key"));
    assert!(!is_available(""));

    let (resolver, first) = Resolver::start(query("JEI", None, "key"), capacity);
    assert_eq!(resolver.primary(), Registry::CurseForge);
    assert_eq!(first, ResolverAction::SearchCurse { query: "JEI".to_string() });
}

#[test]
fn resolve_with_dynamic_reorder() {
    let mut governor = ModrinthRateLimit::new(0);
    governor.update_ratelimit(Some("0"), Some("30"), 0);
    let capacity = has_capacity(&governor, 10);
    let (mut resolver, first) = Resolver::start(query("JEI", None, "cred"), capacity);
    // the secondary registry is called first
    assert_eq!(first, ResolverAction::SearchCurse { query: "JEI".to_string() });
    let second = resolver.step(ResolverEvent::CurseProject(Some(238222)));
    assert_eq!(second, ResolverAction::FetchCurseFile { mod_id: 238222 });
    // it misses: the primary registry gets its turn
    let mut action = resolver.step(ResolverEvent::File(None));
    let mut modrinth_calls = 0;
    while !matches!(action, ResolverAction::Finish(_)) {
        assert!(is_modrinth_action(&action));
        modrinth_calls += 1;
        action = resolver.step(ResolverEvent::Hits(vec![]));
    }
    assert_eq!(modrinth_calls, 1);
    assert_eq!(action, ResolverAction::Finish(None));
}

#[test]
fn secondary_registry_hit() {
    let (mut resolver, first) = Resolver::start(query("JEI", None, "cred"), false);
    assert_eq!(first, ResolverAction::SearchCurse { query: "JEI".to_string() });
    resolver.step(ResolverEvent::CurseProject(Some(238222)));
    let last = resolver.step(ResolverEvent::File(Some(found("jei-1.20.1.jar"))));
    match last {
        ResolverAction::Finish(Some(info)) => {
            assert_eq!(info.project_id, "238222");
            assert_eq!(info.slug, "238222");
            assert_eq!(info.title, "JEI");
            assert_eq!(info.filename, "jei-1.20.1.jar");
        },
        other => panic!("unexpected action {:?}", other),
    }
}

#[test]
fn primary_first_then_secondary_when_credential_is_set() {
    let (mut resolver, first) = Resolver::start(query("JEI", None, "cred"), true);
    assert_eq!(first, search("JEI"));
    let next = resolver.step(ResolverEvent::Hits(vec![]));
    assert_eq!(next, ResolverAction::SearchCurse { query: "JEI".to_string() });
    let last = resolver.step(ResolverEvent::CurseProject(None));
    assert_eq!(last, ResolverAction::Finish(None));
    // a machine that is done stays done
    assert_eq!(resolver.step(ResolverEvent::File(None)), ResolverAction::Finish(None));
}

#[test]
fn an_answer_of_the_wrong_kind_counts_as_empty() {
    let (mut resolver, _) = Resolver::start(query("Sodium", Some("AANobbMI"), ""), true);
    // a search result where a file was asked for
    assert_eq!(resolver.step(ResolverEvent::Hits(vec![])), search("AANobbMI"));
    // a file where hits were asked for
    assert_eq!(resolver.step(ResolverEvent::File(Some(found("x.jar")))), search("Sodium"));
}

#[test]
fn titles_overlap_either_way() {
    assert!(texts_overlap("sodium", "reese's sodium options"));
    assert!(texts_overlap("reese's sodium options", "sodium"));
    assert!(texts_overlap("", "anything"));
    assert!(!texts_overlap("sodium", "lithium"));
}

#[test]
fn events_from_registry_answers() {
    let version = ModrinthVersion {
        files: vec![ModFile { url: "u".to_string(), filename: "f.jar".to_string() }],
        game_versions: vec![],
        loaders: vec![],
        dependencies: Some(vec![ModrinthDependency {
            project_id: Some("dep".to_string()),
            dependency_type: "required".to_string(),
        }]),
        version_number: "2.0".to_string(),
    };
    assert_eq!(
        modrinth_file_event(Some(version)),
        ResolverEvent::File(Some(FoundFile {
            filename: "f.jar".to_string(),
            url: "u".to_string(),
            version: "2.0".to_string(),
            dependencies: vec!["dep".to_string()],
        }))
    );
    assert_eq!(modrinth_file_event(None), ResolverEvent::File(None));
    let no_files = ModrinthVersion {
        files: vec![],
        game_versions: vec![],
        loaders: vec![],
        dependencies: None,
        version_number: "2.0".to_string(),
    };
    assert_eq!(modrinth_file_event(Some(no_files)), ResolverEvent::File(None));

    let file = |url: Option<&str>| CurseFile {
        id: 9,
        file_name: "c.jar".to_string(),
        download_url: url.map(|u| u.to_string()),
        game_versions: vec![],
        mod_loaders: vec![],
        dependencies: vec![CurseDependency { mod_id: 42, relation_type: 3 }],
    };
    // a file without an address is no file
    assert_eq!(curse_file_event(Some(file(None))), ResolverEvent::File(None));
    assert_eq!(
        curse_file_event(Some(file(Some("https://x")))),
        ResolverEvent::File(Some(FoundFile {
            filename: "c.jar".to_string(),
            url: "https://x".to_string(),
            version: "c.jar".to_string(),
            dependencies: vec!["42".to_string()],
        }))
    );

    let hit = ModrinthSearchHit {
        project_id: "P".to_string(),
        slug: "s".to_string(),
        title: "T".to_string(),
        description: None,
        icon_url: None,
        author: "a".to_string(),
    };
    assert_eq!(modrinth_hits_event(vec![hit]), ResolverEvent::Hits(vec![candidate("P", "s", "T")]));
    let curse_hit = CurseMod {
        id: 5,
        name: "n".to_string(),
        slug: "s".to_string(),
        summary: None,
        logo: None,
        links: None,
    };
    assert_eq!(curse_search_event(&vec![curse_hit]), ResolverEvent::CurseProject(Some(5)));
    assert_eq!(curse_search_event(&vec![]), ResolverEvent::CurseProject(None));
}

#[test]
fn token_bucket_grants_and_refills() {
    let mut bucket = TokenBucket::new(150, 0);
    for _ in 0..150 {
        assert_eq!(bucket.try_acquire(0), None);
    }
    // empty: one permit matures in 400 ms at 2.5 permits per second
    assert_eq!(bucket.try_acquire(0), Some(400));
    assert!(!bucket.has_capacity(399));
    assert!(bucket.has_capacity(400));
    assert_eq!(bucket.try_acquire(100), Some(300));
    assert_eq!(bucket.try_acquire(400), None);
    assert_eq!(bucket.try_acquire(400), Some(400));
    // a minute later the bucket is full again, and no fuller
    let later = 400 + 60_000 + 5_000;
    for _ in 0..150 {
        assert_eq!(bucket.try_acquire(later), None);
    }
    assert_eq!(bucket.try_acquire(later), Some(400));
    // a clock that goes back earns nothing
    assert_eq!(bucket.try_acquire(0), Some(400));
}

#[test]
fn requests_of_actions() {
    let q = query("JEI", Some("jei"), "key");
    let pair = |k: &str, v: &str| (k.to_string(), v.to_string());
    let search = request_of(&q, &ResolverAction::SearchModrinth { query: "JEI".to_string() }).unwrap();
    assert_eq!(search.url, "https://api.modrinth.com/v2/search");
    assert_eq!(search.params, vec![pair("query", "JEI"), pair("limit", "5"), pair("offset", "0")]);
    let version = request_of(&q, &fetch_version("jei")).unwrap();
    assert_eq!(version.url, "https://api.modrinth.com/v2/project/jei/version");
    assert_eq!(
        version.params,
        vec![pair("loaders", "[\"fabric\"]"), pair("game_versions", "[\"1.20.1\"]")]
    );
    let project =
        request_of(&q, &ResolverAction::FetchModrinthProject { project: "jei".to_string() }).unwrap();
    assert_eq!(project.url, "https://api.modrinth.com/v2/project/jei");
    let curse = request_of(&q, &ResolverAction::SearchCurse { query: "JEI".to_string() }).unwrap();
    assert_eq!(curse.url, "https://api.curseforge.com/v1/mods/search");
    assert_eq!(curse.params[4], pair("pageSize", "10"));
    let file = request_of(&q, &ResolverAction::FetchCurseFile { mod_id: 238222 }).unwrap();
    assert_eq!(file.url, "https://api.curseforge.com/v1/mods/238222/files");
    assert_eq!(file.params, vec![pair("gameVersion", "1.20.1"), pair("modLoaderType", "4")]);
    assert_eq!(request_of(&q, &ResolverAction::Finish(None)), None);
}
