use mods_updater::cache::{
    get_confirmed_id, get_mod, prune_db, update_remote_info, upsert_mod, ContentCache,
};
use mods_updater::models::{CachedFile, CachedProject, ModInfo};

#[test]
fn test_cache_lifecycle_integration() {
    let mut cache = ContentCache::new();

    let filename = "test_mod_integ.jar";
    let mut info = ModInfo::default();
    info.key = filename.to_string();
    info.name = "Test Mod Integeration".to_string();

    // 1. Upsert
    upsert_mod(&mut cache, filename, &info);

    // 2. Get
    let retrieved = get_mod(&cache, filename).expect("Should find mod");
    assert_eq!(retrieved.name, "Test Mod Integeration");

    // 3. Update remote info
    update_remote_info(
        &mut cache,
        filename,
        Some("proj_999".to_string()),
        Some("v2.0".to_string()),
    );
    let updated = get_mod(&cache, filename).expect("Should find mod again");
    assert_eq!(updated.confirmed_project_id, Some("proj_999".to_string()));
    assert_eq!(updated.version_remote, Some("v2.0".to_string()));

    // 4. Prune
    // Case A: the file is valid and stays
    let mut valid_keys: Vec<String> = Vec::new();
    valid_keys.push(filename.to_string());

    let removed = prune_db(&mut cache, &valid_keys);
    assert_eq!(removed, 0);
    assert!(get_mod(&cache, filename).is_some());

    // Case B: the file is gone and its row goes
    valid_keys.clear();
    let removed_2 = prune_db(&mut cache, &valid_keys);
    assert_eq!(removed_2, 1);
    assert!(get_mod(&cache, filename).is_none());
}

#[test]
fn test_get_confirmed_id_from_projects_table() {
    let mut cache = ContentCache::new();

    let filename_v1 = "sodium-0.5.0+mc1.20.1.jar";
    let mut info = ModInfo::default();
    info.key = filename_v1.to_string();
    info.name = "Sodium".to_string();
    info.detected_project_id = Some("sodium".to_string());

    // 1. First scan: stored without a confirmed id
    upsert_mod(&mut cache, filename_v1, &info);

    // 2. Download went well: the confirmed id is stored
    update_remote_info(
        &mut cache,
        filename_v1,
        Some("AANobbMI".to_string()),
        Some("0.5.0".to_string()),
    );

    // 3. The detected id leads to the confirmed id
    let confirmed = get_confirmed_id(&cache, "sodium");
    assert_eq!(
        confirmed,
        Some("AANobbMI".to_string()),
        "Should find confirmed_project_id via detected_project_id lookup"
    );

    // 4. New version: the file name changes, the detected id does not
    let filename_v2 = "sodium-0.6.0+mc1.21.jar";
    assert!(get_mod(&cache, filename_v2).is_none(), "New filename should NOT be in cache");

    let confirmed_v2 = get_confirmed_id(&cache, "sodium");
    assert_eq!(
        confirmed_v2,
        Some("AANobbMI".to_string()),
        "Should still find confirmed_project_id after filename change"
    );
}

#[test]
fn upsert_keeps_confirmed_id_of_the_project() {
    let mut cache = ContentCache::new();
    let mut info = ModInfo::default();
    info.key = "a-1.jar".to_string();
    info.name = "A".to_string();
    info.detected_project_id = Some("a".to_string());
    upsert_mod(&mut cache, "a-1.jar", &info);
    update_remote_info(&mut cache, "a-1.jar", Some("ID1".to_string()), Some("1.0".to_string()));

    // fresh records without a confirmed id, stored again and again
    for _ in 0..3 {
        upsert_mod(&mut cache, "a-1.jar", &info);
    }
    let mut other = ModInfo::default();
    other.key = "a-2.jar".to_string();
    other.name = "A".to_string();
    other.detected_project_id = Some("a".to_string());
    upsert_mod(&mut cache, "a-2.jar", &other);

    assert_eq!(get_confirmed_id(&cache, "a"), Some("ID1".to_string()));
    let second = get_mod(&cache, "a-2.jar").unwrap();
    assert_eq!(second.confirmed_project_id, Some("ID1".to_string()));
    assert_eq!(second.version_remote, Some("1.0".to_string()));
    assert_eq!(cache.file_count(), 2);
    assert_eq!(cache.project_count(), 1);
}

#[test]
fn upsert_then_get_returns_the_merged_record() {
    let mut cache = ContentCache::new();
    let mut info = ModInfo::default();
    info.key = "ignored".to_string();
    info.name = "Lithium".to_string();
    info.detected_project_id = Some("lithium".to_string());
    info.version_local = Some("0.11.2".to_string());
    info.file_size_bytes = Some(1234);
    info.file_mtime_secs = Some(99);
    info.depends = Some(vec![("minecraft".to_string(), ">=1.20".to_string())]);
    info.selected = false;
    upsert_mod(&mut cache, "lithium.jar", &info);

    let got = get_mod(&cache, "lithium.jar").unwrap();
    let mut expected = ModInfo::default();
    expected.key = "lithium.jar".to_string();
    expected.name = "Lithium".to_string();
    expected.detected_project_id = Some("lithium".to_string());
    expected.version_local = Some("0.11.2".to_string());
    expected.file_size_bytes = Some(1234);
    expected.file_mtime_secs = Some(99);
    expected.depends = Some(vec![("minecraft".to_string(), ">=1.20".to_string())]);
    expected.selected = true;
    assert_eq!(got, expected);
}

#[test]
fn project_id_falls_back_from_confirmed_to_detected_to_name() {
    let mut info = ModInfo::default();
    info.name = "Name".to_string();
    assert_eq!(mods_updater::cache::project_id(&info), "Name");
    info.detected_project_id = Some("detected".to_string());
    assert_eq!(mods_updater::cache::project_id(&info), "detected");
    info.confirmed_project_id = Some("confirmed".to_string());
    assert_eq!(mods_updater::cache::project_id(&info), "confirmed");
}

#[test]
fn prune_removes_exactly_the_rows_that_are_not_valid() {
    let mut cache = ContentCache::new();
    for name in ["a.jar", "b.jar", "c.jar", "d.jar"] {
        let mut info = ModInfo::default();
        info.name = name.to_string();
        upsert_mod(&mut cache, name, &info);
    }
    let valid = vec!["b.jar".to_string(), "d.jar".to_string(), "zzz.jar".to_string()];
    assert_eq!(prune_db(&mut cache, &valid), 2);
    assert!(get_mod(&cache, "a.jar").is_none());
    assert!(get_mod(&cache, "b.jar").is_some());
    assert!(get_mod(&cache, "c.jar").is_none());
    assert!(get_mod(&cache, "d.jar").is_some());
    assert_eq!(cache.file_count(), 2);
    // project rows are not collected
    assert_eq!(cache.project_count(), 4);
}

#[test]
fn update_remote_of_unknown_file_changes_nothing() {
    let mut cache = ContentCache::new();
    update_remote_info(&mut cache, "nope.jar", Some("X".to_string()), None);
    assert_eq!(cache.file_count(), 0);
    assert_eq!(cache.project_count(), 0);
}

#[test]
fn update_remote_overwrites_unconditionally() {
    let mut cache = ContentCache::new();
    let mut info = ModInfo::default();
    info.name = "M".to_string();
    info.confirmed_project_id = Some("P".to_string());
    info.version_remote = Some("1".to_string());
    upsert_mod(&mut cache, "m.jar", &info);
    update_remote_info(&mut cache, "m.jar", None, None);
    let got = get_mod(&cache, "m.jar").unwrap();
    assert_eq!(got.confirmed_project_id, None);
    assert_eq!(got.version_remote, None);
}

#[test]
fn rows_of_a_record() {
    let mut info = ModInfo::default();
    info.name = "Sodium".to_string();
    info.detected_project_id = Some("sodium".to_string());
    info.version_local = Some("0.5.0".to_string());
    info.file_size_bytes = Some(7);
    info.file_mtime_secs = Some(8);

    let fresh = mods_updater::cache::merge_project(&info, None);
    assert_eq!(
        fresh,
        CachedProject {
            name: "Sodium".to_string(),
            detected_project_id: Some("sodium".to_string()),
            confirmed_project_id: None,
            version_remote: None,
        }
    );
    let resolved = mods_updater::cache::apply_remote(
        &fresh,
        Some("AANobbMI".to_string()),
        Some("0.5.3".to_string()),
    );
    assert_eq!(resolved.confirmed_project_id, Some("AANobbMI".to_string()));
    assert_eq!(resolved.version_remote, Some("0.5.3".to_string()));
    assert_eq!(resolved.name, "Sodium");
    // a record without remote fields keeps those of the row that is there
    let merged = mods_updater::cache::merge_project(&info, Some(&resolved));
    assert_eq!(merged, resolved);
    // a record with remote fields overrides them
    info.version_remote = Some("0.6.0".to_string());
    let newer = mods_updater::cache::merge_project(&info, Some(&resolved));
    assert_eq!(newer.version_remote, Some("0.6.0".to_string()));
    assert_eq!(newer.confirmed_project_id, Some("AANobbMI".to_string()));

    let file = mods_updater::cache::file_row(&info);
    assert_eq!(
        file,
        CachedFile {
            file_size_bytes: Some(7),
            file_mtime_secs: Some(8),
            version_local: Some("0.5.0".to_string()),
            depends: None,
            project_ref: "sodium".to_string(),
        }
    );
    let record = mods_updater::cache::materialize("sodium.jar", &file, &resolved);
    assert_eq!(record.key, "sodium.jar");
    assert_eq!(record.confirmed_project_id, Some("AANobbMI".to_string()));
    assert_eq!(record.version_remote, Some("0.5.3".to_string()));
    assert!(record.selected);

    // a cache filled from stored rows answers like the one that wrote them
    let mut cache = ContentCache::new();
    cache.load_project("sodium".to_string(), resolved.clone());
    cache.load_file("sodium.jar".to_string(), file.clone());
    assert_eq!(get_mod(&cache, "sodium.jar"), Some(record));
    assert_eq!(cache.file_row("sodium.jar"), Some(&file));
    assert_eq!(cache.project_row("sodium"), Some(&resolved));
    assert_eq!(cache.file_row("other.jar"), None);
    assert_eq!(cache.file_names(), vec!["sodium.jar".to_string()]);
    // a file row without its project row gives no record
    cache.load_file("orphan.jar".to_string(), CachedFile { project_ref: "gone".to_string(), ..file });
    assert_eq!(get_mod(&cache, "orphan.jar"), None);
}

#[test]
fn stale_files_are_those_a_pruning_deletes() {
    let mut cache = ContentCache::new();
    for name in ["a.jar", "b.jar", "c.jar"] {
        let mut info = ModInfo::default();
        info.name = name.to_string();
        upsert_mod(&mut cache, name, &info);
    }
    let valid = vec!["b.jar".to_string(), "zzz.jar".to_string()];
    let mut stale = mods_updater::cache::stale_files(&cache, &valid);
    stale.sort();
    assert_eq!(stale, vec!["a.jar".to_string(), "c.jar".to_string()]);
    assert_eq!(prune_db(&mut cache, &valid), stale.len());
    assert!(mods_updater::cache::stale_files(&cache, &valid).is_empty());
}
