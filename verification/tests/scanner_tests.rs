use mods_updater::cache::{get_confirmed_id, get_mod, update_remote_info, ContentCache};
use mods_updater::models::ModInfo;
use mods_updater::parsers::{read_single_mod, ReadError};
use mods_updater::scanner::{
    apply_parsed, finish_entry, is_mod_archive, minimal_record, plan_entry, plan_sorted,
    read_event, read_mods_in_folder, ReadEvent, ReadJob, ScanDecision,
};
use mods_updater::sorting::{le_text, sort_by_name, FileStat};
use std::io::Write;

fn archive(entries: &[(&str, &[u8])]) -> Vec<u8> {
    let mut writer = zip::ZipWriter::new(std::io::Cursor::new(Vec::new()));
    for (name, content) in entries {
        writer.start_file(name.to_string(), zip::write::SimpleFileOptions::default()).unwrap();
        writer.write_all(content).unwrap();
    }
    writer.finish().unwrap().into_inner()
}

fn sodium_jar() -> Vec<u8> {
    archive(&[(
        "fabric.mod.json",
        br#"{"id": "sodium", "name": "Sodium", "version": "0.5.0", "depends": {"minecraft": "1.20.1"}}"#,
    )])
}

fn stat(name: &str, size: u64, mtime: u64) -> FileStat {
    FileStat { filename: name.to_string(), size_bytes: size, mtime_secs: mtime }
}

fn keys(map: &indexmap::IndexMap<String, ModInfo>) -> Vec<String> {
    map.keys().cloned().collect()
}

#[test]
fn cold_scan_with_empty_cache() {
    let mut cache = ContentCache::new();
    let name = "sodium-0.5.0+mc1.20.1.jar";
    let listing = vec![stat(name, 4096, 1_700_000_000)];

    let (mut map, jobs) = read_mods_in_folder(&cache, listing);
    // nothing is cached: the file is shown by a placeholder and has to be read
    assert_eq!(jobs, vec![stat(name, 4096, 1_700_000_000)]);
    assert_eq!(keys(&map), vec![name.to_string()]);
    assert_eq!(map[name].name, "sodium-0.5.0+mc1.20.1");
    assert_eq!(map[name].detected_project_id, None);

    let parsed = read_single_mod(&sodium_jar(), name);
    apply_parsed(&mut map, &mut cache, &jobs[0], parsed);

    assert_eq!(map.len(), 1);
    let record = &map[name];
    assert_eq!(record.key, name);
    assert_eq!(record.detected_project_id, Some("sodium".to_string()));
    assert_eq!(record.name, "Sodium");
    assert_eq!(record.file_size_bytes, Some(4096));
    assert_eq!(record.file_mtime_secs, Some(1_700_000_000));
    assert_eq!(record.version_local, Some("0.5.0".to_string()));
    assert_eq!(
        record.depends,
        Some(vec![("minecraft".to_string(), "1.20.1".to_string())])
    );

    // the cache now holds one project row under "sodium" and one file row
    assert_eq!(cache.project_count(), 1);
    assert_eq!(cache.file_count(), 1);
    assert_eq!(get_confirmed_id(&cache, "sodium"), None);
    assert_eq!(get_mod(&cache, name).as_ref(), Some(record));
}

#[test]
fn warm_scan_of_the_same_file() {
    let mut cache = ContentCache::new();
    let name = "sodium-0.5.0+mc1.20.1.jar";
    let (mut first, jobs) = read_mods_in_folder(&cache, vec![stat(name, 4096, 17)]);
    apply_parsed(&mut first, &mut cache, &jobs[0], read_single_mod(&sodium_jar(), name));

    let (second, jobs) = read_mods_in_folder(&cache, vec![stat(name, 4096, 17)]);
    assert!(jobs.is_empty(), "no parse job on the second pass");
    assert_eq!(first, second);

    // a change of size or time makes the cached row stale
    let (_, jobs) = read_mods_in_folder(&cache, vec![stat(name, 4097, 17)]);
    assert_eq!(jobs.len(), 1);
    let (_, jobs) = read_mods_in_folder(&cache, vec![stat(name, 4096, 18)]);
    assert_eq!(jobs.len(), 1);
}

#[test]
fn version_bump_inherits_the_confirmed_id() {
    let mut cache = ContentCache::new();
    let old_name = "sodium-0.5.0+mc1.20.1.jar";
    let (mut map, jobs) = read_mods_in_folder(&cache, vec![stat(old_name, 10, 1)]);
    apply_parsed(&mut map, &mut cache, &jobs[0], read_single_mod(&sodium_jar(), old_name));
    update_remote_info(&mut cache, old_name, Some("AANobbMI".to_string()), Some("0.5.0".to_string()));

    // the file is replaced by a new version
    let new_name = "sodium-0.6.0+mc1.21.jar";
    let (mut map, jobs) = read_mods_in_folder(&cache, vec![stat(new_name, 11, 2)]);
    assert_eq!(jobs.len(), 1);
    apply_parsed(&mut map, &mut cache, &jobs[0], read_single_mod(&sodium_jar(), new_name));
    assert_eq!(map[new_name].confirmed_project_id, Some("AANobbMI".to_string()));
    assert_eq!(map[new_name].key, new_name);

    // and so on every later scan
    let (map, jobs) = read_mods_in_folder(&cache, vec![stat(new_name, 11, 2)]);
    assert!(jobs.is_empty());
    assert_eq!(map[new_name].confirmed_project_id, Some("AANobbMI".to_string()));
}

#[test]
fn archive_without_metadata_is_shown_by_its_file_name() {
    let mut cache = ContentCache::new();
    let file = stat("mystery-mod.jar", 5, 6);
    let bytes = archive(&[("readme.txt", b"hi")]);
    let record = finish_entry(&mut cache, &file, read_single_mod(&bytes, "mystery-mod.jar"));
    assert_eq!(record.key, "mystery-mod.jar");
    assert_eq!(record.name, "mystery-mod");
    assert_eq!(record.depends, None);
    assert_eq!(record.detected_project_id, None);
    assert_eq!(record.file_size_bytes, Some(5));
    assert_eq!(record.file_mtime_secs, Some(6));
    assert!(record.selected);
    assert_eq!(cache.file_count(), 0);
    assert_eq!(record, minimal_record(&file));

    let not_zip = finish_entry(&mut cache, &file, Err(ReadError::NotAnArchive));
    assert_eq!(not_zip, minimal_record(&file));
}

#[test]
fn scan_is_in_the_order_of_the_file_names() {
    let cache = ContentCache::new();
    let listing = vec![
        stat("zeta.jar", 1, 1),
        stat("notes.txt", 1, 1),
        stat("Alpha.jar", 1, 1),
        stat("beta.zip", 1, 1),
        stat("alpha.jar", 1, 1),
        stat(".jar", 1, 1),
        stat("beta.jar.part", 1, 1),
    ];
    let (map, jobs) = read_mods_in_folder(&cache, listing);
    assert_eq!(keys(&map), vec!["Alpha.jar", "alpha.jar", "beta.zip", "zeta.jar"]);
    let job_names: Vec<&str> = jobs.iter().map(|j| j.filename.as_str()).collect();
    assert_eq!(job_names, vec!["Alpha.jar", "alpha.jar", "beta.zip", "zeta.jar"]);
}

#[test]
fn late_results_update_in_place() {
    let mut cache = ContentCache::new();
    let listing = vec![stat("a.jar", 1, 1), stat("b.jar", 2, 2), stat("c.jar", 3, 3)];
    let (mut map, jobs) = plan_sorted(&cache, &listing);
    assert_eq!(jobs.len(), 3);
    // the results come back out of order
    let jar = sodium_jar();
    apply_parsed(&mut map, &mut cache, &jobs[2], read_single_mod(&jar, "c.jar"));
    apply_parsed(&mut map, &mut cache, &jobs[0], read_single_mod(&jar, "a.jar"));
    assert_eq!(keys(&map), vec!["a.jar", "b.jar", "c.jar"]);
    assert_eq!(map["a.jar"].name, "Sodium");
    assert_eq!(map["b.jar"].name, "b");
    assert_eq!(map["c.jar"].name, "Sodium");
}

#[test]
fn plan_entry_uses_fresh_rows_only() {
    let mut cache = ContentCache::new();
    let file = stat("a.jar", 9, 9);
    assert_eq!(plan_entry(&cache, &file), ScanDecision::Parse(minimal_record(&file)));
    let stored = finish_entry(&mut cache, &file, read_single_mod(&sodium_jar(), "a.jar"));
    assert_eq!(plan_entry(&cache, &file), ScanDecision::Cached(stored));
    let touched = stat("a.jar", 9, 10);
    assert_eq!(plan_entry(&cache, &touched), ScanDecision::Parse(minimal_record(&touched)));
}

#[test]
fn reparse_keeps_what_was_resolved() {
    let mut cache = ContentCache::new();
    let file = stat("a.jar", 9, 9);
    finish_entry(&mut cache, &file, read_single_mod(&sodium_jar(), "a.jar"));
    update_remote_info(&mut cache, "a.jar", Some("AANobbMI".to_string()), Some("0.5.3".to_string()));
    let touched = stat("a.jar", 10, 11);
    let record = finish_entry(&mut cache, &touched, read_single_mod(&sodium_jar(), "a.jar"));
    assert_eq!(record.confirmed_project_id, Some("AANobbMI".to_string()));
    assert_eq!(record.version_remote, Some("0.5.3".to_string()));
    assert_eq!(record.file_size_bytes, Some(10));
    assert_eq!(record.file_mtime_secs, Some(11));
}

#[test]
fn archive_names() {
    assert!(is_mod_archive("a.jar"));
    assert!(is_mod_archive("a.zip"));
    assert!(is_mod_archive("mod.v2.jar"));
    assert!(!is_mod_archive(".jar"));
    assert!(!is_mod_archive("a.jar.part"));
    assert!(!is_mod_archive("a.JAR"));
    assert!(!is_mod_archive("jar"));
    assert!(!is_mod_archive(""));
}

#[test]
fn order_of_texts() {
    assert!(le_text("", ""));
    assert!(le_text("", "a"));
    assert!(!le_text("a", ""));
    assert!(le_text("a", "a"));
    assert!(le_text("a", "b"));
    assert!(!le_text("b", "a"));
    assert!(le_text("ab", "abc"));
    assert!(!le_text("abc", "ab"));
    assert!(le_text("Z", "a"));
    assert!(le_text("a", "é"));
}

#[test]
fn sorting_keeps_every_entry() {
    let sorted = sort_by_name(vec![
        stat("c", 1, 0),
        stat("a", 2, 0),
        stat("b", 3, 0),
        stat("a", 4, 0),
        stat("", 5, 0),
    ]);
    assert_eq!(
        sorted,
        vec![stat("", 5, 0), stat("a", 2, 0), stat("a", 4, 0), stat("b", 3, 0), stat("c", 1, 0)]
    );
    assert!(sort_by_name(vec![]).is_empty());
}

#[test]
fn read_events() {
    let job = ReadJob { file_path: "/mods/a.jar".to_string() };
    let info = minimal_record(&stat("a.jar", 1, 1));
    assert_eq!(read_event(&job, Ok(info)), ReadEvent::Done { info: minimal_record(&stat("a.jar", 1, 1)) });
    assert_eq!(
        read_event(&job, Err(ReadError::NotAnArchive)),
        ReadEvent::Error { path: "/mods/a.jar".to_string(), msg: "not a valid ZIP archive".to_string() }
    );
}

#[test]
fn two_versions_of_one_mod_scan_twice_the_same() {
    let mut cache = ContentCache::new();
    let listing = || vec![stat("sodium-0.5.jar", 1, 1), stat("sodium-0.6.jar", 2, 2)];
    let (mut first, jobs) = read_mods_in_folder(&cache, listing());
    assert_eq!(jobs.len(), 2);
    for job in &jobs {
        apply_parsed(&mut first, &mut cache, job, read_single_mod(&sodium_jar(), &job.filename));
    }
    // both files belong to the project "sodium" and give the same project row
    assert_eq!(cache.project_count(), 1);
    let (second, jobs) = read_mods_in_folder(&cache, listing());
    assert!(jobs.is_empty());
    assert_eq!(first, second);
}

#[test]
fn an_archive_without_metadata_is_read_again() {
    let mut cache = ContentCache::new();
    let listing = || vec![stat("a.jar", 1, 1), stat("x.jar", 2, 2)];
    let (mut first, jobs) = read_mods_in_folder(&cache, listing());
    let empty = archive(&[("readme.txt", b"hi")]);
    apply_parsed(&mut first, &mut cache, &jobs[0], read_single_mod(&sodium_jar(), "a.jar"));
    apply_parsed(&mut first, &mut cache, &jobs[1], read_single_mod(&empty, "x.jar"));
    let (second, jobs) = read_mods_in_folder(&cache, listing());
    assert_eq!(jobs, vec![stat("x.jar", 2, 2)]);
    // what is shown is the same all the same
    assert_eq!(first, second);
}

#[test]
fn an_unreadable_archive_leaves_the_others_as_they_are() {
    let scan = |names: &[&str]| {
        let mut cache = ContentCache::new();
        let listing: Vec<FileStat> = names.iter().map(|n| stat(n, 3, 4)).collect();
        let (mut map, jobs) = read_mods_in_folder(&cache, listing);
        for job in &jobs {
            let bytes = if job.filename == "x.jar" {
                archive(&[("readme.txt", b"hi")])
            } else {
                sodium_jar()
            };
            apply_parsed(&mut map, &mut cache, job, read_single_mod(&bytes, &job.filename));
        }
        (map, cache.file_count(), cache.project_count())
    };
    let (with, files_with, projects_with) = scan(&["b.jar", "x.jar", "a.jar", "z.jar"]);
    let (without, files_without, projects_without) = scan(&["b.jar", "a.jar", "z.jar"]);
    assert_eq!(keys(&with), vec!["a.jar", "b.jar", "x.jar", "z.jar"]);
    assert_eq!(keys(&without), vec!["a.jar", "b.jar", "z.jar"]);
    for (name, record) in &without {
        assert_eq!(&with[name], record);
    }
    assert_eq!(with["x.jar"], minimal_record(&stat("x.jar", 3, 4)));
    assert_eq!((files_with, projects_with), (files_without, projects_without));
}
