use mods_updater::datapacks::{
    clean_name_from_filename, collect_namespaces, detect_project_id, entry_namespace,
    extract_version_from_filename, minimal_info, pack_format_to_mc, read_single_datapack,
    DatapackError, DatapackInfo, SupportedFormats,
};
use mods_updater::format::{format_dep_name, format_version_range};
use mods_updater::memory::{FixAction, KnownIssue, TroubleshootMemory};
use mods_updater::models::{get_minecraft_versions, ModInfo, VersionInfo, VersionManifest};
use mods_updater::paths::{join_path, Paths};
use mods_updater::text::{
    chars_of, decimal_string, eq_ignore_ascii_case, find_text, is_blank_str, is_whitespace,
    join_texts, parse_decimal, remove_all, rfind_char, split_words, str_eq, string_of,
};
use mods_updater::text_map::TextMap;
use mods_updater::workers::calculate_worker_count;
use std::io::Write;

fn chars(s: &str) -> Vec<char> {
    s.chars().collect()
}

#[test]
fn worker_counts() {
    // clamp(task_count, 4, min(cpus * 8, 64))
    assert_eq!(calculate_worker_count(0, 4), 4);
    assert_eq!(calculate_worker_count(3, 4), 4);
    assert_eq!(calculate_worker_count(4, 4), 4);
    assert_eq!(calculate_worker_count(20, 4), 20);
    assert_eq!(calculate_worker_count(32, 4), 32);
    assert_eq!(calculate_worker_count(33, 4), 32);
    assert_eq!(calculate_worker_count(1000, 8), 64);
    assert_eq!(calculate_worker_count(1000, 64), 64);
    assert_eq!(calculate_worker_count(1000, usize::MAX), 64);
    assert_eq!(calculate_worker_count(1000, 1), 8);
    assert_eq!(calculate_worker_count(1000, 0), 8);
}

#[test]
fn version_ranges_for_showing() {
    assert_eq!(format_version_range("*"), "*");
    assert_eq!(format_version_range(">=1.20.1"), "1.20.1 +");
    assert_eq!(format_version_range(">1.20"), "1.20 +");
    assert_eq!(format_version_range("<1.21"), "1.21 -");
    assert_eq!(format_version_range("<=1.21"), "1.21 -");
    assert_eq!(format_version_range("1.20.1"), "1.20.1");
    assert_eq!(format_version_range(">=1.21.10 <1.21.11"), "1.21.10 - 1.21.11");
    assert_eq!(format_version_range(">=1.21.10- <1.21.11-"), "1.21.10 - 1.21.11");
    assert_eq!(format_version_range("1.20 || 1.21"), "1.20 - || - 1.21");
    assert_eq!(format_version_range(">="), ">=");
    assert_eq!(format_version_range(""), "");
    assert_eq!(format_version_range("  "), "  ");
    assert_eq!(format_version_range(">>==1"), "=1 +");
}

#[test]
fn dependency_names_for_showing() {
    assert_eq!(format_dep_name("fabricloader"), "Fabric");
    assert_eq!(format_dep_name("fabric-loader"), "Fabric");
    assert_eq!(format_dep_name("forge"), "Forge");
    assert_eq!(format_dep_name("neoforge"), "NeoForge");
    assert_eq!(format_dep_name("quilt_loader"), "Quilt");
    assert_eq!(format_dep_name("minecraft"), "Minecraft");
    assert_eq!(format_dep_name("java"), "Java");
    assert_eq!(format_dep_name("fabric-api"), "Fabric API");
    assert_eq!(format_dep_name("sodium"), "sodium");
    assert_eq!(format_dep_name("Forge"), "Forge");
}

#[test]
fn pack_formats() {
    assert_eq!(pack_format_to_mc(4), Some("1.13"));
    assert_eq!(pack_format_to_mc(15), Some("1.20.1"));
    assert_eq!(pack_format_to_mc(48), Some("1.21.1"));
    assert_eq!(pack_format_to_mc(61), Some("1.21.4"));
    assert_eq!(pack_format_to_mc(11), None);
    assert_eq!(pack_format_to_mc(0), None);
}

#[test]
fn supported_formats_as_range() {
    assert_eq!(SupportedFormats::Range { min_inclusive: 15, max_inclusive: 48 }.as_range(), (15, 48));
    assert_eq!(SupportedFormats::Array(vec![18, 15, 26]).as_range(), (15, 26));
    assert_eq!(SupportedFormats::Array(vec![]).as_range(), (0, 0));
    assert_eq!(SupportedFormats::Single(41).as_range(), (41, 41));
}

#[test]
fn versions_in_file_names() {
    assert_eq!(
        extract_version_from_filename("Terralith_1.21_v2.5.8.zip"),
        Some("2.5.8".to_string())
    );
    assert_eq!(
        extract_version_from_filename("epic_terrain-0.1.3-Beta.zip"),
        None
    );
    assert_eq!(extract_version_from_filename("pack-1.2.zip"), Some("1.2".to_string()));
    assert_eq!(extract_version_from_filename("pack_3.4"), Some("3.4".to_string()));
    assert_eq!(extract_version_from_filename("pack V7.zip"), Some("7".to_string()));
    assert_eq!(extract_version_from_filename("pack-vanilla.zip"), None);
    assert_eq!(extract_version_from_filename("pack-12.zip"), None);
    assert_eq!(extract_version_from_filename("plain.zip"), None);
}

#[test]
fn names_in_file_names() {
    assert_eq!(clean_name_from_filename("Terralith_1.21_v2.5.8.zip"), "Terralith");
    assert_eq!(clean_name_from_filename("epic_terrain-0.1.3-Beta.zip"), "epic_terrain");
    assert_eq!(clean_name_from_filename("My Pack v2.zip"), "My Pack");
    assert_eq!(clean_name_from_filename("plain.zip"), "plain");
    assert_eq!(clean_name_from_filename("-1.zip"), "-1");
    assert_eq!(clean_name_from_filename("no_extension"), "no_extension");
    assert_eq!(clean_name_from_filename("trailing-"), "trailing-");
}

#[test]
fn troubleshoot_memory() {
    let mut memory = TroubleshootMemory::new();
    assert!(memory.check("optifine").is_none());
    let issue = |name: &str, text: &str| KnownIssue {
        mod_id_or_name: name.to_string(),
        issue_description: text.to_string(),
        fix: FixAction::Delete,
        auto_apply: false,
    };
    memory.add_issue(issue("OptiFine", "breaks sodium"));
    memory.add_issue(issue("optifine", "duplicate"));
    memory.add_issue(issue("other", "x"));
    assert_eq!(memory.issues.len(), 2);
    assert_eq!(memory.check("OPTIFINE").unwrap().issue_description, "breaks sodium");
    assert_eq!(memory.check("other").unwrap().fix, FixAction::Delete);
    assert!(memory.check("optifin").is_none());
}

#[test]
fn records_from_search_and_dependency() {
    let picked = ModInfo::from_search("Sodium".to_string(), Some("AANobbMI".to_string()));
    assert_eq!(picked.key, "Sodium");
    assert_eq!(picked.name, "Sodium");
    assert_eq!(picked.detected_project_id, Some("AANobbMI".to_string()));
    assert_eq!(picked.confirmed_project_id, Some("AANobbMI".to_string()));
    assert_eq!(picked.version_local, Some("Universal".to_string()));
    assert!(picked.selected);
    assert_eq!(picked.version_remote, None);
    assert_eq!(picked.depends, None);

    let dep = ModInfo::from_dep(
        "fabric-api-0.92.jar".to_string(),
        "Fabric API".to_string(),
        "P7dR8mSH".to_string(),
        "fabric-api".to_string(),
    );
    assert_eq!(dep.key, "fabric-api-0.92.jar");
    assert_eq!(dep.name, "Fabric API");
    assert_eq!(dep.detected_project_id, Some("fabric-api".to_string()));
    assert_eq!(dep.confirmed_project_id, Some("P7dR8mSH".to_string()));
    assert_eq!(dep.version_local, Some("Universal".to_string()));
    assert!(dep.selected);

    let empty = ModInfo::default();
    assert!(!empty.selected);
    assert_eq!(empty.key, "");
    assert_eq!(empty.clone(), empty);
}

#[test]
fn only_releases_are_offered() {
    let entry = |id: &str, kind: &str| VersionInfo { id: id.to_string(), version_type: kind.to_string() };
    let manifest = VersionManifest {
        versions: vec![
            entry("1.21.4", "release"),
            entry("24w40a", "snapshot"),
            entry("1.20.1", "release"),
            entry("b1.7.3", "old_beta"),
        ],
    };
    assert_eq!(get_minecraft_versions(&manifest), vec!["1.21.4", "1.20.1"]);
}

#[test]
fn game_directories() {
    let paths = Paths::new("/home/me/.minecraft".to_string());
    assert_eq!(paths.base_game_folder, "/home/me/.minecraft");
    assert_eq!(paths.mods_folder, "/home/me/.minecraft/mods");
    assert_eq!(paths.versions_folder, "/home/me/.minecraft/versions");
    assert_eq!(paths.modpacks_folder, "/home/me/.minecraft/modpacks");
    assert_eq!(paths.saves_folder, "/home/me/.minecraft/saves");
    assert_eq!(join_path("/game/", "mods"), "/game/mods");
    assert_eq!(join_path("", "mods"), "mods");
}

#[test]
fn text_helpers() {
    assert_eq!(string_of(&chars_of("héllo")), "héllo");
    assert!(str_eq("abc", "abc"));
    assert!(!str_eq("abc", "abd"));
    assert!(eq_ignore_ascii_case("FaBrIc", "fabric"));
    assert!(!eq_ignore_ascii_case("É", "é"));
    assert_eq!(find_text(&chars("abcabc"), &chars("bc")), Some(1));
    assert_eq!(find_text(&chars("abc"), &chars("")), Some(0));
    assert_eq!(find_text(&chars("abc"), &chars("abcd")), None);
    assert_eq!(rfind_char(&chars("a-b-c"), '-'), Some(3));
    assert_eq!(rfind_char(&chars("abc"), '-'), None);
    assert_eq!(decimal_string(0), "0");
    assert_eq!(decimal_string(1203), "1203");
    assert_eq!(decimal_string(u64::MAX), "18446744073709551615");
    assert_eq!(parse_decimal(&chars("0042")), Some(42));
    assert_eq!(parse_decimal(&chars("+7")), Some(7));
    assert_eq!(parse_decimal(&chars("")), None);
    assert_eq!(parse_decimal(&chars("+")), None);
    assert_eq!(parse_decimal(&chars("-1")), None);
    assert_eq!(parse_decimal(&chars("1 ")), None);
    assert_eq!(parse_decimal(&chars("18446744073709551615")), Some(u64::MAX));
    assert_eq!(parse_decimal(&chars("18446744073709551616")), None);
    assert!(is_blank_str(" \t\n"));
    assert!(is_blank_str(""));
    assert!(!is_blank_str(" x "));
    assert_eq!(string_of(&remove_all(&chars("a>=b>=>c"), &chars(">="))), "ab>c");
    assert_eq!(string_of(&remove_all(&chars("aaa"), &chars("aa"))), "a");
    assert_eq!(split_words(&chars("  one two\tthree \n")), vec!["one", "two", "three"]);
    assert!(split_words(&chars("   ")).is_empty());
    assert_eq!(join_texts(&vec!["a".to_string(), "b".to_string(), "c".to_string()], ", "), "a, b, c");
    assert_eq!(join_texts(&vec![], ", "), "");
    // every character that the standard library counts as white space
    for code in 0..=0x3000u32 {
        if let Some(c) = char::from_u32(code) {
            assert_eq!(is_whitespace(c), c.is_whitespace(), "U+{:04X}", code);
        }
    }
}

#[test]
fn text_map_keeps_insertion_order() {
    let mut map: TextMap<u32> = TextMap::new();
    map.insert("b".to_string(), 1);
    map.insert("a".to_string(), 2);
    map.insert("b".to_string(), 3);
    assert_eq!(map.len(), 2);
    assert_eq!(map.get("b"), Some(&3));
    assert_eq!(map.key_at(0), "b");
    assert_eq!(*map.value_at(1), 2);
    assert!(map.contains_key("a"));
    assert!(map.remove("b"));
    assert!(!map.remove("b"));
    assert_eq!(map.position("a"), Some(0));
    map.insert("c".to_string(), 4);
    assert_eq!(map.retain_listed(&vec!["c".to_string()]), 1);
    assert_eq!(map.len(), 1);
    assert_eq!(map.get("c"), Some(&4));
}

fn datapack(entries: &[(&str, &[u8])]) -> Vec<u8> {
    let mut writer = zip::ZipWriter::new(std::io::Cursor::new(Vec::new()));
    for (name, content) in entries {
        writer.start_file(name.to_string(), zip::write::SimpleFileOptions::default()).unwrap();
        writer.write_all(content).unwrap();
    }
    writer.finish().unwrap().into_inner()
}

#[test]
fn datapack_with_description() {
    let bytes = datapack(&[
        ("pack.mcmeta", br#"{"pack": {"pack_format": 48, "description": "x", "supported_formats": [41, 48, 45]}}"#),
        ("data/minecraft/tags/a.json", b"{}"),
        ("data/terralith/worldgen/b.json", b"{}"),
        ("data/terralith/worldgen/c.json", b"{}"),
        ("pack.png", b"png"),
    ]);
    let info = read_single_datapack(&bytes, "Terralith_1.21_v2.5.8.zip").unwrap();
    assert_eq!(
        info,
        DatapackInfo {
            key: "Terralith_1.21_v2.5.8.zip".to_string(),
            name: "Terralith".to_string(),
            detected_project_id: Some("terralith".to_string()),
            confirmed_project_id: None,
            pack_format: Some(48),
            supported_formats: Some((41, 48)),
            mc_version: Some("1.21.1".to_string()),
            version_local: Some("2.5.8".to_string()),
            version_remote: None,
            selected: true,
            file_size_bytes: None,
            file_mtime_secs: None,
        }
    );
}

#[test]
fn datapack_id_and_formats() {
    let with_id = datapack(&[
        ("pack.mcmeta", br#"{"pack": {"pack_format": 15, "id": "my-pack", "supported_formats": {"min_inclusive": 15, "max_inclusive": 18}}}"#),
        ("data/other/x.json", b"{}"),
    ]);
    let info = read_single_datapack(&with_id, "pack.zip").unwrap();
    assert_eq!(info.detected_project_id, Some("my-pack".to_string()));
    assert_eq!(info.supported_formats, Some((15, 18)));
    assert_eq!(info.mc_version, Some("1.20.1".to_string()));

    let single = datapack(&[("pack.mcmeta", br#"{"pack": {"pack_format": 11, "supported_formats": 12}}"#)]);
    let info = read_single_datapack(&single, "pack.zip").unwrap();
    assert_eq!(info.supported_formats, Some((12, 12)));
    assert_eq!(info.mc_version, None);
    assert_eq!(info.detected_project_id, None);
}

#[test]
fn datapack_with_several_namespaces() {
    assert_eq!(entry_namespace("data/terralith/x.json"), Some("terralith".to_string()));
    assert_eq!(entry_namespace("data\\terralith\\x.json"), Some("terralith".to_string()));
    assert_eq!(entry_namespace("data/terralith"), Some("terralith".to_string()));
    assert_eq!(entry_namespace("data/minecraft/x.json"), None);
    assert_eq!(entry_namespace("data//x.json"), None);
    assert_eq!(entry_namespace("data/"), None);
    assert_eq!(entry_namespace("assets/terralith/x.json"), None);
    let names = vec![
        Some("data/c2me/a".to_string()),
        None,
        Some("data/Tectonic/b".to_string()),
        Some("data/c2me/c".to_string()),
        Some("data/minecraft/d".to_string()),
    ];
    let namespaces = collect_namespaces(&names);
    assert_eq!(namespaces, vec!["c2me", "Tectonic"]);
    assert_eq!(
        detect_project_id(None, &namespaces, "tectonic-datapack-2.4.zip"),
        Some("Tectonic".to_string())
    );
    assert_eq!(detect_project_id(None, &namespaces, "unrelated.zip"), Some("c2me".to_string()));
    assert_eq!(
        detect_project_id(Some("given".to_string()), &namespaces, "x.zip"),
        Some("given".to_string())
    );
    assert_eq!(detect_project_id(None, &vec![], "x.zip"), None);
}

#[test]
fn datapack_errors() {
    assert_eq!(read_single_datapack(b"nope", "a.zip"), Err(DatapackError::NotAnArchive));
    let no_meta = datapack(&[("data/x/y.json", b"{}"), ("sub/pack.mcmeta", b"{}")]);
    assert_eq!(read_single_datapack(&no_meta, "a.zip"), Err(DatapackError::NoPackMeta));
    let empty_meta = datapack(&[("pack.mcmeta", b"")]);
    assert_eq!(read_single_datapack(&empty_meta, "a.zip"), Err(DatapackError::NoPackMeta));
    for bad in [
        &br#"{"pack": {}}"#[..],
        &br#"{"pack": {"pack_format": "15"}}"#[..],
        &br#"{"pack": {"pack_format": -1}}"#[..],
        &br#"{"pack": {"pack_format": 4294967296}}"#[..],
        &br#"{"pack": {"pack_format": 15, "supported_formats": [15, "x"]}}"#[..],
        &br#"{"pack": {"pack_format": 15, "supported_formats": {"min_inclusive": 1}}}"#[..],
        &br#"{"pack": {"pack_format": 15, "supported_formats": "15"}}"#[..],
        &b"not json"[..],
    ] {
        let bytes = datapack(&[("pack.mcmeta", bad)]);
        assert_eq!(read_single_datapack(&bytes, "a.zip"), Err(DatapackError::BadPackMeta));
    }
    assert_eq!(DatapackError::NoPackMeta.message(), "pack.mcmeta not found");
    let minimal = minimal_info("Terralith_1.21_v2.5.8.zip");
    assert_eq!(minimal.name, "Terralith");
    assert!(minimal.selected);
    assert_eq!(minimal.pack_format, None);
}
