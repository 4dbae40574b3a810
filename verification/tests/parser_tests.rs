use mods_updater::archive::{can_open, entry_matches, read_zip_entry};
use mods_updater::json::{element_pointer, member_pointer};
use mods_updater::models::ModInfo;
use mods_updater::parsers::{
    drop_placeholder, new_record, parse_fabric, parse_forge, put_pair,
    read_single_mod, try_all, ReadError,
};
use std::io::Write;

fn archive(entries: &[(&str, &[u8])]) -> Vec<u8> {
    let mut writer = zip::ZipWriter::new(std::io::Cursor::new(Vec::new()));
    for (name, content) in entries {
        writer.start_file(name.to_string(), zip::write::SimpleFileOptions::default()).unwrap();
        writer.write_all(content).unwrap();
    }
    writer.finish().unwrap().into_inner()
}

const FABRIC: &str = r#"{
  "schemaVersion": 1,
  "id": "sodium",
  "name": "Sodium",
  "version": "0.5.0+mc1.20.1",
  "depends": {
    "fabricloader": ">=0.12.0",
    "minecraft": ["1.20", "1.20.1", 7],
    "java": 17,
    "empty": []
  }
}"#;

const FORGE: &str = r#"
modLoader = "javafml"
loaderVersion = "[47,)"

[[mods]]
modId = "jei"
version = "${file.jarVersion}"
displayName = "Just Enough Items"

[[mods]]
modId = "second"

[[dependencies.jei]]
modId = "forge"
mandatory = true
versionRange = "[47,)"

[[dependencies.jei]]
modId = "minecraft"
mandatory = true
"#;

fn pairs(list: &[(&str, &str)]) -> Option<Vec<(String, String)>> {
    Some(list.iter().map(|(k, v)| (k.to_string(), v.to_string())).collect())
}

#[test]
fn fabric_description_gives_the_record() {
    let info = parse_fabric(FABRIC, "sodium-0.5.0+mc1.20.1.jar").unwrap();
    let mut expected = ModInfo::default();
    expected.key = "sodium-0.5.0+mc1.20.1.jar".to_string();
    expected.name = "Sodium".to_string();
    expected.detected_project_id = Some("sodium".to_string());
    expected.version_local = Some("0.5.0+mc1.20.1".to_string());
    expected.selected = true;
    expected.depends = pairs(&[("fabricloader", ">=0.12.0"), ("minecraft", "1.20||1.20.1")]);
    assert_eq!(info, expected);
}

#[test]
fn fabric_description_without_optional_fields() {
    let info = parse_fabric(r#"{"id": "a", "name": "A", "version": null}"#, "a.jar").unwrap();
    assert_eq!(info.version_local, None);
    assert_eq!(info.depends, None);
    assert_eq!(info.detected_project_id, Some("a".to_string()));
}

#[test]
fn fabric_description_that_is_invalid_gives_nothing() {
    assert_eq!(parse_fabric("not json", "a.jar"), None);
    assert_eq!(parse_fabric(r#"["id", "name"]"#, "a.jar"), None);
    assert_eq!(parse_fabric(r#"{"name": "A"}"#, "a.jar"), None);
    assert_eq!(parse_fabric(r#"{"id": "a"}"#, "a.jar"), None);
    assert_eq!(parse_fabric(r#"{"id": 1, "name": "A"}"#, "a.jar"), None);
    assert_eq!(parse_fabric(r#"{"id": "a", "name": "A", "version": 3}"#, "a.jar"), None);
    assert_eq!(parse_fabric(r#"{"id": "a", "name": "A", "depends": "x"}"#, "a.jar"), None);
}

#[test]
fn fabric_dependency_keys_with_slash_and_tilde() {
    let doc = r#"{"id": "a", "name": "A", "depends": {"x/y": "1", "p~q": ["2", "3"]}}"#;
    let info = parse_fabric(doc, "a.jar").unwrap();
    let mut depends = info.depends.unwrap();
    depends.sort();
    assert_eq!(Some(depends), pairs(&[("p~q", "2||3"), ("x/y", "1")]));
}

#[test]
fn pointers() {
    assert_eq!(member_pointer("/depends", "fabric-api"), "/depends/fabric-api");
    assert_eq!(member_pointer("", "a/b~c"), "/a~1b~0c");
    assert_eq!(element_pointer("/mods", 0), "/mods/0");
    assert_eq!(element_pointer("/mods", 120), "/mods/120");
}

#[test]
fn forge_description_gives_the_record() {
    let info = parse_forge(FORGE, "jei-1.20.1.jar").unwrap();
    let mut expected = ModInfo::default();
    expected.key = "jei-1.20.1.jar".to_string();
    expected.name = "Just Enough Items".to_string();
    expected.detected_project_id = Some("jei".to_string());
    // a version that still holds a build placeholder is dropped
    expected.version_local = None;
    expected.selected = true;
    expected.depends = pairs(&[("forge", "[47,)"), ("minecraft", "*")]);
    assert_eq!(info, expected);
}

#[test]
fn forge_description_named_by_its_id() {
    let doc = "[[mods]]\nmodId = \"create\"\nversion = \"0.5.1\"\n";
    let info = parse_forge(doc, "create.jar").unwrap();
    assert_eq!(info.name, "create");
    assert_eq!(info.version_local, Some("0.5.1".to_string()));
    assert_eq!(info.depends, None);
}

#[test]
fn forge_dependencies_collapse_to_one_list() {
    let doc = r#"
[[mods]]
modId = "a"
[[dependencies.a]]
modId = "forge"
versionRange = "[40,)"
[[dependencies.b]]
modId = "forge"
versionRange = "[47,)"
[[dependencies.b]]
modId = "minecraft"
versionRange = "[1.20,1.21)"
"#;
    let info = parse_forge(doc, "a.jar").unwrap();
    assert_eq!(info.depends, pairs(&[("forge", "[47,)"), ("minecraft", "[1.20,1.21)")]));
}

#[test]
fn forge_dependency_without_id_drops_all_dependencies() {
    let doc = "[[mods]]\nmodId = \"a\"\n[[dependencies.a]]\nversionRange = \"1\"\n";
    let info = parse_forge(doc, "a.jar").unwrap();
    assert_eq!(info.depends, None);
}

#[test]
fn forge_description_that_is_invalid_gives_nothing() {
    assert_eq!(parse_forge("not = [toml", "a.jar"), None);
    assert_eq!(parse_forge("modLoader = \"javafml\"\n", "a.jar"), None);
    assert_eq!(parse_forge("[[mods]]\ndisplayName = \"No id\"\n", "a.jar"), None);
    assert_eq!(parse_forge("[[mods]]\nmodId = \"a\"\nversion = 3\n", "a.jar"), None);
}

#[test]
fn forge_mods_have_to_be_a_list() {
    // a table with the key `0` is no list of mods
    let doc = "[mods.0]\nmodId = \"a\"\n";
    assert_eq!(parse_forge(doc, "a.jar"), None);
    assert_eq!(parse_forge("mods = \"a\"\n", "a.jar"), None);
}

#[test]
fn arrays_of_constraints_are_joined_by_two_bars() {
    let doc = r#"{"id":"a","name":"A","depends":{"minecraft":["1.20","1.20.1"],"b":">=1"}}"#;
    let info = parse_fabric(doc, "a.jar").unwrap();
    assert_eq!(info.key, "a.jar");
    assert_eq!(info.name, "A");
    assert_eq!(info.detected_project_id, Some("a".to_string()));
    assert_eq!(info.confirmed_project_id, None);
    let mut depends = info.depends.unwrap();
    depends.sort();
    assert_eq!(Some(depends), pairs(&[("b", ">=1"), ("minecraft", "1.20||1.20.1")]));
}

#[test]
fn dependencies_name_no_id_twice() {
    let doc = r#"
[[mods]]
modId = "a"
[[dependencies.a]]
modId = "forge"
versionRange = "[40,)"
[[dependencies.a]]
modId = "forge"
versionRange = "[41,)"
"#;
    let info = parse_forge(doc, "a.jar").unwrap();
    assert_eq!(info.depends, pairs(&[("forge", "[41,)")]));
}

#[test]
fn placeholder_versions() {
    assert_eq!(drop_placeholder(Some("${file.jarVersion}".to_string())), None);
    assert_eq!(drop_placeholder(Some("1.0-${x}".to_string())), None);
    assert_eq!(drop_placeholder(Some("1.0$".to_string())), Some("1.0$".to_string()));
    assert_eq!(drop_placeholder(None), None);
}

#[test]
fn put_pair_replaces_in_place() {
    let mut list = vec![("a".to_string(), "1".to_string()), ("b".to_string(), "2".to_string())];
    put_pair(&mut list, "a".to_string(), "3".to_string());
    put_pair(&mut list, "c".to_string(), "4".to_string());
    assert_eq!(Some(list), pairs(&[("a", "3"), ("b", "2"), ("c", "4")]));
}

#[test]
fn new_record_is_selected_and_unresolved() {
    let r = new_record("k.jar", "N".to_string(), "id".to_string(), None, None);
    assert_eq!(r.key, "k.jar");
    assert!(r.selected);
    assert_eq!(r.confirmed_project_id, None);
    assert_eq!(r.file_size_bytes, None);
}

#[test]
fn entry_names_fit_by_path_or_basename() {
    assert!(entry_matches("fabric.mod.json", "fabric.mod.json"));
    assert!(entry_matches("sub/fabric.mod.json", "fabric.mod.json"));
    assert!(entry_matches("META-INF\\mods.toml", "META-INF/mods.toml"));
    assert!(entry_matches("jar\\META-INF\\mods.toml", "META-INF/mods.toml"));
    assert!(!entry_matches("xfabric.mod.json", "fabric.mod.json"));
    assert!(!entry_matches("fabric.mod.json.bak", "fabric.mod.json"));
    assert!(!entry_matches("", "fabric.mod.json"));
}

#[test]
fn reads_the_first_entry_that_fits_and_is_not_empty() {
    let bytes = archive(&[
        ("other.txt", b"nothing"),
        ("nested/fabric.mod.json", b""),
        ("bad/fabric.mod.json", &[0xff, 0xfe, 0x00]),
        ("fabric.mod.json", b"first"),
        ("again/fabric.mod.json", b"second"),
    ]);
    assert!(can_open(&bytes));
    assert_eq!(read_zip_entry(&bytes, "fabric.mod.json"), Some("first".to_string()));
    assert_eq!(read_zip_entry(&bytes, "other.txt"), Some("nothing".to_string()));
    assert_eq!(read_zip_entry(&bytes, "missing.txt"), None);
}

#[test]
fn bytes_that_are_no_archive() {
    assert!(!can_open(b"this is not a zip file"));
    assert_eq!(read_zip_entry(b"this is not a zip file", "fabric.mod.json"), None);
    assert_eq!(read_single_mod(b"", "a.jar"), Err(ReadError::NotAnArchive));
}

#[test]
fn the_first_description_wins() {
    let both = archive(&[("META-INF/mods.toml", FORGE.as_bytes()), ("fabric.mod.json", FABRIC.as_bytes())]);
    let info = try_all(&both, "both.jar").unwrap();
    assert_eq!(info.detected_project_id, Some("sodium".to_string()));

    let forge_only = archive(&[("META-INF/mods.toml", FORGE.as_bytes())]);
    let info = read_single_mod(&forge_only, "jei.jar").unwrap();
    assert_eq!(info.detected_project_id, Some("jei".to_string()));
    assert_eq!(info.key, "jei.jar");

    // a first description that cannot be read leaves the turn to the second
    let broken_first =
        archive(&[("fabric.mod.json", b"{ broken"), ("META-INF/mods.toml", FORGE.as_bytes())]);
    let info = try_all(&broken_first, "x.jar").unwrap();
    assert_eq!(info.detected_project_id, Some("jei".to_string()));
}

#[test]
fn archive_without_description() {
    let bytes = archive(&[("readme.txt", b"hello")]);
    assert_eq!(try_all(&bytes, "x.jar"), None);
    assert_eq!(read_single_mod(&bytes, "x.jar"), Err(ReadError::NoMetadata));
    assert_eq!(ReadError::NotAnArchive.message(), "not a valid ZIP archive");
    assert_eq!(
        ReadError::NoMetadata.message(),
        "no mod metadata found (neither fabric.mod.json nor META-INF/mods.toml)"
    );
}
