use mods_updater::expander::{skip_present_files, Expander, ExpanderAction, PlannedDownload};
use mods_updater::registry::UnifiedDependency;
use mods_updater::resolver::ModDownloadInfo;

fn info(id: &str, deps: &[&str]) -> ModDownloadInfo {
    ModDownloadInfo {
        filename: format!("{}.jar", id.to_lowercase()),
        url: format!("https://cdn.example/{}.jar", id),
        project_id: id.to_string(),
        version_remote: "1.0".to_string(),
        title: id.to_string(),
        slug: id.to_lowercase(),
        dependencies: deps.iter().map(|d| UnifiedDependency { mod_id: d.to_string() }).collect(),
    }
}

fn find(id: &str) -> ExpanderAction {
    ExpanderAction::Find { id: id.to_string() }
}

fn strings(list: &[&str]) -> Vec<String> {
    list.iter().map(|s| s.to_string()).collect()
}

fn ids(plan: &[PlannedDownload]) -> Vec<String> {
    plan.iter().map(|p| p.id.clone()).collect()
}

#[test]
fn transitive_expand() {
    // X requires Y, Y requires Z
    let (mut expander, first) = Expander::start("X", &strings(&["Y"]), &vec![]);
    assert_eq!(first, find("Y"));
    assert!(expander.is_waiting());
    assert_eq!(expander.step(Some(info("Y", &["Z"]))), find("Z"));
    assert_eq!(expander.step(Some(info("Z", &[]))), ExpanderAction::Done);
    assert!(!expander.is_waiting());
    let plan = expander.into_plan();
    assert_eq!(ids(&plan), vec!["Y", "Z"]);

    // Z is on disk already: the caller filters it, only Y is downloaded
    let to_download = skip_present_files(plan, &strings(&["z.jar"]));
    assert_eq!(ids(&to_download), vec!["Y"]);
    assert_eq!(to_download[0].info.filename, "y.jar");
}

#[test]
fn breadth_first_without_repeats() {
    let (mut expander, first) = Expander::start("root", &strings(&["a", "b", "a", "root"]), &vec![]);
    assert_eq!(first, find("a"));
    assert_eq!(expander.step(Some(info("a", &["c", "b", "root"]))), find("b"));
    assert_eq!(expander.step(Some(info("b", &["d", "a"]))), find("c"));
    assert_eq!(expander.step(Some(info("c", &["a", "b", "c", "d"]))), find("d"));
    assert_eq!(expander.step(Some(info("d", &["root"]))), ExpanderAction::Done);
    assert_eq!(ids(&expander.into_plan()), vec!["a", "b", "c", "d"]);
}

#[test]
fn installed_ids_are_never_asked_for() {
    let installed = strings(&["fabric-api", "sodium"]);
    let (mut expander, first) =
        Expander::start("iris", &strings(&["sodium", "fabric-api", "indium"]), &installed);
    assert_eq!(first, find("indium"));
    assert_eq!(expander.step(Some(info("indium", &["sodium", "fabric-api"]))), ExpanderAction::Done);
    let plan = expander.into_plan();
    assert_eq!(ids(&plan), vec!["indium"]);
    for entry in &plan {
        assert!(!installed.contains(&entry.id));
    }
}

#[test]
fn a_miss_is_passed_over() {
    let (mut expander, first) = Expander::start("X", &strings(&["gone", "Y"]), &vec![]);
    assert_eq!(first, find("gone"));
    assert_eq!(expander.step(None), find("Y"));
    assert_eq!(expander.step(Some(info("Y", &["gone"]))), ExpanderAction::Done);
    assert_eq!(ids(&expander.into_plan()), vec!["Y"]);
}

#[test]
fn nothing_to_expand() {
    let (mut expander, first) = Expander::start("X", &vec![], &strings(&["a"]));
    assert_eq!(first, ExpanderAction::Done);
    // an answer that nobody waits for changes nothing
    assert_eq!(expander.step(Some(info("stray", &["more"]))), ExpanderAction::Done);
    assert_eq!(expander.step(None), ExpanderAction::Done);
    assert!(expander.into_plan().is_empty());
}

#[test]
fn cycles_end() {
    let (mut expander, mut action) = Expander::start("a", &strings(&["b"]), &vec![]);
    let mut asked = Vec::new();
    while let ExpanderAction::Find { id } = action {
        let deps: Vec<&str> = match id.as_str() {
            "b" => vec!["c", "a"],
            "c" => vec!["a", "b", "c"],
            _ => vec![],
        };
        let found = info(&id, &deps);
        asked.push(id);
        action = expander.step(Some(found));
    }
    assert_eq!(asked, vec!["b", "c"]);
}
