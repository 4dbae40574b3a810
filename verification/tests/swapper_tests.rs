use mods_updater::swapper::{
    active_marker_name, active_modpack, is_active, is_partial_download, read_active_marker,
    Strategy, SwapAction, SwapPhase, Swapper, TargetKind,
};

fn marker(name: &str) -> SwapAction {
    SwapAction::WriteMarker { name: name.to_string() }
}

fn known() -> Vec<String> {
    vec!["mods1.19".to_string(), "mods1.20.1".to_string()]
}

#[test]
fn link_wins() {
    let (mut swapper, first) = Swapper::start("mods1.20.1", TargetKind::Link);
    assert_eq!(first, SwapAction::RemoveLink);
    assert_eq!(swapper.step(Ok(())), SwapAction::MakeLink);
    assert_eq!(swapper.step(Ok(())), marker("mods1.20.1"));
    assert_eq!(swapper.phase(), SwapPhase::Marking(Strategy::Link));
    assert_eq!(
        swapper.step(Ok(())),
        SwapAction::Finish(Ok("Mods switched to 'mods1.20.1' using a link.".to_string()))
    );
    assert_eq!(swapper.phase(), SwapPhase::Finished);
    assert_eq!(swapper.name(), "mods1.20.1");
}

#[test]
fn cleaning_depends_on_what_is_in_the_way() {
    assert_eq!(Swapper::start("p", TargetKind::Directory).1, SwapAction::RemoveTree);
    assert_eq!(Swapper::start("p", TargetKind::Missing).1, SwapAction::MakeLink);
    assert_eq!(Swapper::start("p", TargetKind::Other).1, SwapAction::MakeLink);
    // a failed removal does not stop the switch
    let (mut swapper, _) = Swapper::start("p", TargetKind::Directory);
    assert_eq!(swapper.step(Err("busy".to_string())), SwapAction::MakeLink);
}

#[test]
fn swap_cascade_to_hard_links() {
    // the file system forbids links but source and target share a volume
    let (mut swapper, first) = Swapper::start("mods1.20.1", TargetKind::Missing);
    assert_eq!(first, SwapAction::MakeLink);
    assert_eq!(swapper.step(Err("operation not permitted".to_string())), SwapAction::MakeHardLinks);
    assert_eq!(swapper.step(Ok(())), marker("mods1.20.1"));
    assert_eq!(
        swapper.step(Ok(())),
        SwapAction::Finish(Ok("Mods switched to 'mods1.20.1' using hard links.".to_string()))
    );
    // no link can be read, but the marker tells the active modpack
    let written = "mods1.20.1";
    assert!(is_active(None, Some(&read_active_marker(written)), &known(), "mods1.20.1"));
    assert!(!is_active(None, Some(written), &known(), "mods1.19"));
}

#[test]
fn copy_is_the_last_resort() {
    let (mut swapper, _) = Swapper::start("pack", TargetKind::Missing);
    assert_eq!(swapper.step(Err("no links".to_string())), SwapAction::MakeHardLinks);
    // what the hard links left behind is cleared before the copy
    assert_eq!(swapper.step(Err("cross-device".to_string())), SwapAction::RemoveTree);
    assert_eq!(swapper.step(Ok(())), SwapAction::CopyFiles);
    assert_eq!(swapper.step(Ok(())), marker("pack"));
    assert_eq!(
        swapper.step(Ok(())),
        SwapAction::Finish(Ok("Mods switched to 'pack' using a copy.".to_string()))
    );
}

#[test]
fn total_failure_names_all_three_reasons() {
    let (mut swapper, _) = Swapper::start("pack", TargetKind::Missing);
    swapper.step(Err("E1".to_string()));
    swapper.step(Err("E2".to_string()));
    swapper.step(Err("could not clear".to_string()));
    assert_eq!(
        swapper.step(Err("E3".to_string())),
        SwapAction::Finish(Err(
            "Could not switch mods.\nLink: E1\nHard links: E2\nCopy: E3".to_string()
        ))
    );
    assert_eq!(
        swapper.step(Ok(())),
        SwapAction::Finish(Err("The switch is over.".to_string()))
    );
}

#[test]
fn marker_failure_matters_only_without_a_link() {
    let (mut linked, _) = Swapper::start("pack", TargetKind::Missing);
    linked.step(Ok(()));
    assert_eq!(
        linked.step(Err("read-only".to_string())),
        SwapAction::Finish(Ok("Mods switched to 'pack' using a link.".to_string()))
    );

    let (mut copied, _) = Swapper::start("pack", TargetKind::Missing);
    copied.step(Err("E1".to_string()));
    copied.step(Ok(()));
    assert_eq!(
        copied.step(Err("read-only".to_string())),
        SwapAction::Finish(Err(
            "Mods switched to 'pack' but the active marker could not be written: read-only"
                .to_string()
        ))
    );
}

#[test]
fn switching_twice_asks_for_the_same() {
    let run = || {
        let (mut swapper, first) = Swapper::start("pack", TargetKind::Link);
        vec![first, swapper.step(Ok(())), swapper.step(Ok(())), swapper.step(Ok(()))]
    };
    assert_eq!(run(), run());
}

#[test]
fn active_modpack_by_link_or_marker() {
    let known = known();
    assert_eq!(
        active_modpack(Some("/game/modpacks/mods1.20.1"), Some("mods1.19"), &known),
        Some("mods1.20.1".to_string())
    );
    assert_eq!(
        active_modpack(Some("C:\\game\\modpacks\\mods1.19"), None, &known),
        Some("mods1.19".to_string())
    );
    // a link that names no known modpack leaves the word to the marker
    assert_eq!(
        active_modpack(Some("/somewhere/else"), Some("mods1.19"), &known),
        Some("mods1.19".to_string())
    );
    assert_eq!(
        active_modpack(Some("/game/modpacks/xmods1.19"), None, &known),
        None
    );
    assert_eq!(active_modpack(None, Some("anything"), &known), Some("anything".to_string()));
    assert_eq!(active_modpack(None, None, &known), None);
    assert!(is_active(Some("mods1.19"), None, &known, "mods1.19"));
}

#[test]
fn marker_content_is_trimmed() {
    assert_eq!(read_active_marker("mods1.20.1\n"), "mods1.20.1");
    assert_eq!(read_active_marker("  my pack \r\n\t"), "my pack");
    assert_eq!(read_active_marker(" \n "), "");
    assert_eq!(read_active_marker(""), "");
    assert_eq!(active_marker_name(), "mods_updater_active_modpack.txt");
}

#[test]
fn partial_downloads() {
    assert!(is_partial_download("sodium.jar.part"));
    assert!(is_partial_download("a.part"));
    assert!(!is_partial_download(".part"));
    assert!(!is_partial_download("sodium.jar"));
    assert!(!is_partial_download("part"));
    assert!(!is_partial_download("a.PART"));
}
