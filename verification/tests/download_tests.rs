use mods_updater::cache::{update_remote_info, upsert_mod, ContentCache};
use mods_updater::download::{
    after_rename, after_resolve, after_transfer, begin_job, compose_candidate_id, progress_event,
    DownloadEvent, DownloadJob, FileAction, Transfer,
};
use mods_updater::models::ModInfo;
use mods_updater::resolver::ModDownloadInfo;

fn job() -> DownloadJob {
    let mut modinfo = ModInfo::default();
    modinfo.key = "sodium-0.5.0.jar".to_string();
    modinfo.name = "Sodium".to_string();
    modinfo.detected_project_id = Some("sodium".to_string());
    DownloadJob {
        key: "sodium-0.5.0.jar".to_string(),
        modinfo,
        output_folder: "/game/modpacks/mods1.20.1".to_string(),
        selected_version: "1.20.1".to_string(),
        selected_loader: "fabric".to_string(),
    }
}

fn found() -> ModDownloadInfo {
    ModDownloadInfo {
        filename: "sodium-fabric-0.5.3.jar".to_string(),
        url: "https://cdn.example/sodium.jar".to_string(),
        project_id: "AANobbMI".to_string(),
        version_remote: "0.5.3".to_string(),
        title: "Sodium".to_string(),
        slug: "sodium".to_string(),
        dependencies: vec![],
    }
}

fn key() -> String {
    "sodium-0.5.0.jar".to_string()
}

#[test]
fn candidate_id_prefers_confirmed_then_cache_then_detected() {
    let mut cache = ContentCache::new();
    let mut info = ModInfo::default();
    info.name = "Sodium".to_string();
    assert_eq!(compose_candidate_id(&info, &cache), None);
    info.detected_project_id = Some("sodium".to_string());
    assert_eq!(compose_candidate_id(&info, &cache), Some("sodium".to_string()));

    upsert_mod(&mut cache, "old.jar", &info);
    update_remote_info(&mut cache, "old.jar", Some("AANobbMI".to_string()), None);
    assert_eq!(compose_candidate_id(&info, &cache), Some("AANobbMI".to_string()));

    info.confirmed_project_id = Some("mine".to_string());
    assert_eq!(compose_candidate_id(&info, &cache), Some("mine".to_string()));
}

#[test]
fn a_job_that_goes_well() {
    let cache = ContentCache::new();
    let job = job();
    let mut events = Vec::new();

    let (e, query) = begin_job(&job, &cache, "secret");
    events.extend(e);
    assert_eq!(query.name, "Sodium");
    assert_eq!(query.candidate_id, Some("sodium".to_string()));
    assert_eq!(query.game_version, "1.20.1");
    assert_eq!(query.loader, "fabric");
    assert_eq!(query.credential, "secret");

    let info = found();
    let (e, transfer) = after_resolve(&job, Some(&info));
    events.extend(e);
    let transfer = transfer.unwrap();
    assert_eq!(
        transfer,
        Transfer {
            url: "https://cdn.example/sodium.jar".to_string(),
            directory: "/game/modpacks/mods1.20.1".to_string(),
            part_path: "/game/modpacks/mods1.20.1/sodium-fabric-0.5.3.jar.part".to_string(),
            final_path: "/game/modpacks/mods1.20.1/sodium-fabric-0.5.3.jar".to_string(),
        }
    );

    events.extend(progress_event(&job, 512, Some(2048)));
    assert_eq!(progress_event(&job, 512, None), None);

    let (e, action) = after_transfer(&job, &transfer, Ok(()));
    events.extend(e);
    assert_eq!(
        action,
        FileAction::Rename {
            from: "/game/modpacks/mods1.20.1/sodium-fabric-0.5.3.jar.part".to_string(),
            to: "/game/modpacks/mods1.20.1/sodium-fabric-0.5.3.jar".to_string(),
        }
    );
    let (e, action) = after_rename(&job, &transfer, Ok(()));
    events.extend(e);
    assert_eq!(action, FileAction::Nothing);

    assert_eq!(
        events,
        vec![
            DownloadEvent::Resolving { key: key() },
            DownloadEvent::Resolved { key: key() },
            DownloadEvent::ResolvedInfo {
                key: key(),
                confirmed_project_id: Some("AANobbMI".to_string()),
                version_remote: Some("0.5.3".to_string()),
            },
            DownloadEvent::Started { key: key() },
            DownloadEvent::Progress { key: key(), received: 512, total: 2048 },
            DownloadEvent::Done { key: key() },
        ]
    );
}

#[test]
fn a_job_without_a_file() {
    let job = job();
    let (events, transfer) = after_resolve(&job, None);
    assert_eq!(transfer, None);
    assert_eq!(
        events,
        vec![DownloadEvent::Error { key: key(), msg: "no version v1.20.1".to_string() }]
    );
}

#[test]
fn a_failed_transfer_removes_the_partial_file() {
    let job = job();
    let info = found();
    let (_, transfer) = after_resolve(&job, Some(&info));
    let transfer = transfer.unwrap();
    let (events, action) = after_transfer(&job, &transfer, Err("connection reset".to_string()));
    assert_eq!(
        events,
        vec![DownloadEvent::Error { key: key(), msg: "connection reset".to_string() }]
    );
    assert_eq!(
        action,
        FileAction::Remove {
            path: "/game/modpacks/mods1.20.1/sodium-fabric-0.5.3.jar.part".to_string()
        }
    );
}

#[test]
fn a_failed_rename_removes_the_partial_file() {
    let job = job();
    let info = found();
    let (_, transfer) = after_resolve(&job, Some(&info));
    let transfer = transfer.unwrap();
    let (events, action) = after_rename(&job, &transfer, Err("disk full".to_string()));
    assert_eq!(events, vec![DownloadEvent::Error { key: key(), msg: "disk full".to_string() }]);
    assert_eq!(action, FileAction::Remove { path: transfer.part_path.clone() });
}
