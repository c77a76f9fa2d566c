use shroudforge::updater::{check_archive, check_managed_path, check_roots, checksum_matches, finish_managed_paths, merges_manifest, mod_install_conflict,
    request_install_after_game, request_update_window, request_worker, stage_request_check, status_progress, system_stage_conflict, task_id,
    to_lowercase, update_window_task_id};

fn strings(values: &[&str]) -> Vec<String> {
    values.iter().map(|s| s.to_string()).collect()
}

#[test]
fn managed_paths_are_release_files_only() {
    assert!(check_managed_path("winmm.dll").is_ok());
    assert!(check_managed_path("mods/example/src/mod.lua").is_ok());
    assert_eq!(check_managed_path("../evil.dll").unwrap_err(), "unsafe managed path: ../evil.dll");
    assert!(check_managed_path("mods/../shroudforge.exe").is_err());
    assert!(check_managed_path("mods\\a.lua").is_err());
    assert!(check_managed_path("C:/mods/a.lua").is_err());
    assert!(check_managed_path("notepad.exe").is_err());
    assert!(check_managed_path("").is_err());
    assert!(check_managed_path("shroudforge/config/state.json").is_err());
    assert_eq!(
        finish_managed_paths(&strings(&["winmm.dll", "shroudforge/version.json", "winmm.dll"])).unwrap(),
        strings(&["shroudforge/version.json", "winmm.dll"])
    );
    assert_eq!(finish_managed_paths(&strings(&["winmm.dll"])).unwrap_err(), "release must manage shroudforge/version.json");
}

#[test]
fn staged_updates_stay_under_the_updates_directory() {
    let root = strings(&["C:", "Games", "Enshrouded"]);
    assert!(check_roots(&root, &strings(&["C:", "Games", "Enshrouded", "shroudforge", "updates", "staged"])).is_ok());
    assert_eq!(
        check_roots(&root, &strings(&["C:", "Games", "Enshrouded"])).unwrap_err(),
        "staged update is outside shroudforge/updates"
    );
    assert!(check_roots(&root, &strings(&["C:", "Temp", "Enshrouded", "shroudforge", "updates"])).is_err());
    assert!(check_roots(&root, &strings(&["C:", "Games", "Enshrouded", "mods", "updates"])).is_err());
    assert!(merges_manifest("mods/example/mod.json", true));
    assert!(!merges_manifest("mods/example/mod.json", false));
    assert!(!merges_manifest("mods/example/src/mod.lua", true));
    assert!(!merges_manifest("shroudforge/mod.json", true));
}

#[test]
fn stage_requests_and_checksums() {
    let checksum = "BA7816BF8F01CFEA414140DE5DAE2223B00361A396177A9CB410FF61F20015AD";
    assert_eq!(stage_request_check("https://x/release.zip", checksum), Ok(checksum.to_lowercase()));
    assert_eq!(stage_request_check("http://x/release.zip", checksum).unwrap_err(), "stage request URL or SHA-256 checksum is invalid");
    assert!(stage_request_check("https://x", "abc").is_err());
    assert!(checksum_matches(&vec![0xab, 0x01], "ab01"));
    assert!(!checksum_matches(&vec![0xab, 0x01], "AB01"));
    assert_eq!(to_lowercase("MiXeD-Ä"), "mixed-Ä");
}

#[test]
fn scheduled_task_names() {
    let id = task_id("c:/games/enshrouded");
    assert_eq!(id, "ShroudForgeUpdater_a58179b6ef950386");
    assert_eq!(task_id("C:/Games/Enshrouded"), id);
    assert_eq!(id, task_id("c:/games/enshrouded"));
    assert_ne!(id, task_id("d:/games/enshrouded"));
    assert_eq!(update_window_task_id("c:/games/enshrouded"), format!("{id}_Window"));
}

#[test]
fn queue_conflicts_and_progress() {
    assert!(mod_install_conflict(Some("p"), "p").is_none());
    assert_eq!(mod_install_conflict(Some("q"), "p").unwrap(), "another catalog install is already queued or running");
    assert!(mod_install_conflict(None, "p").is_some());
    assert!(system_stage_conflict(Some("1.0.0"), Some("1.0.0")).is_none());
    assert!(system_stage_conflict(None, None).is_none());
    assert!(system_stage_conflict(Some("1.0.0"), None).is_some());
    let queued = status_progress("queued", None, Some("1.0.0".to_string()), Some(5), Some(10), Some(2));
    assert_eq!((queued.version.as_deref(), queued.downloaded_bytes, queued.total_bytes, queued.bytes_per_second), (Some("1.0.0"), 0, None, None));
    let running = status_progress("downloading", Some("2.0.0".to_string()), None, Some(5), Some(10), Some(2));
    assert_eq!((running.version.as_deref(), running.downloaded_bytes, running.total_bytes, running.bytes_per_second), (Some("2.0.0"), 5, Some(10), Some(2)));
}

#[test]
fn archives_are_bounded_and_other_platforms_refuse() {
    assert!(check_archive(&vec![1, 2, 3]).is_ok());
    assert_eq!(check_archive(&vec![u64::MAX, 1]).unwrap_err(), "expanded update archive exceeds 16 GiB");
    assert_eq!(request_worker("/g").unwrap_err(), "scheduled updater is available on Windows only");
    assert_eq!(request_update_window("/g").unwrap_err(), "scheduled updater is available on Windows only");
    assert_eq!(request_install_after_game("/g", 7).unwrap_err(), "scheduled updater is available on Windows only");
}
