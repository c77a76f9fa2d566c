use shroudforge::manifest::Capability;
use shroudforge::modules::{alias_key, entrypoint_key, module_file, runs_in_asset_pass, ModuleCache, RequireStart};

#[test]
fn modules_load_once_and_cycles_are_detected() {
    let mut cache: ModuleCache<u32> = ModuleCache::new();
    assert_eq!(cache.begin("mods.a.util"), RequireStart::Load);
    assert_eq!(cache.begin("mods.a.util"), RequireStart::Circular);
    cache.finish("mods.a.util", Some(7));
    assert_eq!(cache.get("mods.a.util"), Some(&7));
    assert_eq!(cache.begin("mods.a.util"), RequireStart::Cached);
}

#[test]
fn a_failed_load_caches_nothing_and_may_be_retried() {
    let mut cache: ModuleCache<String> = ModuleCache::new();
    assert_eq!(cache.begin("mods:a"), RequireStart::Load);
    cache.finish("mods:a", None);
    assert!(cache.get("mods:a").is_none());
    assert_eq!(cache.begin("mods:a"), RequireStart::Load);
    cache.finish("mods:a", Some("table".to_string()));
    cache.insert("mods.a", "alias".to_string());
    cache.insert("mods.a", "replaced".to_string());
    assert_eq!(cache.get("mods.a").map(String::as_str), Some("replaced"));
    assert_eq!(cache.get("mods:a").map(String::as_str), Some("table"));
}

#[test]
fn module_paths_name_files_under_src() {
    assert_eq!(module_file("util.math"), "src/util/math.lua");
    assert_eq!(module_file("mod"), "src/mod.lua");
    assert_eq!(module_file(""), "");
    assert_eq!(entrypoint_key("mod.example"), "mods:mod.example");
    assert_eq!(alias_key("example"), "mods.example");
}

#[test]
fn only_granted_asset_work_runs() {
    assert!(runs_in_asset_pass(&vec![Capability::AssetsWrite], true, false));
    assert!(!runs_in_asset_pass(&vec![Capability::AssetsWrite], false, true));
    assert!(runs_in_asset_pass(&vec![Capability::Runtime, Capability::Export], false, true));
    assert!(!runs_in_asset_pass(&vec![Capability::Runtime], true, true));
}
