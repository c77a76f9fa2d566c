use shroudforge::environment::ModEnvironment;
use shroudforge::loader::{already_applied, applied_mods, ensure_game_stopped, equal_ignoring_case, files_for, format_report,
    has_startup_mods, previous_apply, process_target_name, target_name, validate, validate_checked, LoaderError, PackageManifest};
use shroudforge::manifest::{Capability, ModManifest, ModTarget, ModUi, ReleaseMetadata};

fn package(id: &str, name: &str, capabilities: Vec<Capability>) -> ModManifest {
    ModManifest {
        id: id.to_string(),
        name: name.to_string(),
        version: "1.0.0".to_string(),
        api: None,
        capabilities,
        dependencies: Vec::new(),
        authors: Vec::new(),
        description: None,
        license: None,
        icon: None,
        target: ModTarget::Both,
        release: ReleaseMetadata { changelog: Vec::new() },
        setting_groups: Vec::new(),
        settings: Vec::new(),
        ui: ModUi { sections: Vec::new(), tabs: Vec::new() },
        enabled: true,
        links: Vec::new(),
    }
}

#[test]
fn every_package_uses_the_fixed_lua_entrypoint() {
    let manifest = PackageManifest {
        package: package("sf-unlimited-flight", "SF Unlimited Flight", vec![Capability::Runtime]),
        api: None,
        target: "both".to_string(),
    };
    assert_eq!(manifest.lua_entrypoint(), "src/mod.lua");
    assert!(validate(&manifest, &Vec::new(), "1.0.0").is_ok());
}

#[test]
fn package_validation_errors() {
    let blank = PackageManifest { package: package("a", "  ", vec![]), api: None, target: "both".to_string() };
    assert_eq!(validate(&blank, &Vec::new(), "1.0.0").unwrap_err(), "name must not be empty");
    let target = PackageManifest { package: package("a", "A", vec![]), api: None, target: "everywhere".to_string() };
    assert_eq!(validate(&target, &Vec::new(), "1.0.0").unwrap_err(), "target must be 'client', 'server' or 'both'");
    let api = PackageManifest { package: package("a", "A", vec![]), api: Some("^2".to_string()), target: "client".to_string() };
    assert_eq!(validate(&api, &Vec::new(), "1.0.0").unwrap_err(), "required ShroudForge API ^2 is unavailable");
    let met = PackageManifest { package: package("a", "A", vec![]), api: Some("^1.0".to_string()), target: "server".to_string() };
    assert!(validate(&met, &Vec::new(), "1.2.0").is_ok());
    let unparsable = PackageManifest { package: package("a", "A", vec![]), api: Some("one".to_string()), target: "both".to_string() };
    assert!(validate_checked(&unparsable, &Vec::new(), "1.0.0").is_none());
    assert!(validate_checked(&met, &Vec::new(), "v1").is_none());
    assert_eq!(validate_checked(&met, &Vec::new(), "1.2.0"), Some(Ok(())));
}

#[test]
fn loader_error_messages() {
    assert_eq!(LoaderError::Environment("x".to_string()).message(), "loader environment error: x");
    assert_eq!(LoaderError::Pregame("y".to_string()).message(), "pregame phase failed: y");
    assert_eq!(LoaderError::Runtime("z".to_string()).message(), "runtime initialization failed: z");
}

#[test]
fn target_is_client_first_then_server() {
    assert_eq!(target_name("/g", true, true).ok(), Some("enshrouded"));
    assert_eq!(target_name("/g", false, true).ok(), Some("enshrouded_server"));
    match target_name("/g", false, false) {
        Err(LoaderError::Environment(m)) => assert_eq!(m, "no Enshrouded executable in /g"),
        _ => panic!("expected an environment error"),
    }
    assert_eq!(process_target_name(Some("ENSHROUDED_SERVER.EXE"), "/g", true, false).ok(), Some("enshrouded_server"));
    assert_eq!(process_target_name(Some("enshrouded.exe"), "/g", true, true).ok(), Some("enshrouded"));
    assert!(equal_ignoring_case("Enshrouded.Exe", "enshrouded.exe"));
    assert!(!equal_ignoring_case("enshrouded.ex", "enshrouded.exe"));
}

#[test]
fn parser_files_follow_the_target() {
    let client = files_for("/g", "enshrouded");
    assert_eq!(client.executable, "/g/enshrouded.exe");
    assert_eq!(client.kfc, "/g/enshrouded.kfc");
    let server = files_for("/g/", "enshrouded_server");
    assert_eq!(server.executable, "/g/enshrouded_server.exe");
}

#[test]
fn asset_pass_decisions() {
    let (environment, _) = ModEnvironment::load(vec![
        package("assets", "Assets", vec![Capability::AssetsWrite]),
        package("live", "Live", vec![Capability::Runtime]),
        package("exporter", "Exporter", vec![Capability::Export]),
    ]);
    let plan = environment.plan(&Vec::new(), false, "1.0.0");
    assert!(has_startup_mods(environment.mod_registry(), &plan));
    let applied = applied_mods(environment.mod_registry(), &plan);
    assert_eq!(applied, vec![("assets".to_string(), "1.0.0".to_string()), ("exporter".to_string(), "1.0.0".to_string())]);
    let live_only = vec![plan[1]];
    assert_eq!(environment.mod_registry().at(plan[1]).id, "exporter");
    let (live_env, _) = ModEnvironment::load(vec![package("live", "Live", vec![Capability::Runtime])]);
    let live_plan = live_env.plan(&Vec::new(), false, "1.0.0");
    assert!(!has_startup_mods(live_env.mod_registry(), &live_plan));
    assert!(has_startup_mods(environment.mod_registry(), &live_only));
    assert!(previous_apply(Some("preparing")));
    assert!(!previous_apply(Some("done")));
    assert!(!previous_apply(None));
    assert!(already_applied(false, false, false));
    assert!(!already_applied(true, false, false));
    assert!(already_applied(true, true, true));
}

#[test]
fn asset_pass_needs_the_game_stopped() {
    assert!(ensure_game_stopped(&vec!["explorer.exe".to_string(), "steam.exe".to_string()]).is_ok());
    match ensure_game_stopped(&vec!["explorer.exe".to_string(), "Enshrouded.exe".to_string()]) {
        Err(LoaderError::Pregame(m)) => {
            assert_eq!(m, "close Enshrouded before preparing asset mods; live runtime mods do not need prepare")
        }
        _ => panic!("expected a pregame error"),
    }
    assert!(ensure_game_stopped(&vec!["ENSHROUDED_SERVER.EXE".to_string()]).is_err());
}

#[test]
fn discovery_reports_read_as_one_line() {
    assert_eq!(format_report(Some("mods directory unreadable"), &Vec::new()), "mods directory unreadable");
    assert_eq!(
        format_report(None, &vec![("mods/a".to_string(), "bad json".to_string()), ("mods/b.zip".to_string(), "duplicate id".to_string())]),
        "mods/a: bad json; mods/b.zip: duplicate id"
    );
    assert_eq!(format_report(None, &Vec::new()), "");
}

#[test]
fn the_asset_pass_records_preparing_then_its_outcome() {
    let preparing = shroudforge::loader::preparing_record("enshrouded".to_string());
    assert_eq!(preparing.status.as_str(), "preparing");
    assert_eq!(preparing.target, "enshrouded");
    assert!(preparing.completed_at.is_none());
    let applied = shroudforge::loader::finished_record(
        "startup".to_string(),
        "enshrouded".to_string(),
        "abc".to_string(),
        7,
        Ok(vec![("m".to_string(), "1.0.0".to_string())]),
    );
    assert_eq!(applied.status.as_str(), "applied");
    assert_eq!(applied.fingerprint.as_deref(), Some("abc"));
    assert_eq!(applied.mods.len(), 1);
    assert_eq!(applied.completed_at, Some(7));
    let failed = shroudforge::loader::finished_record("startup".to_string(), "enshrouded".to_string(), "abc".to_string(), 8, Err("broken".to_string()));
    assert_eq!(failed.status.as_str(), "failed");
    assert_eq!(failed.fingerprint, None);
    assert_eq!(failed.error.as_deref(), Some("broken"));
    assert_eq!(failed.phase.as_deref(), Some("startup"));
}
