use shroudforge::api::{action_disposition, action_registry_key, app_config, check_notice, skip_unchanged_assets, ActionDisposition, Notice, RunOptions};
use shroudforge::contract::{infer_api_contract, strip_lua_comments};
use shroudforge::environment::ModEnvironment;
use shroudforge::ident::{is_valid_locale, valid_event_filename, valid_id, valid_identifier, valid_news_id, valid_project_id, valid_sha256_hex};
use shroudforge::ingame::{activation_step, lifecycle_interval, needs_startup_assets, record_update, update_due, withhold_unpublished, ActivationStep, LifecycleEntry};
use shroudforge::manifest::{Capability, Dependency, JsonKind, ModManifest, ModTarget, ModUi, ReleaseMetadata, SettingDefinition, SettingValueType};
use shroudforge::migration::{extension_keys, legacy_apply_mode, plan_migration, MigrationStep, PackageLayout};
use shroudforge::paths::{config_dir, current_log, data_dir, join, logs_dir, ui_data_dir, updates_dir, version_file, webview_profile};
use shroudforge::runtime::RuntimePhase;
use shroudforge::schema::{GameFiles, KfcParser, ParserError};
use shroudforge::status::{api_check, asset_state, mod_state, parser_current, runtime_fresh, AssetState, CheckState, ModState};
use shroudforge::text::{decimal, str_less};
use shroudforge::validation::validate_manifest;

fn manifest(id: &str, capabilities: Vec<Capability>, dependencies: Vec<Dependency>) -> ModManifest {
    ModManifest {
        id: id.to_string(),
        name: id.to_string(),
        version: "1.0.0".to_string(),
        api: Some("^1".to_string()),
        capabilities,
        dependencies,
        authors: Vec::new(),
        description: None,
        license: None,
        icon: None,
        target: ModTarget::Both,
        release: ReleaseMetadata { changelog: Vec::new() },
        setting_groups: Vec::new(),
        settings: Vec::new(),
        ui: ModUi { sections: Vec::new(), tabs: Vec::new() },
        enabled: true,
        links: Vec::new(),
    }
}

fn setting(key: &str, value_type: SettingValueType, default_kind: JsonKind) -> SettingDefinition {
    SettingDefinition {
        key: key.to_string(),
        value_type,
        control: None,
        label: key.to_string(),
        description: None,
        default_kind,
        group: None,
        range_inverted: false,
        step_invalid: false,
        minimum_length: None,
        maximum_length: None,
        options: Vec::new(),
        restart_required: true,
        apply_at: "restart".to_string(),
    }
}

fn needs(id: &str) -> Dependency {
    Dependency { id: id.to_string(), version: "*".to_string(), optional: None }
}

#[test]
fn identifiers() {
    assert!(valid_id("yourname.my-first-mod"));
    assert!(valid_id("mod.example-12"));
    assert!(!valid_id("My_Mod"));
    assert!(!valid_id("mod_example"));
    assert!(!valid_id(".."));
    assert!(!valid_id(""));
    assert!(!valid_id(&"a".repeat(81)));
    assert!(valid_identifier("reset"));
    assert!(!valid_identifier("re set"));
    assert!(valid_news_id("shroudforge-support-1"));
    assert!(valid_event_filename("event-mod-install-a-1.0.0+build"));
    assert!(valid_project_id("shroud.forge"));
    assert!(is_valid_locale("en-US"));
    assert!(!is_valid_locale("en--US"));
    assert!(!is_valid_locale("-en"));
    assert!(!is_valid_locale("e"));
    assert!(valid_sha256_hex(&"ab".repeat(32)));
    assert!(!valid_sha256_hex(&"zz".repeat(32)));
}

#[test]
fn manifest_validation_reports_the_first_problem() {
    let links = vec!["homepage".to_string()];
    let mut m = manifest("mod.example", vec![Capability::Runtime], Vec::new());
    assert!(validate_manifest(&m, &links).is_ok());
    m.links = vec![("discord".to_string(), "https://x".to_string())];
    assert_eq!(validate_manifest(&m, &links).unwrap_err(), "unsupported mod link 'discord'");
    m.links = vec![("homepage".to_string(), "http://x".to_string())];
    assert_eq!(validate_manifest(&m, &links).unwrap_err(), "mod link 'homepage' must use HTTPS");
    m.links = Vec::new();
    m.settings = vec![setting("count", SettingValueType::Integer, JsonKind::Integer), setting("count", SettingValueType::Integer, JsonKind::Integer)];
    assert_eq!(validate_manifest(&m, &links).unwrap_err(), "setting key 'count' is invalid or duplicated");
    m.settings = vec![setting("flag", SettingValueType::Boolean, JsonKind::String)];
    assert_eq!(validate_manifest(&m, &links).unwrap_err(), "setting 'flag' has an invalid default value");
    m.id = "bad id".to_string();
    assert_eq!(validate_manifest(&m, &links).unwrap_err(), "mod id is invalid");
}

#[test]
fn lua_sources_determine_the_contract() {
    assert_eq!(strip_lua_comments("a -- note\nb --[[ block ]] c '--kept'"), "a \nb  c '--kept'");
    let mut live = manifest("live", vec![Capability::AssetsWrite], Vec::new());
    live.settings = vec![setting("speed", SettingValueType::Number, JsonKind::Number)];
    infer_api_contract(&mut live, "return { on_update = function() end }");
    assert_eq!(live.capabilities, vec![Capability::Runtime]);
    assert_eq!(live.target, ModTarget::Client);
    assert!(live.api.is_none());
    assert_eq!(live.settings[0].apply_at, "live");
    assert!(!live.settings[0].restart_required);
    let mut assets = manifest("assets", Vec::new(), Vec::new());
    infer_api_contract(&mut assets, "-- game.assets.write\nlocal a = game.assets.get('x')\nio.export(a)");
    assert_eq!(assets.capabilities, vec![Capability::AssetsWrite, Capability::Export]);
    assert_eq!(assets.target, ModTarget::Both);
    let mut commented = manifest("commented", vec![Capability::Runtime], Vec::new());
    infer_api_contract(&mut commented, "--[[ runtime.ecs.read ]]");
    assert!(commented.capabilities.is_empty());
}

#[test]
fn startup_withholds_asset_writers_and_their_dependents() {
    let (environment, _) = ModEnvironment::load(vec![
        manifest("assets", vec![Capability::AssetsWrite], Vec::new()),
        manifest("uses-assets", vec![Capability::Runtime], vec![needs("assets")]),
        manifest("independent", vec![Capability::Runtime], Vec::new()),
    ]);
    let plan = environment.plan(&Vec::new(), false, "1.0.0");
    assert!(needs_startup_assets(environment.mod_registry(), &plan));
    let (kept, withheld) = withhold_unpublished(environment.mod_registry(), &plan);
    assert_eq!(kept.iter().map(|&i| environment.mod_registry().at(i).id.clone()).collect::<Vec<_>>(), vec!["independent".to_string()]);
    assert_eq!(withheld.iter().map(|(id, _)| id.clone()).collect::<Vec<_>>(), vec!["assets".to_string(), "uses-assets".to_string()]);
    assert!(withheld[0].1.starts_with("startup-asset-apply-required: "));
}

#[test]
fn lifecycle_intervals_and_activation() {
    assert_eq!(lifecycle_interval(Ok(None)), Ok(50));
    assert_eq!(lifecycle_interval(Ok(Some(8))), Ok(8));
    assert_eq!(lifecycle_interval(Ok(Some(1001))).unwrap_err(), "update_interval_ms must be an integer from 8 to 1000");
    assert!(lifecycle_interval(Err(())).is_err());
    let mut m = manifest("live", vec![Capability::Runtime], vec![needs("base")]);
    m.enabled = true;
    let lifecycle = vec![("live".to_string(), false), ("base".to_string(), true)];
    let configured = vec![("base".to_string(), true)];
    assert!(matches!(activation_step(&m, true, false, &configured, &lifecycle), ActivationStep::Activate));
    assert!(matches!(activation_step(&m, true, true, &configured, &lifecycle), ActivationStep::Keep));
    match activation_step(&m, true, false, &vec![("base".to_string(), false)], &vec![("live".to_string(), false), ("base".to_string(), false)]) {
        ActivationStep::DependencyInactive(message) => assert_eq!(message, "required dependency is not active: base"),
        _ => panic!("expected an inactive dependency"),
    }
    match activation_step(&m, true, false, &configured, &vec![("base".to_string(), true)]) {
        ActivationStep::NotInPlan(message) => assert_eq!(message, "runtime module was not present in the startup plan; restart required"),
        _ => panic!("expected a restart requirement"),
    }
    m.enabled = false;
    assert!(matches!(activation_step(&m, true, true, &configured, &lifecycle), ActivationStep::Deactivate));
    assert!(matches!(activation_step(&m, false, true, &configured, &lifecycle), ActivationStep::Keep));
}

#[test]
fn status_checks() {
    assert!(runtime_fresh(true, Some(100), 105));
    assert!(!runtime_fresh(true, Some(100), 106));
    assert!(!runtime_fresh(false, Some(100), 100));
    let (state, detail) = api_check(Some("1.0.0"), "1.0.0");
    assert_eq!((state.as_str(), detail.as_str()), ("ok", "The running ShroudForge runtime process reports Lua API 1.0.0."));
    let (state, detail) = api_check(Some("0.9.0"), "1.0.0");
    assert_eq!((state, detail.as_str()), (CheckState::Warning, "Runtime reports API 0.9.0; expected 1.0.0."));
    assert_eq!(api_check(None, "1.0.0").0.as_str(), "neutral");
    assert_eq!(mod_state(true, true, false, false, true), ModState::Failed);
    assert_eq!(mod_state(true, false, true, true, true).as_str(), "restart-required");
    assert_eq!(mod_state(true, false, false, true, true), ModState::Active);
    assert_eq!(mod_state(true, false, false, false, true), ModState::NotRunning);
    assert_eq!(mod_state(true, false, false, false, false).detail(), "The mod is disabled.");
    assert_eq!(mod_state(false, false, false, false, true).as_str(), "unconfirmed");
    assert_eq!(asset_state(false, false, None).as_str(), "not-required");
    assert_eq!(asset_state(true, false, Some(true)), AssetState::Applied);
    assert_eq!(asset_state(false, true, Some(false)).as_str(), "prepare-required");
    assert_eq!(asset_state(true, true, None), AssetState::Unknown);
    assert!(parser_current(Some("enshrouded"), false, Some(10), Some(20), 10, Some(20)));
    assert!(!parser_current(Some("enshrouded"), true, Some(10), Some(20), 10, Some(20)));
    assert!(!parser_current(Some("enshrouded"), false, Some(11), Some(20), 10, Some(20)));
}

#[test]
fn run_configuration() {
    let mut options = RunOptions::none();
    options.assets_write = true;
    let config = app_config(&options, "enshrouded_server", "/g", None);
    assert!(config.is_server);
    assert_eq!(config.export_dir, "/g/export");
    assert_eq!(config.phase, RuntimePhase::Pregame);
    options.is_server = Some(false);
    let config = app_config(&options, "ENSHROUDED_SERVER", "/g", Some("/out".to_string()));
    assert!(!config.is_server);
    assert_eq!(config.export_dir, "/out");
    skip_unchanged_assets(&mut options, true);
    assert!(!options.assets_write);
    let mut forced = RunOptions::none();
    forced.assets_write = true;
    forced.force_assets = true;
    skip_unchanged_assets(&mut forced, true);
    assert!(forced.assets_write);
}

#[test]
fn notices_and_ui_actions() {
    let notice = Notice { id: "ready".to_string(), title: "Ready".to_string(), message: "Done".to_string(), level: None, action_url: None };
    assert_eq!(check_notice("mod.example", &notice), Ok(("mod.example.ready".to_string(), "mod.example-ready".to_string())));
    let warning = Notice { level: Some("shout".to_string()), ..notice };
    assert_eq!(check_notice("mod.example", &warning).unwrap_err(), "invalid notification level");
    let link = Notice { id: "a".to_string(), title: "t".to_string(), message: "m".to_string(), level: Some("warning".to_string()), action_url: Some("http://x".to_string()) };
    assert_eq!(check_notice("mod.example", &link).unwrap_err(), "notification action_url must use HTTPS");
    let long = Notice { id: "a".to_string(), title: "t".repeat(121), message: "m".to_string(), level: None, action_url: None };
    assert_eq!(check_notice("mod.example", &long).unwrap_err(), "invalid notification payload");
    assert_eq!(action_registry_key("mod.example", "reset"), "shroudforge.ui.action.mod.example.reset");
    let active = vec!["mod.example".to_string()];
    assert_eq!(action_disposition(Some(("mod.example", "reset")), &active, true), ActionDisposition::Run);
    assert_eq!(action_disposition(Some(("mod.example", "reset")), &active, false), ActionDisposition::Wait);
    assert_eq!(action_disposition(Some(("mod.other", "reset")), &active, true), ActionDisposition::Discard);
    assert_eq!(action_disposition(None, &active, true), ActionDisposition::Discard);
}

#[test]
fn legacy_packages_are_migrated_once() {
    let layout = |id: Option<&str>| PackageLayout {
        id: id.map(str::to_string),
        has_extension: true,
        has_sidecar: false,
        has_extension_file: false,
        has_override: false,
        has_central: false,
        legacy_conflict: false,
        old_inline: false,
    };
    assert!(matches!(plan_migration(&layout(Some("a"))), Ok(MigrationStep::Nothing)));
    assert_eq!(plan_migration(&layout(None)).err(), Some("missing mod id".to_string()));
    assert_eq!(plan_migration(&layout(Some("a b"))).err(), Some("invalid mod id".to_string()));
    assert!(matches!(plan_migration(&PackageLayout { has_central: true, ..layout(Some("a")) }), Ok(MigrationStep::ApplyLegacyValues)));
    assert!(matches!(plan_migration(&PackageLayout { has_sidecar: true, ..layout(Some("a")) }), Ok(MigrationStep::Convert)));
    assert_eq!(
        plan_migration(&PackageLayout { legacy_conflict: true, ..layout(Some("a")) }).err(),
        Some("a: conflicting settings in legacy central and per-mod files".to_string())
    );
    assert_eq!(legacy_apply_mode(&vec!["runtime".to_string(), "patch".to_string()]), "prepare");
    assert_eq!(legacy_apply_mode(&vec!["runtime".to_string()]), "restart");
    assert_eq!(extension_keys(), vec!["api", "target", "release", "ui", "settingGroups"]);
}

#[test]
fn data_locations() {
    assert_eq!(join("", "a"), "a");
    assert_eq!(join("a/", "b"), "a/b");
    assert_eq!(data_dir("/g"), "/g/shroudforge");
    assert_eq!(config_dir("/g"), "/g/shroudforge/config");
    assert!(version_file("/g").ends_with("version.json"));
    assert!(current_log("/g").ends_with("shroudforge.log"));
    assert!(logs_dir("/g").starts_with("/g/shroudforge"));
    assert!(updates_dir("/g").ends_with("updates"));
    assert!(ui_data_dir("/g").starts_with("/g/shroudforge"));
    assert!(webview_profile("/g").starts_with("/g/shroudforge"));
}

#[test]
fn parser_preconditions_and_text_helpers() {
    let files = GameFiles::client("/g");
    assert_eq!(files.executable, "/g/enshrouded.exe");
    assert_eq!(GameFiles::server("/g").kfc, "/g/enshrouded_server.kfc");
    assert_eq!(KfcParser.id(), "kfc");
    match KfcParser.require_files(&files, false, true) {
        Err(ParserError::MissingExecutable(path)) => assert_eq!(path, "/g/enshrouded.exe"),
        _ => panic!("expected a missing executable"),
    }
    match KfcParser.require_files(&files, true, false) {
        Err(e) => assert_eq!(e.message(), "game data does not exist: /g/enshrouded.kfc"),
        _ => panic!("expected missing data"),
    }
    assert!(KfcParser.require_files(&files, true, true).is_ok());
    assert_eq!(decimal(0), "0");
    assert_eq!(decimal(18446744073709551615), "18446744073709551615");
    assert!(str_less("abc", "abd"));
    assert!(str_less("ab", "abc"));
    assert!(!str_less("b", "abc"));
}

#[test]
fn a_failing_update_stops_its_mod() {
    let mut entry = LifecycleEntry { id: "live".to_string(), active: true, has_update: true, has_unload: true, interval_ms: 50, next_update_ms: 100 };
    assert!(!update_due(&entry, 99));
    assert!(update_due(&entry, 100));
    assert!(record_update(&mut entry, 100, Ok(())).is_none());
    assert_eq!(entry.next_update_ms, 150);
    assert!(entry.active);
    let failure = record_update(&mut entry, 150, Err("boom".to_string())).unwrap();
    assert_eq!(failure.error, "on_update failed: boom");
    assert!(failure.unload);
    assert!(!entry.active);
    assert!(!update_due(&entry, 10_000));
}
