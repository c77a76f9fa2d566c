use shroudforge::manifest::{ModUi, UiComponent, UiComponentType, UiSection, UiTab};
use shroudforge::ui::{check_mod_action, connection_mode, installed_build, trash_name, display_locale, process_target, standalone_target, effective_provider, is_update_available, parse_release_tag, provider_from_settings, release_checksum,
    release_message, run_module, setting_path, ui_declares_action, ProviderConfig, ReleaseState};

fn button(action: &str) -> UiComponent {
    UiComponent {
        component_type: UiComponentType::Button,
        key: None,
        text: None,
        label: Some("Run".to_string()),
        level: None,
        binding: None,
        action: Some(action.to_string()),
        style: None,
        confirmation: None,
        url: None,
        src: None,
        alt: None,
    }
}

fn section(components: Vec<UiComponent>) -> UiSection {
    UiSection { title: None, description: None, components }
}

#[test]
fn release_tags() {
    assert_eq!(parse_release_tag("v1.2.3-build.45"), Ok(("1.2.3".to_string(), 45)));
    assert_eq!(parse_release_tag("vv2.0.0-rc.1-build.7"), Ok(("2.0.0-rc.1".to_string(), 7)));
    assert_eq!(parse_release_tag("1.2.3"), Err("Invalid ShroudForge release tag: 1.2.3".to_string()));
    assert_eq!(parse_release_tag("1.2.3-build.x"), Err("Invalid ShroudForge build ID: x".to_string()));
    assert!(parse_release_tag("1.2-build.4").unwrap_err().starts_with("Invalid ShroudForge version '1.2': "));
}

#[test]
fn update_availability() {
    assert!(is_update_available("1.0.0", 5, "1.1.0", 1));
    assert!(is_update_available("v1.0.0", 5, "1.0.0", 6));
    assert!(!is_update_available("1.0.0", 5, "1.0.0", 5));
    assert!(!is_update_available("1.1.0", 1, "1.0.0", 9));
    assert!(!is_update_available("one", 1, "1.0.0", 9));
}

#[test]
fn declared_mod_actions() {
    let ui = ModUi { sections: vec![section(vec![button("reset")])], tabs: vec![UiTab { id: "more".to_string(), label: "More".to_string(), sections: vec![section(vec![button("refill")])] }] };
    assert!(ui_declares_action(&ui, "reset"));
    assert!(ui_declares_action(&ui, "refill"));
    assert!(!ui_declares_action(&ui, "explode"));
    assert!(check_mod_action("mod.example", "reset", Some(&ui)).is_ok());
    assert_eq!(check_mod_action("mod example", "reset", Some(&ui)).unwrap_err(), "invalid mod action");
    assert_eq!(check_mod_action("mod.example", "explode", Some(&ui)).unwrap_err(), "mod action is not declared by the package");
    assert_eq!(check_mod_action("mod.example", "reset", None).unwrap_err(), "mod action is not declared by the package");
}

#[test]
fn release_checksum_and_message() {
    let digest = "BA7816BF8F01CFEA414140DE5DAE2223B00361A396177A9CB410FF61F20015AD";
    assert_eq!(release_checksum(&format!("{digest}  shroudforge.zip\n")), Ok(digest.to_lowercase()));
    assert_eq!(release_checksum("abc shroudforge.zip").unwrap_err(), "GitHub release does not contain a valid SHA-256 checksum");
    assert_eq!(release_message("  \n".to_string()), "A new ShroudForge version is available on GitHub.");
    assert_eq!(release_message("Fixes".to_string()), "Fixes");
}

#[test]
fn providers() {
    let catalog = ProviderConfig::catalog_default();
    assert_eq!(catalog.base_url, "https://api.shroudedit.com");
    assert_eq!(catalog.check_minutes, 30);
    let chosen = effective_provider(ProviderConfig::catalog_default(), Some(ProviderConfig::system_default()));
    assert_eq!(chosen.kind, "github-releases");
    assert_eq!(effective_provider(ProviderConfig::catalog_default(), None).kind, "shroudedit");
    let saved = provider_from_settings(true, "https://example.org///", "  project \n", 2).unwrap();
    assert_eq!(saved.base_url, "https://example.org");
    assert_eq!(saved.project_id, "project");
    assert_eq!(saved.check_minutes, 5);
    assert_eq!(saved.kind, "shroudedit");
    assert_eq!(saved.loader, "shroudforge");
    assert_eq!(provider_from_settings(false, "x", "p", 9999).unwrap().check_minutes, 1440);
    assert_eq!(provider_from_settings(true, "///", "p", 30).unwrap_err(), "update provider fields must not be empty");
    assert!(provider_from_settings(true, "https://x", "   ", 30).is_err());
    let idle = ReleaseState::idle("1.0.0".to_string(), 3, false);
    assert_eq!(idle.state, "idle");
    assert!(!idle.update_available);
    assert_eq!(run_module().unwrap_err(), "ShroudForge Modloader UI is available on Windows only");
}

#[test]
fn settings_are_stored_where_the_loader_reads_them() {
    assert_eq!(setting_path("general", None, "compactMode"), Ok(vec!["general".to_string(), "compactMode".to_string()]));
    assert_eq!(setting_path("general", None, "theme").unwrap_err(), "unsupported general setting");
    assert_eq!(setting_path("logging", None, "minimumLevel"), Ok(vec!["logging".to_string(), "minimumLevel".to_string()]));
    assert_eq!(setting_path("logging", None, "enabled").unwrap_err(), "unsupported logging setting");
    assert_eq!(setting_path("other", None, "x").unwrap_err(), "unsupported settings scope");
    assert_eq!(setting_path("module", None, "x").unwrap_err(), "missing module setting target");
    assert_eq!(
        setting_path("module", Some("debugConsole"), "window.position"),
        Ok(vec!["modules".to_string(), "debugConsole".to_string(), "window".to_string(), "position".to_string()])
    );
    assert_eq!(
        setting_path("module", Some("updates.system"), "checkMinutes"),
        Ok(vec!["modules".to_string(), "updates".to_string(), "system".to_string(), "checkMinutes".to_string()])
    );
    assert_eq!(
        setting_path("module", Some("runtimeDiagnostics"), "areas"),
        Ok(vec!["modules".to_string(), "runtimeDiagnostics".to_string(), "areas".to_string()])
    );
    assert_eq!(setting_path("module", Some("runtimeDiagnostics"), "window.position").unwrap_err(), "unsupported module setting");
    assert_eq!(setting_path("module", Some("unknown"), "enabled").unwrap_err(), "unsupported module setting");
}

#[test]
fn window_targets_follow_the_argument_or_the_installation() {
    assert_eq!(standalone_target(Some("server"), true, false), Ok(true));
    assert_eq!(standalone_target(Some("client"), false, true), Ok(false));
    assert_eq!(standalone_target(Some("both"), true, true).unwrap_err(), "--target must be client or server");
    assert_eq!(standalone_target(None, true, false), Ok(false));
    assert_eq!(standalone_target(None, false, true), Ok(true));
    assert_eq!(
        standalone_target(None, true, true).unwrap_err(),
        "Select an installation target with --target client or --target server"
    );
    assert!(standalone_target(None, false, false).is_err());
    assert_eq!(process_target(Some("Enshrouded_Server.EXE")), Ok(true));
    assert_eq!(process_target(Some("enshrouded.exe")), Ok(false));
    assert_eq!(process_target(Some("other.exe")).unwrap_err(), "Target process is not an Enshrouded client or dedicated server");
    assert!(process_target(None).is_err());
    assert_eq!(connection_mode(true, true), "STANDALONE SERVER");
    assert_eq!(connection_mode(true, false), "STANDALONE CLIENT");
    assert_eq!(connection_mode(false, false), "CLIENT");
    assert_eq!(connection_mode(false, true), "SERVER");
    assert_eq!(display_locale(Some("en-US".to_string())), "en-US");
    assert_eq!(display_locale(Some("x".to_string())), "de");
    assert_eq!(display_locale(None), "de");
}

#[test]
fn removed_mods_keep_their_package_extension_in_the_trash() {
    assert_eq!(trash_name("my-mod", 1700000000, Some("zip"), true), "my-mod-1700000000.zip");
    assert_eq!(trash_name("my-mod", 5, Some("d"), false), "my-mod-5");
    assert_eq!(trash_name("my-mod", 0, None, true), "my-mod-0");
}

#[test]
fn the_installed_build_reads_numbers_and_texts() {
    assert_eq!(installed_build(Some(12), Some("9")), 12);
    assert_eq!(installed_build(None, Some("+34")), 34);
    assert_eq!(installed_build(None, Some("x")), 0);
    assert_eq!(installed_build(None, None), 0);
}
