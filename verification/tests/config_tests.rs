use shroudforge::diagnostics::request;
use shroudforge::config::{has_schema, schema_path, validate_document, validate_state_file, check_displayed_revision, check_state_version, check_unchanged, document_path, effective_settings, hex, merge_mod_update,
    overlay, verdict_message, publish_window_visibility, request_window_visibility, revision, settings_check, state_section, ManifestSettings, WindowFields};

#[test]
fn stale_editor_cannot_overwrite_a_manual_change() {
    let mut stored = br#"{"id":"example","settings":{"count":3}}"#.to_vec();
    let displayed = revision(&stored);
    stored = br#"{"id":"example","settings":{"count":4}}"#.to_vec();
    let edited = br#"{"id":"example","settings":{"count":8}}"#.to_vec();
    let saved = check_displayed_revision(Some(&displayed), &stored);
    if saved.is_ok() {
        stored = edited;
    }
    assert!(saved.is_err());
    assert_eq!(stored, br#"{"id":"example","settings":{"count":4}}"#.to_vec());
}

#[test]
fn revision_is_the_sha256_digest_in_hex() {
    assert_eq!(revision(b""), "e3b0c44298fc1c149afbf4c8996fb92427ae41e4649b934ca495991b7852b855");
    assert_eq!(revision(b"abc"), "ba7816bf8f01cfea414140de5dae2223b00361a396177a9cb410ff61f20015ad");
    assert_eq!(hex(&vec![0x00, 0x0f, 0xa0, 0xff]), "000fa0ff");
}

#[test]
fn displayed_revision_checks() {
    let bytes = b"same".to_vec();
    let displayed = revision(&bytes);
    assert!(check_displayed_revision(Some(&displayed), &bytes).is_ok());
    assert!(check_displayed_revision(None, &bytes).is_ok());
    assert_eq!(
        check_displayed_revision(Some("0"), &bytes).unwrap_err(),
        "mod.json changed since it was displayed; reload before saving"
    );
    assert!(check_unchanged(&bytes, &b"same".to_vec()).is_ok());
    assert_eq!(
        check_unchanged(&bytes, &b"samf".to_vec()).unwrap_err(),
        "mod.json changed during editing; reload before saving"
    );
}

#[test]
fn documents_and_state_sections() {
    assert_eq!(state_section("state"), Some("updates"));
    assert_eq!(state_section("applied"), Some("assets"));
    assert_eq!(state_section("news-state"), Some("news"));
    assert_eq!(state_section("mod"), None);
    assert_eq!(document_path("/game", "shroudforge"), "/game/shroudforge/config/shroudforge.json");
    assert_eq!(document_path("/game", "applied"), "/game/shroudforge/config/state.json");
    assert_eq!(document_path("/game", "news"), "/game/shroudforge/config/news/news.json");
    assert_eq!(document_path("/game", "mod"), "/game/shroudforge/config/mods/mod.json");
    assert_eq!(document_path("/game", "rules"), "/game/shroudforge/config/compatibility/rules.json");
    assert_eq!(document_path("/game", "api"), "/game/shroudforge/config/api/api.json");
}

#[test]
fn window_visibility_handshake() {
    let stored = WindowFields { visible: Some(true), requested_visible: None, request_id: Some(4) };
    let requested = request_window_visibility("debugConsole", &stored, false).unwrap();
    assert!(requested.visible);
    assert!(!requested.requested_visible);
    assert_eq!(requested.request_id, 5);
    let published = publish_window_visibility(
        "debugConsole",
        &WindowFields { visible: Some(true), requested_visible: Some(false), request_id: Some(5) },
        false,
    )
    .unwrap();
    assert!(!published.visible);
    assert!(!published.requested_visible);
    assert_eq!(published.request_id, 5);
    let saturated = request_window_visibility("modloaderUi", &WindowFields { visible: None, requested_visible: None, request_id: Some(u64::MAX) }, true).unwrap();
    assert_eq!(saturated.request_id, u64::MAX);
    assert_eq!(request_window_visibility("other", &stored, true).unwrap_err(), "unknown window module");
    assert_eq!(publish_window_visibility("other", &stored, true).unwrap_err(), "unknown window module");
}

#[test]
fn state_file_version() {
    assert!(check_state_version(None).is_ok());
    assert!(check_state_version(Some(1)).is_ok());
    assert_eq!(check_state_version(Some(2)).unwrap_err(), "unsupported shroudforge/config/state.json schemaVersion");
}

fn pairs(items: &[(&str, &str)]) -> Vec<(String, String)> {
    items.iter().map(|(k, v)| (k.to_string(), v.to_string())).collect()
}

fn counted(default: i64, maximum: i64, enabled: bool) -> ManifestSettings {
    ManifestSettings {
        id: "example".to_string(),
        enabled,
        schema: Some(format!(
            r#"{{"type":"object","properties":{{"count":{{"type":"integer","default":{default},"minimum":0,"maximum":{maximum}}}}},"additionalProperties":false}}"#
        )),
        defaults: pairs(&[("count", &default.to_string())]),
        values: pairs(&[("count", &default.to_string())]),
    }
}

#[test]
fn updates_preserve_values_and_reject_incompatible_new_definitions() {
    let merged = merge_mod_update(counted(7, 10, true), counted(2, 20, false)).unwrap();
    assert_eq!(merged.settings, pairs(&[("count", "7")]));
    assert!(merged.enabled);
    assert!(merge_mod_update(counted(7, 10, true), counted(2, 5, false)).is_err());
}

#[test]
fn an_update_keeps_the_users_values() {
    let any_object = Some(r#"{"type":"object"}"#.to_string());
    let installed = ManifestSettings {
        id: "example".to_string(),
        enabled: true,
        schema: any_object.clone(),
        defaults: Vec::new(),
        values: pairs(&[("count", "7"), ("mode", "\"fast\"")]),
    };
    let update = ManifestSettings {
        id: "example".to_string(),
        enabled: false,
        schema: any_object.clone(),
        defaults: pairs(&[("speed", "1.5")]),
        values: pairs(&[("count", "2")]),
    };
    let merged = merge_mod_update(installed, update).unwrap();
    assert!(merged.enabled);
    let mut settings = merged.settings.clone();
    settings.sort();
    assert_eq!(settings, pairs(&[("count", "7"), ("mode", "\"fast\""), ("speed", "1.5")]));
    let renamed = ManifestSettings { id: "renamed".to_string(), enabled: false, schema: None, defaults: Vec::new(), values: Vec::new() };
    let original = ManifestSettings { id: "example".to_string(), enabled: false, schema: None, defaults: Vec::new(), values: Vec::new() };
    assert_eq!(merge_mod_update(original, renamed).err(), Some("mod update changes the package id".to_string()));
}

#[test]
fn removed_settings_abort_an_update() {
    let strict = Some(r#"{"type":"object","properties":{"count":{"type":"integer"}},"additionalProperties":false}"#.to_string());
    let installed = ManifestSettings { id: "m".to_string(), enabled: true, schema: Some(r#"{"type":"object"}"#.to_string()), defaults: Vec::new(), values: pairs(&[("old", "1")]) };
    let update = ManifestSettings { id: "m".to_string(), enabled: true, schema: strict, defaults: Vec::new(), values: Vec::new() };
    let error = merge_mod_update(installed, update).unwrap_err();
    assert!(error.starts_with("updated mod manifest is incompatible with the current schema: settings: "), "{error}");
    let unschemed = ManifestSettings { id: "m".to_string(), enabled: true, schema: None, defaults: Vec::new(), values: pairs(&[("a", "1")]) };
    let other = ManifestSettings { id: "m".to_string(), enabled: true, schema: None, defaults: Vec::new(), values: Vec::new() };
    assert_eq!(merge_mod_update(unschemed, other).unwrap_err(), "settings require shroudforge.settingsSchema");
}

#[test]
fn settings_follow_their_schema_and_defaults() {
    let schema = r#"{"type":"object","properties":{"count":{"type":"integer","maximum":3}}}"#;
    assert!(settings_check(Some(schema), &pairs(&[("count", "2")])).is_ok());
    assert!(settings_check(Some(schema), &pairs(&[("count", "4")])).unwrap_err().starts_with("settings: "));
    assert!(settings_check(Some("{"), &pairs(&[])).is_err());
    assert!(settings_check(None, &Vec::new()).is_ok());
    assert_eq!(settings_check(None, &pairs(&[("a", "1")])).unwrap_err(), "settings require shroudforge.settingsSchema");
    let mut effective = effective_settings(pairs(&[("a", "1")]), pairs(&[("a", "0"), ("b", "2")]));
    effective.sort();
    assert_eq!(effective, pairs(&[("a", "1"), ("b", "2")]));
    assert_eq!(overlay(pairs(&[("x", "1")]), pairs(&[("x", "2")])), pairs(&[("x", "2")]));
}

#[test]
fn schema_verdicts_become_messages() {
    assert_eq!(verdict_message(Ok(())), Ok(()));
    assert_eq!(verdict_message(Err((true, "7 is greater than 5".to_string()))), Err("settings: 7 is greater than 5".to_string()));
    assert_eq!(verdict_message(Err((false, "bad schema".to_string()))), Err("bad schema".to_string()));
}

const LOADER_SCHEMA: &str = r#"{"type":"object","properties":{"modules":{"type":"object","properties":{"runtimeDiagnostics":{"type":"object","properties":{"maximumDurationSeconds":{"type":"integer","minimum":1,"maximum":3600}}}}}}}"#;

#[test]
fn invalid_settings_are_rejected() {
    let file = "C:/game/shroudforge/config/shroudforge-schema.json";
    let document = r#"{"modules":{"runtimeDiagnostics":{"maximumDurationSeconds":0}}}"#;
    let verdict = validate_document("shroudforge", file, LOADER_SCHEMA, document);
    assert!(verdict.unwrap_err().starts_with("shroudforge: "));
    assert!(request("fake-action", None).is_err());
}

#[test]
fn documents_are_checked_against_their_schemas() {
    let file = "C:/game/shroudforge/config/shroudforge-schema.json";
    let good = r#"{"modules":{"runtimeDiagnostics":{"maximumDurationSeconds":120}}}"#;
    assert_eq!(validate_document("shroudforge", file, LOADER_SCHEMA, good), Ok(()));
    assert_eq!(validate_document("nonsense", file, LOADER_SCHEMA, good), Err("unknown schema: nonsense".to_string()));
    assert!(validate_document("shroudforge", file, "{", good).unwrap_err().starts_with("C:/game/shroudforge/config/shroudforge-schema.json: "));
    let state_schema = r#"{"type":"object","required":["schemaVersion"]}"#;
    assert_eq!(validate_state_file(file, state_schema, r#"{"schemaVersion":1}"#), Ok(()));
    assert!(validate_state_file(file, state_schema, "{}").unwrap_err().starts_with("shroudforge/config/state.json: "));
}

#[test]
fn schema_files_lie_beside_their_documents() {
    assert!(has_schema("news-state"));
    assert!(has_schema("mod"));
    assert!(!has_schema("nonsense"));
    assert_eq!(schema_path("C:/game", "shroudforge"), Some("C:/game/shroudforge/config/shroudforge-schema.json".to_string()));
    assert_eq!(schema_path("C:/game", "news"), Some("C:/game/shroudforge/config/news/news-schema.json".to_string()));
    assert_eq!(schema_path("C:/game", "nonsense"), None);
}
