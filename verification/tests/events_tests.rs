use shroudforge::events::{mod_events, ChangeKind, CurrentMod, RecordedMod};

fn current(id: &str, name: &str, version: &str) -> CurrentMod {
    CurrentMod { id: id.to_string(), name: name.to_string(), version: version.to_string() }
}

fn recorded(id: &str, name: Option<&str>, version: Option<&str>) -> RecordedMod {
    RecordedMod { id: id.to_string(), name: name.map(str::to_string), version: version.map(str::to_string) }
}

#[test]
fn first_run_only_records() {
    assert!(mod_events(None, &vec![current("a", "A", "1.0.0")]).is_empty());
}

#[test]
fn installs_updates_and_removals_are_announced() {
    let before = vec![recorded("kept", Some("Kept"), Some("1.0.0")), recorded("gone", None, None), recorded("moved", Some("Moved"), Some("1.0.0"))];
    let now = vec![current("kept", "Kept", "1.0.0"), current("moved", "Moved", "1.1.0"), current("new", "New", "0.1.0")];
    let events = mod_events(Some(&before), &now);
    assert_eq!(events.len(), 3);
    assert_eq!(events[0].id, "mod-update-moved-1.1.0");
    assert_eq!(events[0].kind, ChangeKind::Update);
    assert_eq!(events[0].previous_version.as_deref(), Some("1.0.0"));
    assert_eq!(events[0].kind.as_str(), "mod.update.success");
    assert_eq!(events[0].kind.level(), "update");
    assert_eq!(events[1].id, "mod-install-new-0.1.0");
    assert_eq!(events[1].kind.as_str(), "mod.install.success");
    assert_eq!(events[1].kind.level(), "success");
    assert_eq!(events[1].name, "New");
    assert_eq!(events[2].id, "mod-remove-gone-unknown");
    assert_eq!(events[2].name, "gone");
    assert_eq!(events[2].version, "unknown");
    assert_eq!(events[2].kind.as_str(), "mod.remove.success");
    assert_eq!(events[2].kind.level(), "info");
}

#[test]
fn a_record_without_version_announces_an_update() {
    let events = mod_events(Some(&vec![recorded("a", Some("A"), None)]), &vec![current("a", "A", "2.0.0")]);
    assert_eq!(events.len(), 1);
    assert_eq!(events[0].previous_version.as_deref(), Some("unknown"));
}
