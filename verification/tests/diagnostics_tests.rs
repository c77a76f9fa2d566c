use shroudforge::diagnostics::{request, status_fresh, DiagnosticSettings, Session, SessionReason};

fn settings_after(action: &str, current: &DiagnosticSettings) -> DiagnosticSettings {
    let fields = request(action, current.request_id).unwrap();
    let mut next = DiagnosticSettings::defaults();
    next.interval_milliseconds = current.interval_milliseconds;
    next.maximum_duration_seconds = current.maximum_duration_seconds;
    next.enabled = fields.enabled;
    next.continuous = fields.continuous.unwrap_or(current.continuous);
    next.request_id = fields.request_id.or(current.request_id);
    next
}

// One pass of the host's tick: read the configuration when due, sample when due.
fn tick(session: &mut Session, now_ms: u64, seconds: u64, config: DiagnosticSettings) -> Option<Option<u64>> {
    if session.config_due(now_ms) {
        session.apply_config(now_ms, Ok(config));
    }
    if !session.sample_due(now_ms) {
        return None;
    }
    session.schedule_sample(now_ms);
    if session.active {
        session.record_sample(seconds);
        return session.complete_if_done(now_ms).map(|c| c.request_id);
    }
    None
}

#[test]
fn disabled_means_no_measurements_and_snapshot_finishes() {
    let mut session = Session::new(1_000);
    session.measure("mods", "example", "on_update", 1_000, 30_000_000, false);
    assert!(session.measurements.is_empty());
    let snapshot = settings_after("snapshot", &DiagnosticSettings::defaults());
    let completed = tick(&mut session, 1_000, 1_750_000_000, snapshot);
    assert!(!session.active);
    assert_eq!(session.reason.as_str(), "snapshot-complete");
    assert!(session.last_sample > 0);
    // The host clears `enabled` for the completed request.
    assert_eq!(completed, Some(Some(1)));
    assert_eq!(session.reason, SessionReason::SnapshotComplete);
}

#[test]
fn deadline_is_independent_of_sample_interval_and_restart_works() {
    let mut base = DiagnosticSettings::defaults();
    base.maximum_duration_seconds = Some(1);
    base.interval_milliseconds = Some(60000);
    let started = settings_after("start", &base);
    let mut session = Session::new(10_000);
    tick(&mut session, 10_000, 1_750_000_000, started);
    assert!(session.active);
    session.measure("mods", "example", "on_update", 10_000, 30_000_000, true);
    assert_eq!(session.measurements[0].0, "mods/example/on_update");
    assert_eq!(session.measurements[0].1.slow, 1);
    session.next_sample_ms = 12_000 + 60_000;
    session.started_ms = 10_000;
    let current = session.settings.request_id;
    let same = settings_after("start", &DiagnosticSettings { request_id: current.map(|v| v - 1), ..settings_after("stop", &base) });
    let completed = tick(&mut session, 12_000, 1_750_000_002, same);
    assert!(!session.active);
    assert_eq!(session.reason.as_str(), "duration-complete");
    assert_eq!(completed, Some(current));
    let restart = settings_after("start", &session.settings);
    session.next_config_ms = 12_500;
    tick(&mut session, 12_500, 1_750_000_003, restart);
    assert!(session.active);
    assert!(session.measurements.is_empty());
    let stop = settings_after("stop", &session.settings);
    session.next_config_ms = 13_000;
    tick(&mut session, 13_000, 1_750_000_004, stop);
    assert!(!session.active);
    assert_eq!(session.reason.as_str(), "stopped");
}

#[test]
fn unknown_diagnostic_actions_are_refused() {
    assert_eq!(request("fake-action", Some(3)).err(), Some("invalid diagnostic action".to_string()));
    let stop = request("stop", Some(3)).unwrap();
    assert!(!stop.enabled && stop.continuous.is_none() && stop.request_id.is_none());
    let snapshot = request("snapshot", None).unwrap();
    assert!(snapshot.enabled);
    assert_eq!(snapshot.continuous, Some(false));
    assert_eq!(snapshot.request_id, Some(1));
    assert_eq!(request("start", Some(u64::MAX)).unwrap().request_id, Some(u64::MAX));
}

#[test]
fn session_limits_are_clamped() {
    let mut session = Session::new(0);
    assert_eq!(session.limit(), 120);
    assert_eq!(session.interval_ms(), 2000);
    session.settings.maximum_duration_seconds = Some(0);
    session.settings.interval_milliseconds = Some(10);
    assert_eq!(session.limit(), 1);
    assert_eq!(session.interval_ms(), 500);
    session.settings.maximum_duration_seconds = Some(99_999);
    session.settings.interval_milliseconds = None;
    assert_eq!(session.limit(), 3600);
    assert_eq!(session.interval_ms(), 2000);
}

#[test]
fn measurements_accumulate_per_key() {
    let mut session = Session::new(0);
    session.apply_config(0, Ok(settings_after("start", &DiagnosticSettings::defaults())));
    assert!(session.enabled("mods", 0));
    assert!(!session.enabled("unknown-area", 0));
    session.measure("mods", "a", "on_update", 0, 5, false);
    session.measure("mods", "a", "on_update", 0, 20_000_000, true);
    session.measure("runtime", "b", "tick", 0, 1, false);
    assert_eq!(session.measurements.len(), 2);
    let first = session.measurements[0].1;
    assert_eq!(first.count, 2);
    assert_eq!(first.errors, 1);
    assert_eq!(first.total_nanoseconds, 20_000_005);
    assert_eq!(first.maximum_nanoseconds, 20_000_000);
    assert_eq!(first.slow, 1);
    assert_eq!(session.remaining_seconds(30_000), 90);
    assert!(!session.enabled("mods", 121_000));
}

#[test]
fn a_rejected_configuration_is_reported_once() {
    let mut session = Session::new(0);
    let first = session.apply_config(0, Err("bad".to_string()));
    assert_eq!(first.rejected, Some("bad".to_string()));
    let again = session.apply_config(600, Err("bad".to_string()));
    assert_eq!(again.rejected, None);
    assert_eq!(session.next_config_ms, 1100);
    session.shut_down();
    assert_eq!(session.reason.as_str(), "process-stopped");
}

#[test]
fn status_freshness() {
    assert!(status_fresh(Some(100), 165));
    assert!(!status_fresh(Some(100), 166));
    assert!(!status_fresh(Some(200), 100));
    assert!(!status_fresh(None, 100));
}

#[test]
fn calls_are_slow_from_the_configured_threshold() {
    let mut session = Session::new(0);
    let mut settings = settings_after("start", &DiagnosticSettings::defaults());
    settings.slow_callback_nanoseconds = Some(5_000_000);
    session.apply_config(0, Ok(settings));
    session.measure("mods", "a", "on_update", 0, 4_999_999, false);
    assert_eq!(session.measurements[0].1.slow, 0);
    session.measure("mods", "a", "on_update", 0, 5_000_000, false);
    assert_eq!(session.measurements[0].1.slow, 1);
    let mut unset = Session::new(0);
    let mut no_threshold = settings_after("start", &DiagnosticSettings::defaults());
    no_threshold.slow_callback_nanoseconds = None;
    unset.apply_config(0, Ok(no_threshold));
    unset.measure("mods", "b", "on_load", 0, 19_999_999, false);
    unset.measure("mods", "b", "on_load", 0, 20_000_000, false);
    assert_eq!(unset.measurements[0].1.slow, 1);
}
