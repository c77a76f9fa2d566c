use shroudforge::diagnostics::{DiagnosticSettings, Session, TickStep};
use shroudforge::ingame::{load_failure, module_start, ModuleStart, ModuleValue};
use shroudforge::ui::{UiModuleConfig, UI_TOGGLE_KEY};

#[test]
fn a_table_with_valid_callbacks_starts() {
    let start = module_start(ModuleValue::Table, Ok(Some(100)), true, true, true);
    assert!(matches!(start, ModuleStart::Ready { interval: 100, run_load: true, active: true }));
    let start = module_start(ModuleValue::Nil, Err(()), true, false, false);
    assert!(matches!(start, ModuleStart::Ready { interval: 50, run_load: false, active: false }));
}

#[test]
fn rejected_modules_carry_their_reason() {
    let message = |start: ModuleStart| match start {
        ModuleStart::Rejected(m) => m,
        ModuleStart::Ready { .. } => panic!("module started"),
    };
    assert_eq!(message(module_start(ModuleValue::Failed("boom".to_string()), Ok(None), true, true, true)), "module initialization failed: boom");
    assert_eq!(message(module_start(ModuleValue::Other, Ok(None), true, true, true)), "entrypoint must return a lifecycle table or nil");
    assert_eq!(message(module_start(ModuleValue::Table, Ok(Some(5)), true, true, true)), "update_interval_ms must be an integer from 8 to 1000");
    assert_eq!(message(module_start(ModuleValue::Table, Ok(None), false, true, true)), "invalid lifecycle");
    assert_eq!(load_failure("bad"), "on_load failed: bad");
}

#[test]
fn a_tick_samples_only_when_due() {
    let mut session = Session::new(1_000);
    session.next_sample_ms = 5_000;
    assert_eq!(session.tick_step(2_000), TickStep::Idle);
    assert_eq!(session.next_sample_ms, 5_000);
    assert_eq!(session.tick_step(5_000), TickStep::Publish);
    assert_eq!(session.next_sample_ms, 7_000);
    session.active = true;
    session.started_ms = 5_000;
    session.settings = DiagnosticSettings::defaults();
    assert_eq!(session.tick_step(7_000), TickStep::SampleAndPublish);
}

#[test]
fn the_modloader_window_opens_with_f9() {
    let config = UiModuleConfig::fallback();
    assert_eq!(UI_TOGGLE_KEY, 120);
    assert_eq!(config.toggle_key, 120);
    assert_eq!(config.refresh_milliseconds, 1000);
    assert!(!config.update_provider.enabled);
    assert_eq!(config.system_update_provider.kind, "github-releases");
}
