use shroudforge::logging::{activity_level, allows, archive_name, configured_level, event_line, event_source, format_line, parse_line, single_line, timestamp, LevelFilter};

#[test]
fn log_lines_use_the_canonical_layout() {
    assert_eq!(timestamp(0), "00:00:00,000");
    assert_eq!(timestamp(3_723_045), "01:02:03,045");
    assert_eq!(timestamp(360_000_000), "100:00:00,000");
    assert_eq!(single_line("a\r\nb"), "a\\r\\nb");
    assert_eq!(format_line('I', "api", "started", "00:00:01,000"), "[I 00:00:01,000] [api] started");
    assert_eq!(format_line('W', "a]b\nc", "two\nlines", "t"), "[W t] [a_b\\nc] two\\nlines");
    assert_eq!(event_line('E', "mod.x", "failed", "t", &vec!["code=7".to_string(), "path=a\nb".to_string()]), "[E t] [mod.x] failed code=7 path=a\\nb");
    assert_eq!(event_line('I', "s", "m", "t", &Vec::new()), "[I t] [s] m");
}

#[test]
fn event_sources() {
    assert_eq!(event_source(Some("mod.example"), "shroudforge_api::x"), "mod.example");
    assert_eq!(event_source(None, "shroudforge_api::lua"), "api");
    assert_eq!(event_source(None, "shroudforge_package::config"), "package");
    assert_eq!(event_source(None, "shroudforge_modloader"), "runtime");
    assert_eq!(event_source(None, "shroudforge::diagnostics"), "diagnostics");
    assert_eq!(event_source(None, "other::target"), "other::target");
}

#[test]
fn levels_follow_the_loader_settings() {
    assert_eq!(configured_level(None), LevelFilter::Info);
    assert_eq!(configured_level(Some((Some(false), Some("TRACE")))), LevelFilter::Off);
    assert_eq!(configured_level(Some((None, Some("warning")))), LevelFilter::Warn);
    assert_eq!(configured_level(Some((Some(true), Some("all")))), LevelFilter::Trace);
    assert_eq!(configured_level(Some((Some(true), Some("verbose")))), LevelFilter::Info);
    assert!(allows('E', LevelFilter::Warn));
    assert!(!allows('I', LevelFilter::Warn));
    assert!(!allows('E', LevelFilter::Off));
    assert!(allows('X', LevelFilter::Info));
}

#[test]
fn archived_logs_are_numbered() {
    assert_eq!(archive_name(1_700_000_000, 1), "shroudforge-1700000000.log");
    assert_eq!(archive_name(1_700_000_000, 2), "shroudforge-1700000000-2.log");
}

#[test]
fn log_lines_read_back() {
    let line = format_line('W', "activity", "{\"source\":\"ui\"}", "00:01:02,003");
    let parsed = parse_line(&line).unwrap();
    assert_eq!(parsed.level, 'W');
    assert_eq!(parsed.time, "00:01:02,003");
    assert_eq!(parsed.source, "activity");
    assert_eq!(parsed.message, "{\"source\":\"ui\"}");
    let tricky = parse_line("[E 1] [a] [b] rest] here").unwrap();
    assert_eq!((tricky.time.as_str(), tricky.source.as_str(), tricky.message.as_str()), ("1", "a", "[b] rest] here"));
    assert!(parse_line("plain text").is_none());
    assert!(parse_line("[X 1] [a] m").is_none());
    assert!(parse_line("[I] [a] m").is_none());
    assert!(parse_line("[I 1] [a]").is_none());
    assert_eq!(activity_level('D'), Some("info"));
    assert_eq!(activity_level('W'), Some("warn"));
    assert_eq!(activity_level('E'), Some("error"));
    assert_eq!(activity_level('Q'), None);
}
