use shroudforge::news::{directory, event_schema_path, events_directory, mark_read, migrate_events, news_state, read_ids, validate_event, NewsMessage, NewsState, ReadAtShape};

const NOW: u64 = 1_750_000_000;

fn messages() -> Vec<NewsMessage> {
    vec![
        NewsMessage { id: "shroudforge-support-1".to_string(), repeat_every_days: Some(90) },
        NewsMessage { id: "shroudforge-welcome-1.0.0".to_string(), repeat_every_days: None },
    ]
}

#[test]
fn recurring_news_becomes_unread_and_can_be_acknowledged_again() {
    let mut state = NewsState {
        read: vec!["shroudforge-support-1".to_string(), "shroudforge-welcome-1.0.0".to_string()],
        read_at: vec![
            ("shroudforge-support-1".to_string(), NOW - 91 * 86400),
            ("shroudforge-welcome-1.0.0".to_string(), NOW - 91 * 86400),
        ],
    };
    assert_eq!(read_ids(&state, &messages(), NOW), vec!["shroudforge-welcome-1.0.0".to_string()]);
    mark_read(&mut state, &vec!["shroudforge-support-1".to_string()], NOW);
    assert_eq!(
        read_ids(&state, &messages(), NOW),
        vec!["shroudforge-support-1".to_string(), "shroudforge-welcome-1.0.0".to_string()]
    );
}

#[test]
fn a_recurring_message_stays_read_within_its_interval() {
    let state = NewsState {
        read: vec!["shroudforge-support-1".to_string()],
        read_at: vec![("shroudforge-support-1".to_string(), NOW - 89 * 86400)],
    };
    assert_eq!(read_ids(&state, &messages(), NOW), vec!["shroudforge-support-1".to_string()]);
}

#[test]
fn a_read_id_without_a_time_counts_from_zero() {
    let state = NewsState { read: vec!["shroudforge-support-1".to_string()], read_at: Vec::new() };
    assert!(read_ids(&state, &messages(), NOW).is_empty());
    assert_eq!(read_ids(&state, &messages(), 89 * 86400), vec!["shroudforge-support-1".to_string()]);
}

#[test]
fn marking_adds_new_ids_once() {
    let mut state = NewsState { read: Vec::new(), read_at: Vec::new() };
    mark_read(&mut state, &vec!["one".to_string(), "one".to_string()], 5);
    assert_eq!(state.read, vec!["one".to_string()]);
    assert_eq!(read_ids(&state, &Vec::new(), 5), vec!["one".to_string()]);
}

#[test]
fn news_directories() {
    assert_eq!(directory("C:/game"), "C:/game/shroudforge/config/news");
    assert_eq!(events_directory("C:/game/"), "C:/game/shroudforge/config/news/events");
}

#[test]
fn invalid_state_is_reported_and_preserved() {
    let result = news_state(true, Some(Vec::new()), ReadAtShape::Other);
    assert_eq!(result.err(), Some("news readAt must be an object".to_string()));
}

#[test]
fn migration_preserves_read_state_and_newer_events() {
    let old = r#"{"id":"one","message":"old","title":"T","level":"info"}"#.to_string();
    let new = r#"{"id":"one","message":"new","title":"T","level":"info"}"#.to_string();
    let events = migrate_events(vec![("event-one.json".to_string(), new.clone())], vec![("event-one.json".to_string(), old)]);
    assert_eq!(events, vec![("event-one.json".to_string(), new)]);
    let state = news_state(true, Some(vec![Some("one".to_string())]), ReadAtShape::Missing).unwrap();
    assert_eq!(state.read[0], "one");
    let emptied = news_state(true, Some(Vec::new()), ReadAtShape::Object(Vec::new())).unwrap();
    assert!(emptied.read.is_empty());
}

#[test]
fn legacy_events_are_added_once() {
    let events = migrate_events(
        vec![("a.json".to_string(), "1".to_string())],
        vec![("a.json".to_string(), "0".to_string()), ("b.json".to_string(), "2".to_string())],
    );
    assert_eq!(events.len(), 2);
    assert!(events.contains(&("a.json".to_string(), "1".to_string())));
    assert!(events.contains(&("b.json".to_string(), "2".to_string())));
}

#[test]
fn marking_an_already_read_id_keeps_it_in_place() {
    let mut state = NewsState {
        read: vec!["a".to_string(), "b".to_string()],
        read_at: vec![("a".to_string(), 1), ("b".to_string(), 2)],
    };
    mark_read(&mut state, &vec!["a".to_string(), "c".to_string()], 9);
    assert_eq!(state.read, vec!["a".to_string(), "b".to_string(), "c".to_string()]);
}

#[test]
fn read_state_errors() {
    assert_eq!(news_state(false, None, ReadAtShape::Missing).err(), Some("news read state must be an object".to_string()));
    assert_eq!(news_state(true, None, ReadAtShape::Missing).err(), Some("news read state must contain a read array".to_string()));
    assert_eq!(news_state(true, Some(vec![None]), ReadAtShape::Missing).err(), Some("news read id must be a string".to_string()));
}

#[test]
fn events_follow_their_schema() {
    assert_eq!(event_schema_path("C:/game"), "C:/game/shroudforge/config/news/event-schema.json");
    let schema = r#"{"type":"object","required":["id","message"]}"#;
    assert!(validate_event(schema, r#"{"id":"one","message":"m"}"#).is_ok());
    assert!(validate_event(schema, r#"{"id":"one"}"#).is_err());
}
