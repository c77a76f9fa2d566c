use shroudforge::activity::{activity_letter, activity_of, is_feed_line, newest_activity, written_details, Activity, ActivityEvent};
use shroudforge::listing::{data_url, embedded, image_paths, image_type_of_extension, key_order, listing_of, name_order, path_allowed, ImageType};
use shroudforge::logging::{parse_line, LevelFilter, LogLine};
use shroudforge::manifest::{Capability, ModManifest, ModTarget, ModUi, ReleaseMetadata, UiComponent, UiComponentType, UiSection, UiTab};
use shroudforge::notices::{notice_of, notice_order, take_chars, NoticeFields};

fn listed(id: &str, name: &str, capabilities: Vec<Capability>, changelog: usize) -> ModManifest {
    ModManifest {
        id: id.to_string(),
        name: name.to_string(),
        version: "2.1.0".to_string(),
        api: None,
        capabilities,
        dependencies: Vec::new(),
        authors: Vec::new(),
        description: Some("A mod".to_string()),
        license: None,
        icon: None,
        target: ModTarget::Client,
        release: ReleaseMetadata { changelog: (0..changelog).map(|i| format!("line {i}")).collect() },
        setting_groups: Vec::new(),
        settings: Vec::new(),
        ui: ModUi { sections: Vec::new(), tabs: Vec::new() },
        enabled: false,
        links: Vec::new(),
    }
}

fn image(src: &str) -> UiComponent {
    UiComponent {
        component_type: UiComponentType::Image,
        key: None,
        text: None,
        label: None,
        level: None,
        binding: None,
        action: None,
        style: None,
        confirmation: None,
        url: None,
        src: Some(src.to_string()),
        alt: None,
    }
}

fn text_with_src(src: &str) -> UiComponent {
    UiComponent { component_type: UiComponentType::Text, ..image(src) }
}

fn section(components: Vec<UiComponent>) -> UiSection {
    UiSection { title: None, description: None, components }
}

#[test]
fn listing_marks_runtime_mods_and_catalog_installs() {
    let catalog = vec!["from-catalog".to_string()];
    let runtime = listing_of(listed("from-catalog", "Runtime", vec![Capability::Runtime], 3), "r1".to_string(), &catalog);
    assert!(runtime.runtime);
    assert!(runtime.from_catalog);
    assert_eq!(runtime.revision, "r1");
    assert_eq!(runtime.name, "Runtime");
    assert_eq!(runtime.version, "2.1.0");
    assert_eq!(runtime.target, ModTarget::Client);
    assert_eq!(runtime.description.as_deref(), Some("A mod"));
    assert!(!runtime.enabled);
    assert_eq!(runtime.changelog.len(), 3);

    let writer = listing_of(listed("local", "Writer", vec![Capability::Runtime, Capability::AssetsWrite], 0), "r2".to_string(), &catalog);
    assert!(!writer.runtime);
    assert!(!writer.from_catalog);
    let plain = listing_of(listed("plain", "Plain", vec![Capability::Export], 0), "r3".to_string(), &catalog);
    assert!(!plain.runtime);
}

#[test]
fn listing_keeps_at_most_fifty_changelog_lines() {
    let long = listing_of(listed("long", "Long", Vec::new(), 80), "r".to_string(), &Vec::new());
    assert_eq!(long.changelog.len(), 50);
    assert_eq!(long.changelog[0], "line 0");
    assert_eq!(long.changelog[49], "line 49");
}

#[test]
fn mods_are_listed_by_name_without_regard_to_case() {
    let names = vec!["beta".to_string(), "Alpha".to_string(), "BETA".to_string(), "gamma".to_string(), "alpha".to_string()];
    assert_eq!(name_order(&names), vec![1, 4, 0, 2, 3]);
    let unicode = vec!["Ärger".to_string(), "ärger".to_string(), "Zebra".to_string()];
    assert_eq!(name_order(&unicode), vec![2, 0, 1]);
    assert_eq!(name_order(&Vec::new()), Vec::<usize>::new());
}

#[test]
fn keys_are_ordered_by_bytes_and_stable() {
    let keys = vec!["b".to_string(), "a".to_string(), "b".to_string(), "".to_string(), "ab".to_string()];
    assert_eq!(key_order(&keys), vec![3, 1, 4, 0, 2]);
}

#[test]
fn interface_images_are_collected_once_in_order() {
    let ui = ModUi {
        sections: vec![section(vec![image("assets/b.png"), image("assets/a.png"), image("icons/c.png"), text_with_src("assets/t.png")])],
        tabs: vec![UiTab {
            id: "more".to_string(),
            label: "More".to_string(),
            sections: vec![section(vec![image("assets/a.png"), image("assets/../secret.png"), image("assets\\d.png"), image("assets/c.svg")])],
        }],
    };
    assert_eq!(image_paths(&ui), vec!["assets/a.png".to_string(), "assets/b.png".to_string(), "assets/c.svg".to_string()]);
}

#[test]
fn package_paths_may_not_climb_or_use_backslashes() {
    assert!(path_allowed("assets/a.png"));
    assert!(!path_allowed("assets/../a.png"));
    assert!(!path_allowed("assets\\a.png"));
    assert!(path_allowed("assets/a.b.png"));
}

#[test]
fn image_formats_follow_the_extension_in_any_case() {
    assert_eq!(image_type_of_extension("PNG"), Some(ImageType::Png));
    assert_eq!(image_type_of_extension("jpg"), Some(ImageType::Jpeg));
    assert_eq!(image_type_of_extension("JpEg"), Some(ImageType::Jpeg));
    assert_eq!(image_type_of_extension("webp"), Some(ImageType::Webp));
    assert_eq!(image_type_of_extension("svg"), Some(ImageType::Svg));
    assert_eq!(image_type_of_extension("gif"), None);
    assert_eq!(ImageType::Svg.mime(), "image/svg+xml");
}

#[test]
fn images_become_data_urls() {
    assert_eq!(data_url("assets/logo.png", &b"hello".to_vec()).as_deref(), Some("data:image/png;base64,aGVsbG8="));
    assert_eq!(data_url("assets/photo.JPG", &vec![0xff, 0xd8]).as_deref(), Some("data:image/jpeg;base64,/9g="));
    assert_eq!(data_url("assets/anim.gif", &b"x".to_vec()), None);
    assert_eq!(data_url("assets/.png", &b"x".to_vec()), None);
    assert_eq!(data_url("assets/noext", &b"x".to_vec()), None);
    assert_eq!(data_url("icons/logo.png", &b"x".to_vec()), None);
    assert_eq!(data_url("assets/../logo.png", &b"x".to_vec()), None);
    assert_eq!(data_url("assets/big.png", &vec![0u8; 2 * 1024 * 1024 + 1]), None);
    assert!(data_url("assets/max.png", &vec![0u8; 2 * 1024 * 1024]).is_some());
    assert_eq!(embedded(ImageType::Webp, "QUJD"), "data:image/webp;base64,QUJD");
}

fn fields(id: &str, updated_at: Option<u64>) -> NoticeFields {
    NoticeFields {
        id: id.to_string(),
        mod_id: None,
        title: "Title".to_string(),
        message: "Message".to_string(),
        level: None,
        action_url: None,
        updated_at,
        kind: None,
        changelog: Vec::new(),
    }
}

#[test]
fn notices_get_defaults_and_limits() {
    let plain = notice_of(fields("n1", None));
    assert_eq!(plain.mod_id, "shroudforge");
    assert_eq!(plain.level, "info");
    assert_eq!(plain.updated_at, 0);
    assert_eq!(plain.action_url, None);

    let mut full = fields("n2", Some(7));
    full.mod_id = Some("my-mod".to_string());
    full.level = Some("warn".to_string());
    full.title = "é".repeat(130);
    full.message = "m".repeat(2500);
    full.action_url = Some("https://example.org".to_string());
    full.kind = Some("update".to_string());
    full.changelog = (0..60).map(|i| i.to_string()).collect();
    let notice = notice_of(full);
    assert_eq!(notice.mod_id, "my-mod");
    assert_eq!(notice.level, "warn");
    assert_eq!(notice.title.chars().count(), 120);
    assert_eq!(notice.message.len(), 2000);
    assert_eq!(notice.action_url.as_deref(), Some("https://example.org"));
    assert_eq!(notice.updated_at, 7);
    assert_eq!(notice.kind.as_deref(), Some("update"));
    assert_eq!(notice.changelog.len(), 50);

    let mut insecure = fields("n3", None);
    insecure.action_url = Some("http://example.org".to_string());
    assert_eq!(notice_of(insecure).action_url, None);
    assert_eq!(take_chars("abc", 2), "ab");
    assert_eq!(take_chars("abc", 5), "abc");
}

#[test]
fn notices_are_shown_newest_first_and_at_most_a_hundred() {
    assert_eq!(notice_order(&vec![5, 9, 5, 1, 9]), vec![1, 4, 0, 2, 3]);
    let many: Vec<u64> = (0..150).map(|i| i % 7).collect();
    let order = notice_order(&many);
    assert_eq!(order.len(), 100);
    for pair in order.windows(2) {
        let (a, b) = (pair[0], pair[1]);
        assert!(many[a] > many[b] || (many[a] == many[b] && a < b));
    }
    for (index, time) in many.iter().enumerate() {
        if !order.contains(&index) {
            assert!(order.iter().all(|&shown| many[shown] >= *time));
        }
    }
}

#[test]
fn activity_levels_map_to_log_letters() {
    assert_eq!(activity_letter("warn"), 'W');
    assert_eq!(activity_letter("error"), 'E');
    assert_eq!(activity_letter("debug"), 'D');
    assert_eq!(activity_letter("info"), 'I');
    assert_eq!(activity_letter("other"), 'I');
    assert_eq!(written_details(Some(&"d".repeat(600))).map(|d| d.len()), Some(500));
    assert_eq!(written_details(None), None);
}

fn event(source: &str, action: &str) -> ActivityEvent {
    ActivityEvent { source: source.to_string(), action: action.to_string(), result: "ok".to_string(), details: None }
}

#[test]
fn activity_is_read_back_from_the_log() {
    let line = parse_line("[W 00:00:01.000] [activity] {\"source\":\"ui\"}").unwrap();
    assert!(is_feed_line(&line, LevelFilter::Info));
    assert!(!is_feed_line(&line, LevelFilter::Error));
    let other = parse_line("[I 00:00:01.000] [loader] text").unwrap();
    assert!(!is_feed_line(&other, LevelFilter::Trace));
    let entry = activity_of(7, line, event("ui", "install")).unwrap();
    assert_eq!(entry.id, "7-00:00:01.000-ui-install");
    assert_eq!(entry.time, "00:00:01.000");
    assert_eq!(entry.level, "warn");
    assert_eq!(entry.result, "ok");
    let unknown = LogLine { level: 'X', time: "t".to_string(), source: "activity".to_string(), message: String::new() };
    assert!(activity_of(0, unknown, event("ui", "x")).is_none());
}

fn entry(id: usize) -> Activity {
    Activity {
        id: id.to_string(),
        time: String::new(),
        source: String::new(),
        action: String::new(),
        result: String::new(),
        details: None,
        level: "info".to_string(),
    }
}

#[test]
fn the_feed_shows_the_latest_hundred_entries_first() {
    let few = newest_activity((0..3).map(entry).collect());
    assert_eq!(few.iter().map(|a| a.id.as_str()).collect::<Vec<_>>(), vec!["2", "1", "0"]);
    let many = newest_activity((0..130).map(entry).collect());
    assert_eq!(many.len(), 100);
    assert_eq!(many[0].id, "129");
    assert_eq!(many[99].id, "30");
}

#[test]
fn image_extensions_come_from_the_last_component() {
    assert!(data_url("assets/logo.png/", &b"x".to_vec()).is_some());
    assert!(data_url("assets//logo.svg/.", &b"x".to_vec()).is_some());
    assert!(data_url("assets/png/.", &b"x".to_vec()).is_none());
    assert!(data_url("assets/logo.", &b"x".to_vec()).is_none());
    assert!(data_url("assets/a.b.webp", &b"x".to_vec()).is_some());
    assert_eq!(data_url("assets/f.png", &b"ab".to_vec()).as_deref(), Some("data:image/png;base64,YWI="));
    assert_eq!(data_url("assets/f.png", &b"abc".to_vec()).as_deref(), Some("data:image/png;base64,YWJj"));
    assert_eq!(data_url("assets/f.png", &Vec::new()).as_deref(), Some("data:image/png;base64,"));
}
