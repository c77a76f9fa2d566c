use shroudforge::migration::{convert_settings, extension_value, migrated_enabled, schema_property, LegacyDefinition};

fn pairs(items: &[(&str, &str)]) -> Vec<(String, String)> {
    items.iter().map(|(k, v)| (k.to_string(), v.to_string())).collect()
}

fn definition(key: Option<&str>, members: &[(&str, &str)], options: &[&str]) -> LegacyDefinition {
    LegacyDefinition {
        key: key.map(str::to_string),
        members: pairs(members),
        text: "{\"x\":1}".to_string(),
        options: options.iter().map(|o| o.to_string()).collect(),
    }
}

fn sorted(mut entries: Vec<(String, String)>) -> Vec<(String, String)> {
    entries.sort();
    entries
}

#[test]
fn legacy_definitions_become_schema_properties() {
    let count = definition(
        Some("count"),
        &[("key", "\"count\""), ("type", "\"integer\""), ("label", "\"Count\""), ("default", "3"), ("minimum", "0"), ("maximumLength", "9")],
        &[],
    );
    assert_eq!(
        schema_property(&count, false),
        pairs(&[
            ("type", "\"integer\""),
            ("title", "\"Count\""),
            ("default", "3"),
            ("x-ui", "{\"x\":1}"),
            ("x-apply", "\"restart\""),
            ("minimum", "0"),
            ("maxLength", "9"),
        ])
    );
    let mode = definition(Some("mode"), &[("type", "\"string\"")], &["\"a\"", "\"b\""]);
    let property = schema_property(&mode, true);
    assert!(property.contains(&("x-apply".to_string(), "\"prepare\"".to_string())));
    assert!(property.contains(&("title".to_string(), "null".to_string())));
    assert!(property.contains(&("enum".to_string(), "[\"a\",\"b\"]".to_string())));
    let tags = definition(Some("tags"), &[("type", "\"array\"")], &["1"]);
    assert!(schema_property(&tags, false).contains(&("items".to_string(), "{\"enum\":[1]}".to_string())));
}

#[test]
fn defaults_fill_missing_values_and_legacy_values_win() {
    let definitions = vec![
        definition(Some("a"), &[("default", "1")], &[]),
        definition(Some("b"), &[("default", "2")], &[]),
        definition(Some("c"), &[], &[]),
        definition(Some("b"), &[("default", "5")], &[]),
    ];
    let converted = convert_settings(pairs(&[("a", "10")]), &definitions, false, pairs(&[("c", "true"), ("z", "0")])).unwrap();
    assert_eq!(sorted(converted.values), pairs(&[("a", "10"), ("b", "2"), ("c", "true"), ("z", "0")]));
    assert_eq!(converted.properties.len(), 3);
    let b = &converted.properties.iter().find(|(key, _)| key == "b").unwrap().1;
    assert!(b.contains(&("default".to_string(), "5".to_string())));
    let keyless = vec![definition(Some("a"), &[], &[]), definition(None, &[], &[])];
    assert_eq!(convert_settings(Vec::new(), &keyless, false, Vec::new()).unwrap_err(), "setting without key");
}

#[test]
fn converted_packages_keep_their_choices() {
    assert_eq!(migrated_enabled(Some("true".to_string()), Some("false".to_string())), "true");
    assert_eq!(migrated_enabled(None, Some("true".to_string())), "true");
    assert_eq!(migrated_enabled(None, None), "false");
    assert_eq!(extension_value(true, Some("1".to_string()), Some("2".to_string())), None);
    assert_eq!(extension_value(false, Some("1".to_string()), Some("2".to_string())).as_deref(), Some("1"));
    assert_eq!(extension_value(false, None, Some("2".to_string())).as_deref(), Some("2"));
}
