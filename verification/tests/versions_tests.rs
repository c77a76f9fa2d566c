use shroudforge::versions::{parse_requirement, requirement_matches, version_equals, version_error, version_parses, version_precedes};

#[test]
fn semver_requirements() {
    assert_eq!(requirement_matches("^1.2", "1.4.0"), Some(true));
    assert_eq!(requirement_matches("^1.2", "2.0.0"), Some(false));
    assert_eq!(requirement_matches(">=1.0.0, <2", "1.9.9"), Some(true));
    assert_eq!(requirement_matches("garbage", "1.0.0"), None);
    assert_eq!(requirement_matches("*", "not-a-version"), None);
    assert_eq!(parse_requirement("^1.2"), Ok("^1.2".to_string()));
    assert_eq!(parse_requirement(">=2.0"), Ok(">=2.0".to_string()));
    assert!(parse_requirement("not a range").is_err());
}

#[test]
fn semver_versions() {
    assert!(version_parses("1.2.3"));
    assert!(version_parses("1.2.3-beta.1"));
    assert!(!version_parses("1.2"));
    assert_eq!(version_precedes("1.2.3", "1.10.0"), Some(true));
    assert_eq!(version_precedes("1.0.0", "1.0.0-rc.1"), Some(false));
    assert_eq!(version_precedes("1.0.0-rc.1", "1.0.0"), Some(true));
    assert_eq!(version_precedes("x", "1.0.0"), None);
    assert_eq!(version_equals("1.0.0", "1.0.0"), Some(true));
    assert_eq!(version_equals("1.0.0", "1.0.1"), Some(false));
    assert_eq!(version_error("1.0.0"), None);
    assert!(version_error("1.0").is_some());
}
