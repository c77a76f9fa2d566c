use shroudforge::catalog::{accepts_loaders, catalog_item, catalog_provider_check, search_disabled, search_outcome, search_query, search_url, CatalogFields};
use shroudforge::releases::{check_result, check_start, latest_release_url, release_assets, release_from, str_ends_with, update_provider_check, CheckStart, Release};

const CHECKSUM: &str = "ABCDEF0123456789abcdef0123456789ABCDEF0123456789abcdef0123456789";

#[test]
fn latest_release_url_trims_slashes() {
    assert_eq!(latest_release_url("https://api.github.com/", "/owner/repo/"), "https://api.github.com/repos/owner/repo/releases/latest");
    assert_eq!(latest_release_url("https://api.github.com", "owner/repo"), "https://api.github.com/repos/owner/repo/releases/latest");
}

#[test]
fn only_github_releases_provide_system_updates() {
    assert!(update_provider_check("github-releases").is_ok());
    assert_eq!(update_provider_check("shroudedit").unwrap_err(), "unsupported update provider: shroudedit");
}

fn names(items: &[&str]) -> Vec<String> {
    items.iter().map(|s| s.to_string()).collect()
}

#[test]
fn release_assets_pick_the_package_and_its_checksum() {
    let assets = names(&["notes.txt", "shroudforge-1.2.0.zip.sha256", "shroudforge-1.2.0.zip", "shroudforge-1.2.0.zip"]);
    assert_eq!(release_assets(&assets), Ok((2, 1)));
    assert_eq!(release_assets(&names(&["other.zip", "shroudforge-1.zip.sig"])).unwrap_err(), "GitHub release does not contain a ShroudForge ZIP");
    assert_eq!(
        release_assets(&names(&["shroudforge-1.zip", "shroudforge-2.zip.sha256"])).unwrap_err(),
        "GitHub release does not contain a matching .zip.sha256 file"
    );
    assert!(str_ends_with("a.zip", ".zip"));
    assert!(!str_ends_with("zip", ".zip"));
}

#[test]
fn releases_are_read_from_tag_notes_and_checksum() {
    let release = release_from("v1.2.0-build.42", "https://github.com/o/r".to_string(), "  ".to_string(), "https://x/p.zip".to_string(), &format!("{CHECKSUM}  shroudforge.zip\n")).unwrap();
    assert_eq!(release.version, "1.2.0-build.42");
    assert_eq!(release.base_version, "1.2.0");
    assert_eq!(release.build, 42);
    assert_eq!(release.checksum, CHECKSUM.to_ascii_lowercase());
    assert_eq!(release.release_url.as_deref(), Some("https://github.com/o/r"));
    assert_eq!(release.message, "A new ShroudForge version is available on GitHub.");
    let noted = release_from("1.0.0-build.1", String::new(), "Fixes".to_string(), String::new(), CHECKSUM).unwrap();
    assert_eq!(noted.message, "Fixes");
    assert_eq!(
        release_from("v1.2.0-build.42", String::new(), String::new(), String::new(), "abc").unwrap_err(),
        "GitHub release does not contain a valid SHA-256 checksum"
    );
    assert_eq!(
        release_from("v1.2.0", String::new(), String::new(), String::new(), CHECKSUM).unwrap_err(),
        "Invalid ShroudForge release tag: 1.2.0"
    );
}

fn release(base: &str, build: u64) -> Release {
    Release {
        version: format!("{base}-build.{build}"),
        base_version: base.to_string(),
        build,
        download_url: String::new(),
        checksum: String::new(),
        release_url: Some("https://github.com/o/r".to_string()),
        message: "New things".to_string(),
    }
}

#[test]
fn update_checks_report_what_they_found() {
    let (newer, kept) = check_result("1.0.0", 5, Ok(Some(release("1.1.0", 1))));
    assert!(newer.update_available);
    assert_eq!(newer.state, "ready");
    assert_eq!(newer.message, "New things");
    assert_eq!(newer.outcome, Ok("Update 1.1.0-build.1 is available.".to_string()));
    assert_eq!(newer.notice_key, "updates.check.available");
    assert_eq!(newer.latest_version.as_deref(), Some("1.1.0-build.1"));
    assert!(kept.is_some());

    let (same, _) = check_result("1.1.0", 1, Ok(Some(release("1.1.0", 1))));
    assert!(!same.update_available);
    assert_eq!(same.message, "ShroudForge is up to date.");
    assert_eq!(same.notice_key, "updates.check.upToDate");
    let (rebuilt, _) = check_result("1.1.0", 1, Ok(Some(release("1.1.0", 2))));
    assert!(rebuilt.update_available);

    let (none, nothing) = check_result("1.0.0", 0, Ok(None));
    assert!(nothing.is_none());
    assert_eq!(none.message, "No ShroudForge release has been published on GitHub yet.");
    assert_eq!(none.outcome, Ok("No ShroudForge release has been published yet.".to_string()));
    assert_eq!(none.notice_key, "updates.check.none");

    let (failed, _) = check_result("1.0.0", 0, Err("GitHub is unreachable".to_string()));
    assert_eq!(failed.state, "error");
    assert_eq!(failed.message, "GitHub is unreachable");
    assert_eq!(failed.outcome, Err("GitHub is unreachable".to_string()));
    assert_eq!(failed.notice_key, "updates.check.upToDate");
}

#[test]
fn update_checks_do_not_overlap() {
    assert_eq!(check_start("checking", true), CheckStart::Busy);
    assert_eq!(check_start("downloading", false), CheckStart::Busy);
    assert_eq!(check_start("idle", false), CheckStart::Disabled);
    assert_eq!(check_start("ready", true), CheckStart::Start);
}

#[test]
fn catalog_search_queries_and_urls() {
    assert_eq!(search_query("  mods \n"), "mods");
    assert_eq!(search_query(&"q".repeat(150)).len(), 100);
    assert_eq!(search_url("https://api.shroudedit.com//"), "https://api.shroudedit.com/v3/search");
    assert!(catalog_provider_check("shroudedit").is_ok());
    assert_eq!(catalog_provider_check("github-releases").unwrap_err(), "unsupported catalog provider: github-releases");
}

fn hit(id: Option<&str>, slug: Option<&str>, name: Option<&str>) -> CatalogFields {
    CatalogFields {
        id: id.map(str::to_string),
        slug: slug.map(str::to_string),
        name: name.map(str::to_string),
        summary: None,
        icon_url: Some("https://i/x.png".to_string()),
        author: None,
        downloads: Some(12),
        version: Some("1.0.0".to_string()),
    }
}

#[test]
fn catalog_hits_must_serve_shroudforge_and_be_named() {
    assert!(accepts_loaders(&Vec::new()));
    assert!(accepts_loaders(&names(&["other", "ShroudForge"])));
    assert!(!accepts_loaders(&names(&["other"])));

    let item = catalog_item(hit(Some("p1"), None, Some("Mod")), &Vec::new()).unwrap();
    assert_eq!(item.slug, "p1");
    assert_eq!(item.summary, "");
    assert_eq!(item.downloads, Some(12));
    let slugged = catalog_item(hit(Some("p1"), Some("my-mod"), Some("Mod")), &names(&["SHROUDFORGE"])).unwrap();
    assert_eq!(slugged.slug, "my-mod");
    assert!(catalog_item(hit(None, None, Some("Mod")), &Vec::new()).is_none());
    assert!(catalog_item(hit(Some("p1"), None, Some("")), &Vec::new()).is_none());
    assert!(catalog_item(hit(Some("p1"), None, Some("Mod")), &names(&["other"])).is_none());
}

#[test]
fn catalog_search_outcomes() {
    let empty = search_outcome(Ok(0));
    assert_eq!(empty.state, "ready");
    assert_eq!(empty.message.as_deref(), Some("No matching ShroudForge mods found."));
    assert_eq!(empty.detail.as_deref(), Some("Catalog search completed: 0 result(s)."));
    let found = search_outcome(Ok(3));
    assert_eq!(found.message, None);
    assert_eq!(found.detail.as_deref(), Some("Catalog search completed: 3 result(s)."));
    let failed = search_outcome(Err("ShroudEdit returned HTTP 500".to_string()));
    assert_eq!(failed.state, "error");
    assert_eq!(failed.message.as_deref(), Some("ShroudEdit returned HTTP 500"));
    assert_eq!(search_disabled().message.as_deref(), Some("ShroudEdit access is disabled."));
}
