use shroudforge::catalog::{catalog_access, check_extracted, check_package_size, select_package, verify_mod_hash, ApiVersion, VersionFile, MAX_MOD_BYTES};
use shroudforge::ui::ProviderConfig;

fn file(name: &str, url: &str, size: u64, primary: bool) -> VersionFile {
    VersionFile { filename: name.to_string(), url: url.to_string(), size, primary, hashes: Vec::new() }
}

#[test]
fn the_catalog_needs_the_enabled_shroudedit_provider() {
    let mut provider = ProviderConfig::catalog_default();
    assert_eq!(catalog_access(&provider).unwrap_err(), "ShroudEdit access is disabled");
    provider.enabled = true;
    assert!(catalog_access(&provider).is_ok());
    assert!(catalog_access(&ProviderConfig::system_default()).is_err());
}

#[test]
fn the_primary_zip_is_chosen() {
    let version = ApiVersion {
        id: "v1".to_string(),
        project_id: "p".to_string(),
        files: vec![
            file("readme.txt", "https://cdn/readme.txt", 10, false),
            file("Mod.ZIP", "https://cdn/mod.zip", 100, true),
        ],
    };
    assert_eq!(select_package(&version, "p", "v1"), Ok(1));
    assert_eq!(select_package(&version, "q", "v1").unwrap_err(), "Version metadata does not belong to the resolved project");
    let plain_http = ApiVersion { id: "v1".to_string(), project_id: "p".to_string(), files: vec![file("mod.zip", "http://cdn/mod.zip", 1, false)] };
    assert_eq!(select_package(&plain_http, "p", "v1").unwrap_err(), "Mod package is not a valid ZIP archive");
    let empty = ApiVersion { id: "v1".to_string(), project_id: "p".to_string(), files: Vec::new() };
    assert_eq!(select_package(&empty, "p", "v1").unwrap_err(), "Version contains no mod package");
    let huge = ApiVersion { id: "v1".to_string(), project_id: "p".to_string(), files: vec![file("mod.zip", "https://cdn/mod.zip", MAX_MOD_BYTES + 1, false)] };
    assert!(select_package(&huge, "p", "v1").is_err());
}

#[test]
fn package_size_and_extraction_checks() {
    assert!(check_package_size(None).is_ok());
    assert!(check_package_size(Some(MAX_MOD_BYTES)).is_ok());
    assert_eq!(check_package_size(Some(MAX_MOD_BYTES + 1)).unwrap_err(), "Mod package exceeds 512 MiB");
    assert!(check_extracted("a", "a", true).is_ok());
    assert_eq!(check_extracted("a", "b", true).unwrap_err(), "extracted mod must have the same id and a src/mod.lua entrypoint");
    assert!(check_extracted("a", "a", false).is_err());
}

#[test]
fn downloads_are_verified_by_sha512_then_sha256() {
    let sha512_abc = "DDAF35A193617ABACC417349AE20413112E6FA4E89A97EA20A9EEEE64B55D39A2192992A274FC1A836BA3C23A3FEEBBD454D4423643CE80E2A9AC94FA54CA49F";
    let sha256_abc = "ba7816bf8f01cfea414140de5dae2223b00361a396177a9cb410ff61f20015ad";
    assert!(verify_mod_hash(b"abc", &vec![("sha512".to_string(), sha512_abc.to_string())]).is_ok());
    assert!(verify_mod_hash(b"abc", &vec![("sha256".to_string(), sha256_abc.to_string())]).is_ok());
    assert_eq!(
        verify_mod_hash(b"abd", &vec![("sha512".to_string(), sha512_abc.to_string()), ("sha256".to_string(), sha256_abc.to_string())]).unwrap_err(),
        "Mod package checksum does not match"
    );
    assert_eq!(
        verify_mod_hash(b"abc", &vec![("md5".to_string(), "900150983cd24fb0d6963f7d28e17f72".to_string())]).unwrap_err(),
        "Mod package has no SHA-512 or SHA-256 checksum"
    );
}
