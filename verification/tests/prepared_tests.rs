use shroudforge::config::revision;
use shroudforge::manifest::Capability;
use shroudforge::prepared::{fingerprint, fingerprint_input, push_le_bytes, FingerprintItem, PackageContent};

#[test]
fn little_endian_bytes() {
    let mut out = vec![9u8];
    push_le_bytes(&mut out, 0x0102, 4);
    assert_eq!(out, vec![9, 2, 1, 0, 0]);
    let mut wide = Vec::new();
    push_le_bytes(&mut wide, u128::MAX, 16);
    assert_eq!(wide, vec![255u8; 16]);
}

#[test]
fn fingerprint_covers_target_executable_and_asset_mods() {
    let items = vec![
        FingerprintItem { capabilities: vec![Capability::Runtime], manifest_json: b"{\"id\":\"live\"}".to_vec(), content: PackageContent::Archive(vec![1, 2]) },
        FingerprintItem {
            capabilities: vec![Capability::AssetsWrite],
            manifest_json: b"{}".to_vec(),
            content: PackageContent::Directory(vec![("src/mod.lua".to_string(), vec![0xaa]), ("mod.json".to_string(), vec![0xbb])]),
        },
        FingerprintItem { capabilities: vec![Capability::Export], manifest_json: b"[]".to_vec(), content: PackageContent::Archive(vec![7]) },
    ];
    let input = fingerprint_input(false, 0x10, 1, &items);
    let mut expected = b"client".to_vec();
    expected.extend_from_slice(&0x10u64.to_le_bytes());
    expected.extend_from_slice(&1u128.to_le_bytes());
    expected.extend_from_slice(b"{}src/mod.lua");
    expected.push(0xaa);
    expected.extend_from_slice(b"mod.json");
    expected.push(0xbb);
    expected.extend_from_slice(b"[]");
    expected.push(7);
    assert_eq!(input, expected);
    assert_eq!(fingerprint(false, 0x10, 1, &items), revision(&expected));
    assert_ne!(fingerprint(true, 0x10, 1, &items), fingerprint(false, 0x10, 1, &items));
    assert_eq!(&fingerprint_input(true, 0, 0, &Vec::new())[..6], b"server");
}

#[test]
fn only_an_applied_record_with_the_same_fingerprint_matches() {
    assert!(shroudforge::prepared::matches(Some("applied"), Some("abc"), "abc"));
    assert!(!shroudforge::prepared::matches(Some("preparing"), Some("abc"), "abc"));
    assert!(!shroudforge::prepared::matches(Some("applied"), Some("abd"), "abc"));
    assert!(!shroudforge::prepared::matches(None, Some("abc"), "abc"));
    assert!(!shroudforge::prepared::matches(Some("applied"), None, "abc"));
}
