use shroudforge::console::{default_config, normalize_config, tail_start, trim_partial_line, ConsoleConfig, DEFAULT_TOGGLE_KEY, MAX_TAIL};
use shroudforge::discovery::{package_entry, EntryKind, PackageEntry};

#[test]
fn console_settings_stay_within_limits() {
    let normalized = normalize_config(ConsoleConfig { toggle_key: 0, refresh_milliseconds: 5, tail_bytes: 1 << 30 });
    assert_eq!(normalized.toggle_key, DEFAULT_TOGGLE_KEY);
    assert_eq!(normalized.refresh_milliseconds, 100);
    assert_eq!(normalized.tail_bytes, MAX_TAIL);
    let kept = normalize_config(ConsoleConfig { toggle_key: 120, refresh_milliseconds: 20_000, tail_bytes: 10 });
    assert_eq!(kept.toggle_key, 120);
    assert_eq!(kept.refresh_milliseconds, 10_000);
    assert_eq!(kept.tail_bytes, 1024);
    let defaults = default_config();
    assert_eq!((defaults.toggle_key, defaults.refresh_milliseconds, defaults.tail_bytes), (121, 500, 1_048_576));
}

#[test]
fn the_tail_starts_at_a_line() {
    assert_eq!(tail_start(100, 1024), 0);
    assert_eq!(tail_start(5000, 1024), 3976);
    assert_eq!(trim_partial_line(b"rest of line\nnext\n".to_vec(), Some(b'x')), b"next\n".to_vec());
    assert_eq!(trim_partial_line(b"whole\n".to_vec(), Some(b'\n')), b"whole\n".to_vec());
    assert_eq!(trim_partial_line(b"whole\n".to_vec(), None), b"whole\n".to_vec());
    assert_eq!(trim_partial_line(b"no newline".to_vec(), Some(b'x')), Vec::<u8>::new());
}

#[test]
fn discovery_reads_directories_and_zip_files() {
    assert_eq!(package_entry(".hidden", EntryKind::Directory), PackageEntry::Skip);
    assert_eq!(package_entry("example", EntryKind::Directory), PackageEntry::Directory);
    assert_eq!(package_entry("example.zip", EntryKind::File), PackageEntry::Zip);
    assert_eq!(package_entry("example.tar.zip", EntryKind::File), PackageEntry::Zip);
    assert_eq!(package_entry("example.zip.bak", EntryKind::File), PackageEntry::Skip);
    assert_eq!(package_entry("zip", EntryKind::File), PackageEntry::Skip);
    assert_eq!(package_entry("link.zip", EntryKind::Other), PackageEntry::Skip);
}
