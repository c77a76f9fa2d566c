//! Which entries of the `mods` directory are packages: hidden entries are skipped,
//! directories are read from disk and `.zip` files as archives; anything else is
//! passed over.
use vstd::prelude::*;
use crate::text::{chars_of, matches_at, occurs_at, starts_with};

verus! {

/// What the file system reports an entry to be.
#[derive(Clone, Copy, PartialEq, Eq, Debug)]
pub enum EntryKind {
    Directory,
    File,
    Other,
}

/// How discovery treats an entry of the `mods` directory.
#[derive(Clone, Copy, PartialEq, Eq, Debug)]
pub enum PackageEntry {
    Skip,
    Directory,
    Zip,
}

/// `s` ends with `suffix`.
pub open spec fn ends_with(s: Seq<char>, suffix: Seq<char>) -> bool {
    suffix.len() <= s.len() && occurs_at(s, suffix, s.len() - suffix.len())
}

/// The treatment of an entry named `file_name`: a name that starts with a dot is
/// hidden; a directory is a package; a file is one when its extension is `zip`
/// (for a name that does not start with a dot, exactly when it ends with `.zip`).
pub open spec fn package_entry_spec(file_name: Seq<char>, kind: EntryKind) -> PackageEntry {
    if starts_with(file_name, seq!['.']) {
        PackageEntry::Skip
    } else {
        match kind {
            EntryKind::Directory => PackageEntry::Directory,
            EntryKind::File => if ends_with(file_name, seq!['.', 'z', 'i', 'p']) {
                PackageEntry::Zip
            } else {
                PackageEntry::Skip
            },
            EntryKind::Other => PackageEntry::Skip,
        }
    }
}

/// Classifies one entry of the `mods` directory.
pub fn package_entry(file_name: &str, kind: EntryKind) -> (r: PackageEntry)
    ensures
        r == package_entry_spec(file_name@, kind),
{
    let name = chars_of(file_name);
    let dot = vec!['.'];
    assert(dot@ == seq!['.']);
    if matches_at(&name, &dot, 0) {
        return PackageEntry::Skip;
    }
    match kind {
        EntryKind::Directory => PackageEntry::Directory,
        EntryKind::File => {
            let zip = vec!['.', 'z', 'i', 'p'];
            assert(zip@ == seq!['.', 'z', 'i', 'p']);
            if name.len() >= 4 && matches_at(&name, &zip, name.len() - 4) {
                PackageEntry::Zip
            } else {
                PackageEntry::Skip
            }
        },
        EntryKind::Other => PackageEntry::Skip,
    }
}

} // verus!
