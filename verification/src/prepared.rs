//! The fingerprint of a prepared asset configuration: the SHA-256 digest, in
//! hexadecimal, of the target, the game executable's size and modification time,
//! and the manifest and package files of every planned mod that writes assets or
//! exports files.
use vstd::prelude::*;
use vstd::utf8::encode_utf8;
use crate::config::{revision, revision_spec};
use crate::manifest::Capability;
use crate::text::str_equal;

verus! {

/// The `width` low bytes of `n`, least significant first (`to_le_bytes`).
pub open spec fn le_bytes(n: nat, width: nat) -> Seq<u8>
    decreases width,
{
    if width == 0 {
        Seq::empty()
    } else {
        seq![(n % 256) as u8] + le_bytes(n / 256, (width - 1) as nat)
    }
}

/// Appends the `width` low bytes of `n`, least significant first.
pub fn push_le_bytes(out: &mut Vec<u8>, n: u128, width: usize)
    ensures
        final(out)@ == old(out)@ + le_bytes(n as nat, width as nat),
{
    let mut rest = n;
    let mut k: usize = 0;
    while k < width
        invariant
            k <= width,
            old(out)@ + le_bytes(n as nat, width as nat)
                == out@ + le_bytes(rest as nat, (width - k) as nat),
        decreases width - k,
    {
        let ghost before = out@;
        let ghost r = rest;
        out.push((rest % 256) as u8);
        rest = rest / 256;
        k = k + 1;
        proof {
            assert(le_bytes(r as nat, (width - k + 1) as nat)
                == seq![(r % 256) as u8] + le_bytes(rest as nat, (width - k) as nat));
            assert(out@ + le_bytes(rest as nat, (width - k) as nat)
                =~= before + (seq![(r % 256) as u8] + le_bytes(rest as nat, (width - k) as nat)));
        }
    }
}

/// What a planned package contributes: the digest of its archive, or for a
/// directory each non-hidden file by its relative path, with that file's digest,
/// in path order.
#[derive(Debug)]
pub enum PackageContent {
    Archive(Vec<u8>),
    Directory(Vec<(String, Vec<u8>)>),
}

/// A planned mod as the fingerprint reads it: its capabilities, its manifest as
/// serialized, and its package content.
#[derive(Debug)]
pub struct FingerprintItem {
    pub capabilities: Vec<Capability>,
    pub manifest_json: Vec<u8>,
    pub content: PackageContent,
}

/// Whether a mod with these capabilities takes part in the startup asset pass.
pub open spec fn prepares(capabilities: Seq<Capability>) -> bool {
    capabilities.contains(Capability::AssetsWrite) || capabilities.contains(Capability::Export)
}

/// The bytes of the files of a directory package: each path's UTF-8 bytes, then
/// the file's digest.
pub open spec fn files_input(files: Seq<(String, Vec<u8>)>) -> Seq<u8>
    decreases files.len(),
{
    if files.len() == 0 {
        Seq::empty()
    } else {
        files_input(files.drop_last()) + encode_utf8(files.last().0@) + files.last().1@
    }
}

pub open spec fn content_input(content: PackageContent) -> Seq<u8> {
    match content {
        PackageContent::Archive(digest) => digest@,
        PackageContent::Directory(files) => files_input(files@),
    }
}

/// What one planned mod adds to the fingerprint: nothing unless it prepares assets.
pub open spec fn item_input(item: FingerprintItem) -> Seq<u8> {
    if prepares(item.capabilities@) {
        item.manifest_json@ + content_input(item.content)
    } else {
        Seq::empty()
    }
}

pub open spec fn items_input(items: Seq<FingerprintItem>) -> Seq<u8>
    decreases items.len(),
{
    if items.len() == 0 {
        Seq::empty()
    } else {
        items_input(items.drop_last()) + item_input(items.last())
    }
}

/// The target's name as hashed.
pub open spec fn target_bytes(server: bool) -> Seq<u8> {
    if server { seq![115u8, 101, 114, 118, 101, 114] } else { seq![99u8, 108, 105, 101, 110, 116] }
}

/// Every byte that the fingerprint digests, in order: `server` or `client`, the
/// executable's size (8 bytes) and modification time in nanoseconds (16 bytes),
/// both little-endian, then each planned mod's contribution.
pub open spec fn fingerprint_input_spec(server: bool, executable_size: u64, modified_nanos: u128, items: Seq<FingerprintItem>) -> Seq<u8> {
    target_bytes(server) + le_bytes(executable_size as nat, 8) + le_bytes(modified_nanos as nat, 16) + items_input(items)
}

fn capabilities_prepare(capabilities: &Vec<Capability>) -> (r: bool)
    ensures
        r == prepares(capabilities@),
{
    for i in 0..capabilities.len()
        invariant
            forall|j: int| 0 <= j < i ==> capabilities@[j] != Capability::AssetsWrite && capabilities@[j] != Capability::Export,
    {
        if capabilities[i] == Capability::AssetsWrite || capabilities[i] == Capability::Export {
            assert(capabilities@[i as int] == Capability::AssetsWrite || capabilities@[i as int] == Capability::Export);
            return true;
        }
    }
    false
}

fn extend_bytes(out: &mut Vec<u8>, bytes: &[u8])
    ensures
        final(out)@ == old(out)@ + bytes@,
{
    for i in 0..bytes.len()
        invariant
            out@ == old(out)@ + bytes@.take(i as int),
    {
        out.push(bytes[i]);
        assert(bytes@.take(i + 1) == bytes@.take(i as int).push(bytes@[i as int]));
        assert(out@ =~= old(out)@ + bytes@.take(i + 1));
    }
    assert(bytes@.take(bytes@.len() as int) =~= bytes@);
}

/// The bytes that the fingerprint digests.
pub fn fingerprint_input(server: bool, executable_size: u64, modified_nanos: u128, items: &Vec<FingerprintItem>) -> (r: Vec<u8>)
    ensures
        r@ == fingerprint_input_spec(server, executable_size, modified_nanos, items@),
{
    let mut out: Vec<u8> = Vec::new();
    let target: Vec<u8> = if server { vec![115u8, 101, 114, 118, 101, 114] } else { vec![99u8, 108, 105, 101, 110, 116] };
    extend_bytes(&mut out, target.as_slice());
    assert(out@ =~= target_bytes(server));
    push_le_bytes(&mut out, executable_size as u128, 8);
    push_le_bytes(&mut out, modified_nanos, 16);
    let ghost header = out@;
    for i in 0..items.len()
        invariant
            out@ == header + items_input(items@.take(i as int)),
    {
        let item = &items[i];
        let ghost mid = out@;
        if capabilities_prepare(&item.capabilities) {
            extend_bytes(&mut out, item.manifest_json.as_slice());
            match &item.content {
                PackageContent::Archive(digest) => {
                    extend_bytes(&mut out, digest.as_slice());
                },
                PackageContent::Directory(files) => {
                    let ghost start = out@;
                    for j in 0..files.len()
                        invariant
                            out@ == start + files_input(files@.take(j as int)),
                    {
                        let ghost before = out@;
                        extend_bytes(&mut out, files[j].0.as_str().as_bytes());
                        extend_bytes(&mut out, files[j].1.as_slice());
                        assert(files@.take(j + 1).drop_last() =~= files@.take(j as int));
                        assert(out@ =~= start + files_input(files@.take(j + 1)));
                    }
                    assert(files@.take(files@.len() as int) =~= files@);
                },
            }
            assert(out@ =~= mid + item_input(items@[i as int]));
        } else {
            assert(item_input(items@[i as int]) =~= Seq::<u8>::empty());
        }
        assert(items@.take(i + 1).drop_last() =~= items@.take(i as int));
        assert(out@ =~= header + items_input(items@.take(i + 1)));
    }
    assert(items@.take(items@.len() as int) =~= items@);
    out
}

/// The fingerprint of the asset configuration: the lowercase hexadecimal SHA-256
/// digest of [`fingerprint_input`].
pub fn fingerprint(server: bool, executable_size: u64, modified_nanos: u128, items: &Vec<FingerprintItem>) -> (r: String)
    ensures
        r@ == revision_spec(fingerprint_input_spec(server, executable_size, modified_nanos, items@)),
{
    let input = fingerprint_input(server, executable_size, modified_nanos, items);
    revision(input.as_slice())
}

/// Whether the record of the last asset pass confirms this fingerprint: it says
/// `applied` and holds the same fingerprint.
pub fn matches(status: Option<&str>, recorded: Option<&str>, fingerprint: &str) -> (r: bool)
    ensures
        r == (status.is_some() && status.unwrap()@ == "applied"@
            && recorded.is_some() && recorded.unwrap()@ == fingerprint@),
{
    match (status, recorded) {
        (Some(s), Some(f)) => str_equal(s, "applied") && str_equal(f, fingerprint),
        _ => false,
    }
}

} // verus!
