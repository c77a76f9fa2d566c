//! Installing mods from the ShroudEdit catalog: which provider may be used, which
//! file of a resolved version is downloaded, and how the package is verified
//! before it is unpacked.
use vstd::prelude::*;
use sha2::{Digest, Sha512};
use crate::text::{str_equal, str_starts_with, starts_with, chars_of, string_of, concat3, decimal, decimal_spec};
use crate::ui::{trim_spec, trim_end_spec, trim_end_chars, trim_start_chars};
use crate::notices::{first_items, take_chars};
use crate::config::{hex, hex_spec, revision, sha256};
use crate::ui::ProviderConfig;
use crate::updater::{lower_spec, to_lowercase};
use crate::loader::{eq_ignore_case, equal_ignoring_case};

verus! {

/// At most this many bytes may a mod package have (512 MiB).
pub const MAX_MOD_BYTES: u64 = 536870912;

/// Catalog installs need the enabled ShroudEdit provider.
pub fn catalog_access(provider: &ProviderConfig) -> (r: Result<(), String>)
    ensures
        r is Ok <==> provider.enabled && provider.kind@ == "shroudedit"@,
        r matches Err(m) ==> m@ == "ShroudEdit access is disabled"@,
{
    if !provider.enabled || !str_equal(provider.kind.as_str(), "shroudedit") {
        return Err(String::from_str("ShroudEdit access is disabled"));
    }
    Ok(())
}

/// A file of a catalog version.
#[derive(Debug)]
pub struct VersionFile {
    pub filename: String,
    pub url: String,
    pub size: u64,
    pub primary: bool,
    /// Checksums by algorithm name (`sha512`, `sha256`, ...), names distinct.
    pub hashes: Vec<(String, String)>,
}

/// The metadata of a catalog version.
#[derive(Debug)]
pub struct ApiVersion {
    pub id: String,
    pub project_id: String,
    pub files: Vec<VersionFile>,
}

/// The first primary file, or else the first file.
pub open spec fn chosen_file(files: Seq<VersionFile>) -> Option<int> {
    if exists|i: int| 0 <= i < files.len() && #[trigger] files[i].primary {
        Some(choose|i: int| 0 <= i < files.len() && #[trigger] files[i].primary && forall|j: int| 0 <= j < i ==> !files[j].primary)
    } else if files.len() > 0 {
        Some(0)
    } else {
        None
    }
}

/// A package file the installer accepts: a ZIP by name, served over HTTPS, within
/// the size limit.
pub open spec fn acceptable_package(file: VersionFile) -> bool {
    ends_with(lower_spec(file.filename@), ".zip"@) && starts_with(file.url@, "https://"@) && file.size <= MAX_MOD_BYTES
}

pub open spec fn ends_with(s: Seq<char>, suffix: Seq<char>) -> bool {
    suffix.len() <= s.len() && s.skip(s.len() - suffix.len()) == suffix
}

fn ends_with_exec(s: &str, suffix: &str) -> (r: bool)
    ensures
        r == ends_with(s@, suffix@),
{
    let a = chars_of(s);
    let b = chars_of(suffix);
    if b.len() > a.len() {
        return false;
    }
    let offset = a.len() - b.len();
    let r = crate::text::matches_at(&a, &b, offset);
    proof {
        assert(a@.subrange(offset as int, offset + b@.len()) =~= a@.skip(offset as int));
    }
    r
}

/// Chooses the package file of a resolved version after checking that the
/// metadata belongs to it.
pub fn select_package(version: &ApiVersion, project_id: &str, version_id: &str) -> (r: Result<usize, String>)
    ensures
        !(version.id@ == version_id@ && version.project_id@ == project_id@) ==> (r matches Err(m)
            && m@ == "Version metadata does not belong to the resolved project"@),
        version.id@ == version_id@ && version.project_id@ == project_id@ ==> match chosen_file(version.files@) {
            None => r matches Err(m) && m@ == "Version contains no mod package"@,
            Some(i) => if acceptable_package(version.files@[i]) {
                r == Ok::<usize, String>(i as usize)
            } else {
                r matches Err(m) && m@ == "Mod package is not a valid ZIP archive"@
            },
        },
{
    if !str_equal(version.id.as_str(), version_id) || !str_equal(version.project_id.as_str(), project_id) {
        return Err(String::from_str("Version metadata does not belong to the resolved project"));
    }
    let files = &version.files;
    let mut chosen: Option<usize> = None;
    for i in 0..files.len()
        invariant
            chosen is None ==> forall|j: int| 0 <= j < i ==> !files@[j].primary,
            chosen matches Some(c) ==> c < i && files@[c as int].primary && forall|j: int| 0 <= j < c ==> !files@[j].primary,
    {
        if chosen.is_none() && files[i].primary {
            chosen = Some(i);
        }
    }
    proof {
        if let Some(c) = chosen {
            let w = choose|i: int| 0 <= i < files@.len() && #[trigger] files@[i].primary && forall|j: int| 0 <= j < i ==> !files@[j].primary;
            assert(files@[c as int].primary);
            if w < c {
                assert(!files@[w].primary);
            }
            if c < w {
                assert(!files@[c as int].primary);
            }
        }
    }
    let index = match chosen {
        Some(c) => c,
        None => {
            if files.len() == 0 {
                return Err(String::from_str("Version contains no mod package"));
            }
            0
        },
    };
    let file = &files[index];
    let lowered = to_lowercase(file.filename.as_str());
    if !ends_with_exec(lowered.as_str(), ".zip") || !str_starts_with(file.url.as_str(), "https://") || file.size > MAX_MOD_BYTES {
        return Err(String::from_str("Mod package is not a valid ZIP archive"));
    }
    Ok(index)
}

/// The declared or downloaded size of a package is within the limit.
pub fn check_package_size(size: Option<u64>) -> (r: Result<(), String>)
    ensures
        r is Ok <==> !(size matches Some(s) && s > MAX_MOD_BYTES),
        r matches Err(m) ==> m@ == "Mod package exceeds 512 MiB"@,
{
    match size {
        Some(s) => if s > MAX_MOD_BYTES {
            Err(String::from_str("Mod package exceeds 512 MiB"))
        } else {
            Ok(())
        },
        None => Ok(()),
    }
}

/// The SHA-512 digest of some bytes.
pub uninterp spec fn sha512(bytes: Seq<u8>) -> Seq<u8>;

/// Digests `bytes` with `sha2::Sha512::digest`; the result is the 64-byte SHA-512
/// digest of exactly these bytes.
#[verifier::external_body]
fn sha512_digest(bytes: &[u8]) -> (r: Vec<u8>)
    ensures
        r@ == sha512(bytes@),
        r@.len() == 64,
{
    Sha512::digest(bytes).to_vec()
}

/// The checksum by which a package is verified: SHA-512 when listed, else SHA-256.
pub open spec fn expected_hash(hashes: Seq<(String, String)>) -> Option<(bool, Seq<char>)> {
    match hash_named(hashes, "sha512"@, 0) {
        Some(i) => Some((true, hashes[i].1@)),
        None => match hash_named(hashes, "sha256"@, 0) {
            Some(i) => Some((false, hashes[i].1@)),
            None => None,
        },
    }
}

/// The first checksum named `name` from position `k` on.
pub open spec fn hash_named(hashes: Seq<(String, String)>, name: Seq<char>, k: int) -> Option<int>
    decreases hashes.len() - k,
{
    if k < 0 || k >= hashes.len() {
        None
    } else if hashes[k].0@ == name {
        Some(k)
    } else {
        hash_named(hashes, name, k + 1)
    }
}

fn find_hash(hashes: &Vec<(String, String)>, name: &str) -> (r: Option<usize>)
    ensures
        match r {
            Some(i) => hash_named(hashes@, name@, 0) == Some(i as int) && i < hashes@.len(),
            None => hash_named(hashes@, name@, 0) is None,
        },
{
    for k in 0..hashes.len()
        invariant
            hash_named(hashes@, name@, 0) == hash_named(hashes@, name@, k as int),
    {
        if str_equal(hashes[k].0.as_str(), name) {
            return Some(k);
        }
    }
    None
}

/// Verifies a downloaded package against its listed checksum, compared without
/// regard to case.
pub fn verify_mod_hash(bytes: &[u8], hashes: &Vec<(String, String)>) -> (r: Result<(), String>)
    ensures
        match expected_hash(hashes@) {
            None => r matches Err(m) && m@ == "Mod package has no SHA-512 or SHA-256 checksum"@,
            Some((strong, expected)) => {
                let actual = if strong { hex_spec(sha512(bytes@)) } else { hex_spec(sha256(bytes@)) };
                &&& r is Ok <==> eq_ignore_case(actual, expected)
                &&& r matches Err(m) ==> m@ == "Mod package checksum does not match"@
            },
        },
{
    let (strong, expected) = match find_hash(hashes, "sha512") {
        Some(i) => (true, hashes[i].1.as_str()),
        None => match find_hash(hashes, "sha256") {
            Some(i) => (false, hashes[i].1.as_str()),
            None => return Err(String::from_str("Mod package has no SHA-512 or SHA-256 checksum")),
        },
    };
    let actual = if strong { hex(&sha512_digest(bytes)) } else { revision(bytes) };
    if !equal_ignoring_case(actual.as_str(), expected) {
        return Err(String::from_str("Mod package checksum does not match"));
    }
    Ok(())
}

/// An unpacked package must be the mod that was verified and carry its Lua entry.
pub fn check_extracted(extracted_id: &str, manifest_id: &str, has_entrypoint: bool) -> (r: Result<(), String>)
    ensures
        r is Ok <==> extracted_id@ == manifest_id@ && has_entrypoint,
        r matches Err(m) ==> m@ == "extracted mod must have the same id and a src/mod.lua entrypoint"@,
{
    if !str_equal(extracted_id, manifest_id) || !has_entrypoint {
        return Err(String::from_str("extracted mod must have the same id and a src/mod.lua entrypoint"));
    }
    Ok(())
}

} // verus!

verus! {

/// At most this many characters of a search query are sent.
pub const QUERY_LIMIT: usize = 100;

/// The query that a catalog search sends: trimmed, and cut to the query limit.
pub fn search_query(query: &str) -> (r: String)
    ensures
        r@ == first_items(trim_spec(query@), QUERY_LIMIT as nat),
{
    let trimmed = string_of(&trim_end_chars(trim_start_chars(chars_of(query)), false));
    take_chars(trimmed.as_str(), QUERY_LIMIT)
}

/// Catalog searches need the ShroudEdit provider.
pub fn catalog_provider_check(kind: &str) -> (r: Result<(), String>)
    ensures
        r is Ok <==> kind@ == "shroudedit"@,
        r matches Err(m) ==> m@ == "unsupported catalog provider: "@ + kind@,
{
    if str_equal(kind, "shroudedit") {
        Ok(())
    } else {
        proof {
            reveal_strlit("");
        }
        Err(concat3("unsupported catalog provider: ", kind, ""))
    }
}

/// Where the catalog is searched: the base URL without trailing slashes.
pub fn search_url(base_url: &str) -> (r: String)
    ensures
        r@ == trim_end_spec(base_url@, true) + "/v3/search"@,
{
    let base = string_of(&trim_end_chars(chars_of(base_url), true));
    proof {
        reveal_strlit("");
    }
    concat3(base.as_str(), "/v3/search", "")
}

/// A catalog entry serves ShroudForge when it names no loaders or names
/// `shroudforge` among them, in any case of ASCII letters.
pub open spec fn serves_shroudforge(loaders: Seq<String>) -> bool {
    loaders.len() == 0 || exists|i: int| 0 <= i < loaders.len() && eq_ignore_case(#[trigger] loaders[i]@, "shroudforge"@)
}

/// Whether a catalog entry with these loaders serves ShroudForge.
pub fn accepts_loaders(loaders: &Vec<String>) -> (r: bool)
    ensures
        r == serves_shroudforge(loaders@),
{
    if loaders.len() == 0 {
        return true;
    }
    for i in 0..loaders.len()
        invariant
            forall|j: int| 0 <= j < i ==> !eq_ignore_case(#[trigger] loaders@[j]@, "shroudforge"@),
    {
        if equal_ignoring_case(loaders[i].as_str(), "shroudforge") {
            return true;
        }
    }
    false
}

/// What a search hit says, each field as found under the first of its names.
#[derive(Debug)]
pub struct CatalogFields {
    pub id: Option<String>,
    pub slug: Option<String>,
    pub name: Option<String>,
    pub summary: Option<String>,
    pub icon_url: Option<String>,
    pub author: Option<String>,
    pub downloads: Option<u64>,
    pub version: Option<String>,
}

/// A mod of the catalog as the Catalog view lists it.
#[derive(Debug)]
pub struct CatalogItem {
    pub id: String,
    pub slug: String,
    pub name: String,
    pub summary: String,
    pub icon_url: Option<String>,
    pub author: Option<String>,
    pub downloads: Option<u64>,
    pub version: Option<String>,
}

/// A text field, empty when it is missing.
pub open spec fn text_or_empty(s: Option<String>) -> Seq<char> {
    match s {
        Some(v) => v@,
        None => Seq::empty(),
    }
}

fn or_empty(s: Option<String>) -> (r: String)
    ensures
        r@ == text_or_empty(s),
{
    match s {
        Some(v) => v,
        None => String::new(),
    }
}

/// The listed item of a search hit: none for a hit that does not serve ShroudForge
/// or lacks an id or a name; a missing slug is the id.
pub fn catalog_item(fields: CatalogFields, loaders: &Vec<String>) -> (r: Option<CatalogItem>)
    ensures
        r is Some <==> serves_shroudforge(loaders@) && text_or_empty(fields.id).len() > 0
            && text_or_empty(fields.name).len() > 0,
        r matches Some(item) ==> {
            &&& item.id@ == text_or_empty(fields.id)
            &&& item.slug@ == if text_or_empty(fields.slug).len() == 0 {
                text_or_empty(fields.id)
            } else {
                text_or_empty(fields.slug)
            }
            &&& item.name@ == text_or_empty(fields.name)
            &&& item.summary@ == text_or_empty(fields.summary)
            &&& item.icon_url == fields.icon_url
            &&& item.author == fields.author
            &&& item.downloads == fields.downloads
            &&& item.version == fields.version
        },
{
    if !accepts_loaders(loaders) {
        return None;
    }
    let id = or_empty(fields.id);
    let name = or_empty(fields.name);
    if id.unicode_len() == 0 || name.unicode_len() == 0 {
        return None;
    }
    let slug = or_empty(fields.slug);
    let slug = if slug.unicode_len() == 0 { id.clone() } else { slug };
    Some(CatalogItem {
        id,
        slug,
        name,
        summary: or_empty(fields.summary),
        icon_url: fields.icon_url,
        author: fields.author,
        downloads: fields.downloads,
        version: fields.version,
    })
}

/// What the Catalog view shows after a search.
#[derive(Debug)]
pub struct SearchOutcome {
    /// `ready` or `error`.
    pub state: String,
    pub message: Option<String>,
    /// The activity detail of a search that completed.
    pub detail: Option<String>,
}

/// The Catalog view when searches are disabled.
pub fn search_disabled() -> (r: SearchOutcome)
    ensures
        r.state@ == "error"@,
        r.message matches Some(m) && m@ == "ShroudEdit access is disabled."@,
        r.detail is None,
{
    SearchOutcome {
        state: String::from_str("error"),
        message: Some(String::from_str("ShroudEdit access is disabled.")),
        detail: None,
    }
}

/// The Catalog view after a search that found `found` items, or failed.
pub fn search_outcome(found: Result<u64, String>) -> (r: SearchOutcome)
    ensures
        match found {
            Ok(n) => {
                &&& r.state@ == "ready"@
                &&& n == 0 ==> (r.message matches Some(m) && m@ == "No matching ShroudForge mods found."@)
                &&& n > 0 ==> r.message is None
                &&& r.detail matches Some(d) && d@ == "Catalog search completed: "@ + decimal_spec(n as nat) + " result(s)."@
            },
            Err(e) => r.state@ == "error"@ && r.message == Some(e) && r.detail is None,
        },
{
    match found {
        Ok(n) => {
            let count = decimal(n);
            SearchOutcome {
                state: String::from_str("ready"),
                message: if n == 0 { Some(String::from_str("No matching ShroudForge mods found.")) } else { None },
                detail: Some(concat3("Catalog search completed: ", count.as_str(), " result(s).")),
            }
        },
        Err(e) => SearchOutcome { state: String::from_str("error"), message: Some(e), detail: None },
    }
}

} // verus!
