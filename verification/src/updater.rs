//! The independent system updater: which release files it may touch, how a staged
//! download is checked, and the names it registers. The scheduled-task plumbing
//! exists only on Windows; elsewhere every request is refused with that reason.
use vstd::prelude::*;
use vstd::string::StringSliceAdditionalSpecFns;
use crate::text::{str_equal, str_starts_with, starts_with, chars_of, string_of, concat3, strictly_sorted, lists_path,
    sorted_distinct};
use crate::config::{hex_digit, hex_spec, hex};
use crate::ident::{is_hex_digit};

verus! {

pub open spec fn windows_only() -> Seq<char> {
    "scheduled updater is available on Windows only"@
}

/// Starts the scheduled updater worker; refused on this platform.
pub fn request_worker(root: &str) -> (r: Result<(), String>)
    ensures
        r matches Err(m) && m@ == windows_only(),
{
    Err(String::from_str("scheduled updater is available on Windows only"))
}

/// Opens the independent update window; refused on this platform.
pub fn request_update_window(root: &str) -> (r: Result<(), String>)
    ensures
        r matches Err(m) && m@ == windows_only(),
{
    Err(String::from_str("scheduled updater is available on Windows only"))
}

/// Queues installation of the staged update after the game process `pid` exits;
/// refused on this platform.
pub fn request_install_after_game(root: &str, pid: u32) -> (r: Result<(), String>)
    ensures
        r matches Err(m) && m@ == windows_only(),
{
    Err(String::from_str("scheduled updater is available on Windows only"))
}

/// The updater's command-line entry; refused on this platform.
pub fn run_module() -> (r: Result<(), String>)
    ensures
        r matches Err(m) && m@ == "ShroudForge updater is available on Windows only"@,
{
    Err(String::from_str("ShroudForge updater is available on Windows only"))
}

/// The installation files a release may replace by name.
pub open spec fn named_release_file(p: Seq<char>) -> bool {
    p == "winmm.dll"@ || p == "kfc-runtime.dll"@ || p == "shroudforge-runtime.dll"@
        || p == "shroudforge.exe"@ || p == "shroudforge-updater.exe"@ || p == "shroudforge/version.json"@
}

/// The user's own configuration files, which a release never replaces.
pub open spec fn protected_file(p: Seq<char>) -> bool {
    p == "shroudforge/config/shroudforge.json"@ || p == "shroudforge/config/state.json"@
        || p == "shroudforge/config/.shroudforge-write.lock"@
}

/// The path has a `..` segment.
pub open spec fn has_parent_segment(p: Seq<char>) -> bool {
    exists|i: int| 0 <= i && i + 2 <= p.len() && #[trigger] p[i] == '.' && p[i + 1] == '.'
        && (i == 0 || p[i - 1] == '/') && (i + 2 == p.len() || p[i + 2] == '/')
}

/// Every component of the relative path is a plain name: it does not start at the
/// root, does not start with a `.` segment, and has no `..` segment (interior `.`
/// segments and repeated separators vanish when a path is split into components).
pub open spec fn plain_components(p: Seq<char>) -> bool {
    &&& !(p.len() > 0 && p[0] == '/')
    &&& !(p == seq!['.'] || (p.len() >= 2 && p[0] == '.' && p[1] == '/'))
    &&& !has_parent_segment(p)
}

/// A managed path that a release may install.
pub open spec fn safe_managed_path(p: Seq<char>) -> bool {
    &&& named_release_file(p) || starts_with(p, "mods/"@)
    &&& p.len() > 0
    &&& !p.contains('\\')
    &&& !p.contains(':')
    &&& plain_components(p)
    &&& !protected_file(p)
}

fn contains_char(cs: &Vec<char>, c: char) -> (r: bool)
    ensures
        r == cs@.contains(c),
{
    for i in 0..cs.len()
        invariant
            forall|j: int| 0 <= j < i ==> cs@[j] != c,
    {
        if cs[i] == c {
            assert(cs@[i as int] == c);
            return true;
        }
    }
    false
}

fn parent_segment(cs: &Vec<char>) -> (r: bool)
    ensures
        r == has_parent_segment(cs@),
{
    let n = cs.len();
    if n < 2 {
        return false;
    }
    let mut i: usize = 0;
    while i <= n - 2
        invariant
            n == cs@.len(),
            n >= 2,
            forall|j: int| 0 <= j < i && j + 2 <= n ==> !(#[trigger] cs@[j] == '.' && cs@[j + 1] == '.'
                && (j == 0 || cs@[j - 1] == '/') && (j + 2 == n || cs@[j + 2] == '/')),
        decreases n - i,
    {
        if cs[i] == '.' && cs[i + 1] == '.' && (i == 0 || cs[i - 1] == '/') && (i + 2 == n || cs[i + 2] == '/') {
            return true;
        }
        i = i + 1;
    }
    false
}

/// Checks one entry of a release's managed paths.
pub fn check_managed_path(relative: &str) -> (r: Result<(), String>)
    ensures
        r is Ok <==> safe_managed_path(relative@),
        r matches Err(m) ==> m@ == "unsafe managed path: "@ + relative@,
{
    let cs = chars_of(relative);
    let named = str_equal(relative, "winmm.dll") || str_equal(relative, "kfc-runtime.dll")
        || str_equal(relative, "shroudforge-runtime.dll") || str_equal(relative, "shroudforge.exe")
        || str_equal(relative, "shroudforge-updater.exe") || str_equal(relative, "shroudforge/version.json");
    let allowed = named || str_starts_with(relative, "mods/");
    let rooted = cs.len() > 0 && cs[0] == '/';
    let leading_dot = (cs.len() == 1 && cs[0] == '.') || (cs.len() >= 2 && cs[0] == '.' && cs[1] == '/');
    proof {
        if cs@ == seq!['.'] {
            assert(cs@[0] == '.');
        }
        if cs.len() == 1 && cs[0] == '.' {
            assert(cs@ =~= seq!['.']);
        }
    }
    let plain = !rooted && !leading_dot && !parent_segment(&cs);
    let protected = str_equal(relative, "shroudforge/config/shroudforge.json")
        || str_equal(relative, "shroudforge/config/state.json")
        || str_equal(relative, "shroudforge/config/.shroudforge-write.lock");
    if !allowed || cs.len() == 0 || contains_char(&cs, '\\') || contains_char(&cs, ':') || !plain || protected {
        proof { reveal_strlit(""); }
        return Err(concat3("unsafe managed path: ", relative, ""));
    }
    Ok(())
}

/// Sorts the managed paths and drops repeated entries; a release must manage its
/// version file.
pub fn finish_managed_paths(paths: &Vec<String>) -> (r: Result<Vec<String>, String>)
    ensures
        r is Ok <==> lists_path(paths@, "shroudforge/version.json"@),
        r matches Err(m) ==> m@ == "release must manage shroudforge/version.json"@,
        r matches Ok(sorted) ==> strictly_sorted(sorted@)
            && forall|p: Seq<char>| #[trigger] lists_path(sorted@, p) <==> lists_path(paths@, p),
{
    let sorted = sorted_distinct(paths);
    let mut found = false;
    for i in 0..sorted.len()
        invariant
            found <==> exists|j: int| 0 <= j < i && #[trigger] sorted@[j]@ == "shroudforge/version.json"@,
    {
        if str_equal(sorted[i].as_str(), "shroudforge/version.json") {
            found = true;
        }
    }
    assert(found == lists_path(sorted@, "shroudforge/version.json"@));
    assert(lists_path(sorted@, "shroudforge/version.json"@) == lists_path(paths@, "shroudforge/version.json"@));
    if !found {
        return Err(String::from_str("release must manage shroudforge/version.json"));
    }
    Ok(sorted)
}

/// ASCII letters in lower case; every other character unchanged.
pub open spec fn lower(c: char) -> char {
    if 'A' <= c <= 'Z' { ((c as u32) + 32) as char } else { c }
}

pub open spec fn lower_spec(s: Seq<char>) -> Seq<char> {
    s.map_values(|c: char| lower(c))
}

/// `s` with ASCII letters in lower case (`to_ascii_lowercase`).
pub fn to_lowercase(s: &str) -> (r: String)
    ensures
        r@ == lower_spec(s@),
{
    let cs = chars_of(s);
    let mut v: Vec<char> = Vec::new();
    for i in 0..cs.len()
        invariant
            cs@ == s@,
            v@ == lower_spec(cs@.take(i as int)),
    {
        let c = cs[i];
        let l = if 'A' <= c && c <= 'Z' { (((c as u32) + 32) as u8) as char } else { c };
        v.push(l);
        assert(v@ =~= lower_spec(cs@.take(i + 1)));
    }
    assert(cs@.take(cs@.len() as int) =~= cs@);
    string_of(&v)
}

/// A download request names an HTTPS URL and a SHA-256 checksum of 64 hex digits
/// (in any case); yields the checksum in lower case.
pub fn stage_request_check(url: &str, checksum: &str) -> (r: Result<String, String>)
    ensures
        r is Ok <==> starts_with(url@, "https://"@) && lower_spec(checksum@).len() == 64
            && forall|i: int| 0 <= i < checksum@.len() ==> is_hex_digit(#[trigger] lower_spec(checksum@)[i]),
        r matches Ok(c) ==> c@ == lower_spec(checksum@),
        r matches Err(m) ==> m@ == "stage request URL or SHA-256 checksum is invalid"@,
{
    let lowered = to_lowercase(checksum);
    let cs = chars_of(lowered.as_str());
    let mut hex_only = true;
    for i in 0..cs.len()
        invariant
            cs@ == lower_spec(checksum@),
            hex_only <==> forall|j: int| 0 <= j < i ==> is_hex_digit(#[trigger] cs@[j]),
    {
        let c = cs[i];
        if !(('0' <= c && c <= '9') || ('A' <= c && c <= 'F') || ('a' <= c && c <= 'f')) {
            hex_only = false;
        }
    }
    if !str_starts_with(url, "https://") || cs.len() != 64 || !hex_only {
        return Err(String::from_str("stage request URL or SHA-256 checksum is invalid"));
    }
    Ok(lowered)
}

/// The downloaded package has the checksum of the request.
pub fn checksum_matches(digest: &Vec<u8>, checksum: &str) -> (r: bool)
    ensures
        r == (hex_spec(digest@) == checksum@),
{
    let text = hex(digest);
    str_equal(text.as_str(), checksum)
}

/// The FNV-1a hash (64 bits) of some bytes.
pub open spec fn fnv1a(bytes: Seq<u8>) -> u64
    decreases bytes.len(),
{
    if bytes.len() == 0 {
        0xcbf29ce484222325u64
    } else {
        vstd::wrapping::u64_specs::wrapping_mul(fnv1a(bytes.drop_last()) ^ (bytes.last() as u64), 0x100000001b3u64)
    }
}

/// `h` as `n` lowercase hexadecimal digits, zero-padded (`{:0nx}` when it fits).
pub open spec fn hex_digits(h: nat, n: nat) -> Seq<char>
    decreases n,
{
    if n == 0 {
        Seq::empty()
    } else {
        hex_digits(h / 16, (n - 1) as nat).push(hex_digit(h % 16))
    }
}

fn push_hex(v: &mut Vec<char>, h: u64, n: usize)
    ensures
        final(v)@ == old(v)@ + hex_digits(h as nat, n as nat),
    decreases n,
{
    if n > 0 {
        push_hex(v, h / 16, n - 1);
        let d = (h % 16) as u8;
        let c = if d < 10 { (d + 48) as char } else { (d + 87) as char };
        v.push(c);
    }
    assert(v@ =~= old(v)@ + hex_digits(h as nat, n as nat));
}

/// The name of the scheduled updater task for an installation whose canonical
/// path is `canonical`: the FNV-1a hash of the lowercased path's UTF-8 bytes.
pub open spec fn task_id_spec(canonical: Seq<char>) -> Seq<char> {
    "ShroudForgeUpdater_"@ + hex_digits(fnv1a(vstd::utf8::encode_utf8(lower_spec(canonical))) as nat, 16)
}

/// Names the scheduled updater task of an installation.
pub fn task_id(canonical: &str) -> (r: String)
    ensures
        r@ == task_id_spec(canonical@),
{
    let lowered = to_lowercase(canonical);
    let bytes = lowered.as_str().as_bytes();
    let mut hash: u64 = 0xcbf29ce484222325;
    let mut i: usize = 0;
    while i < bytes.len()
        invariant
            i <= bytes@.len(),
            hash == fnv1a(bytes@.take(i as int)),
        decreases bytes.len() - i,
    {
        proof {
            assert(bytes@.take(i + 1).drop_last() =~= bytes@.take(i as int));
        }
        hash = (hash ^ (bytes[i] as u64)).wrapping_mul(0x100000001b3);
        i = i + 1;
    }
    assert(bytes@.take(bytes@.len() as int) =~= bytes@);
    let mut v: Vec<char> = Vec::new();
    crate::text::extend_chars(&mut v, "ShroudForgeUpdater_");
    push_hex(&mut v, hash, 16);
    assert(v@ =~= task_id_spec(canonical@));
    string_of(&v)
}

/// The task that opens the update window: the updater task's name with `_Window`.
pub fn update_window_task_id(canonical: &str) -> (r: String)
    ensures
        r@ == task_id_spec(canonical@) + "_Window"@,
{
    let id = task_id(canonical);
    let r = concat3(id.as_str(), "_Window", "");
    proof { reveal_strlit(""); assert(r@ =~= task_id_spec(canonical@) + "_Window"@); }
    r
}

/// The progress fields of an updater status: a new request (`queued`) starts
/// from nothing, any other status keeps the previous download progress.
#[derive(Debug)]
pub struct StatusProgress {
    pub version: Option<String>,
    pub downloaded_bytes: u64,
    pub total_bytes: Option<u64>,
    pub bytes_per_second: Option<u64>,
}

pub fn status_progress(
    status: &str,
    version: Option<String>,
    previous_version: Option<String>,
    previous_downloaded: Option<u64>,
    previous_total: Option<u64>,
    previous_speed: Option<u64>,
) -> (r: StatusProgress)
    ensures
        r.version == match version { Some(v) => Some(v), None => previous_version },
        status@ == "queued"@ ==> r.downloaded_bytes == 0 && r.total_bytes is None && r.bytes_per_second is None,
        status@ != "queued"@ ==> r.downloaded_bytes == (match previous_downloaded { Some(d) => d, None => 0 })
            && r.total_bytes == previous_total && r.bytes_per_second == previous_speed,
{
    let keep = !str_equal(status, "queued");
    let version = match version {
        Some(v) => Some(v),
        None => previous_version,
    };
    if keep {
        StatusProgress {
            version,
            downloaded_bytes: match previous_downloaded { Some(d) => d, None => 0 },
            total_bytes: previous_total,
            bytes_per_second: previous_speed,
        }
    } else {
        StatusProgress { version, downloaded_bytes: 0, total_bytes: None, bytes_per_second: None }
    }
}

/// A catalog install request while another is queued: allowed only for the same
/// project.
pub fn mod_install_conflict(queued_project: Option<&str>, project_id: &str) -> (r: Option<String>)
    ensures
        r is None <==> (queued_project matches Some(q) && q@ == project_id@),
        r matches Some(m) ==> m@ == "another catalog install is already queued or running"@,
{
    match queued_project {
        Some(q) => if str_equal(q, project_id) {
            None
        } else {
            Some(String::from_str("another catalog install is already queued or running"))
        },
        None => Some(String::from_str("another catalog install is already queued or running")),
    }
}

/// A system update request while another is queued: allowed only for the same
/// version.
pub fn system_stage_conflict(queued_version: Option<&str>, version: Option<&str>) -> (r: Option<String>)
    ensures
        r is None <==> match (queued_version, version) {
            (Some(q), Some(v)) => q@ == v@,
            (None, None) => true,
            _ => false,
        },
        r matches Some(m) ==> m@ == "another system update download is already queued or running"@,
{
    let same = match (queued_version, version) {
        (Some(q), Some(v)) => str_equal(q, v),
        (None, None) => true,
        _ => false,
    };
    if same {
        None
    } else {
        Some(String::from_str("another system update download is already queued or running"))
    }
}

/// At most this many entries may an update archive hold.
pub const MAX_ARCHIVE_ENTRIES: usize = 4096;

/// At most this many bytes may an update download have (2 GiB).
pub const MAX_UPDATE_BYTES: u64 = 2147483648;

/// At most this many bytes may an update archive expand to (16 GiB).
pub const MAX_EXPANDED_BYTES: u64 = 17179869184;

/// The first archive entry at which the expanded size (summed, saturating) exceeds
/// the limit, or `None` when the archive stays within it.
pub open spec fn expanded_overflow(sizes: Seq<u64>, limit: u64) -> Option<int>
    decreases sizes.len(),
{
    if sizes.len() == 0 {
        None
    } else {
        match expanded_overflow(sizes.drop_last(), limit) {
            Some(i) => Some(i),
            None => if expanded_total(sizes) > limit { Some(sizes.len() - 1) } else { None },
        }
    }
}

/// The saturating sum of the sizes.
pub open spec fn expanded_total(sizes: Seq<u64>) -> u64
    decreases sizes.len(),
{
    if sizes.len() == 0 {
        0
    } else {
        crate::diagnostics::saturating(expanded_total(sizes.drop_last()), sizes.last())
    }
}

/// Checks an update archive's size limits: its entry count, then the running
/// expanded size entry by entry.
pub fn check_archive(sizes: &Vec<u64>) -> (r: Result<(), String>)
    ensures
        sizes@.len() > MAX_ARCHIVE_ENTRIES ==> (r matches Err(m) && m@ == "update archive contains too many entries"@),
        sizes@.len() <= MAX_ARCHIVE_ENTRIES ==> match expanded_overflow(sizes@, MAX_EXPANDED_BYTES) {
            Some(_) => r matches Err(m) && m@ == "expanded update archive exceeds 16 GiB"@,
            None => r is Ok,
        },
{
    if sizes.len() > MAX_ARCHIVE_ENTRIES {
        return Err(String::from_str("update archive contains too many entries"));
    }
    let limit: u64 = MAX_EXPANDED_BYTES;
    let mut expanded: u64 = 0;
    for i in 0..sizes.len()
        invariant
            limit == MAX_EXPANDED_BYTES,
            sizes@.len() <= MAX_ARCHIVE_ENTRIES,
            expanded == expanded_total(sizes@.take(i as int)),
            expanded_overflow(sizes@.take(i as int), limit) is None,
    {
        proof {
            assert(sizes@.take(i + 1).drop_last() =~= sizes@.take(i as int));
        }
        expanded = expanded.saturating_add(sizes[i]);
        if expanded > limit {
            proof {
                let t = sizes@.take(i + 1);
                assert(expanded_overflow(t, limit) is Some);
                lemma_overflow_extends(sizes@, i + 1, limit);
            }
            return Err(String::from_str("expanded update archive exceeds 16 GiB"));
        }
    }
    assert(sizes@.take(sizes@.len() as int) =~= sizes@);
    Ok(())
}

proof fn lemma_overflow_extends(sizes: Seq<u64>, k: int, limit: u64)
    requires
        0 <= k <= sizes.len(),
        expanded_overflow(sizes.take(k), limit) is Some,
    ensures
        expanded_overflow(sizes, limit) is Some,
    decreases sizes.len() - k,
{
    if k < sizes.len() {
        assert(sizes.take(k + 1).drop_last() =~= sizes.take(k));
        lemma_overflow_extends(sizes, k + 1, limit);
    } else {
        assert(sizes.take(k) =~= sizes);
    }
}


/// Whether the component list `prefix` begins the component list `path`
/// (`Path::starts_with`).
pub open spec fn components_start_with(path: Seq<String>, prefix: Seq<String>) -> bool {
    prefix.len() <= path.len() && forall|i: int| 0 <= i < prefix.len() ==> #[trigger] path[i]@ == prefix[i]@
}

/// Whether two component lists name the same path.
pub open spec fn same_components(a: Seq<String>, b: Seq<String>) -> bool {
    a.len() == b.len() && forall|i: int| 0 <= i < a.len() ==> #[trigger] a[i]@ == b[i]@
}

/// The staged release, given like the installation root as the components of its
/// canonical path, must lie inside the root's `shroudforge/updates` and must not
/// be the root itself.
pub fn check_roots(root: &Vec<String>, staged: &Vec<String>) -> (r: Result<(), String>)
    ensures
        r is Ok <==> staged@.len() >= root@.len() + 2
            && components_start_with(staged@, root@)
            && staged@[root@.len() as int]@ == "shroudforge"@
            && staged@[root@.len() as int + 1]@ == "updates"@,
        !components_start_with(staged@, root@) || staged@.len() < root@.len() + 2
            || staged@[root@.len() as int]@ != "shroudforge"@ || staged@[root@.len() as int + 1]@ != "updates"@
            ==> (r matches Err(m) && m@ == "staged update is outside shroudforge/updates"@),
{
    let n = root.len();
    let mut inside = staged.len() >= 2 && staged.len() - 2 >= n;
    if inside {
        let mut i: usize = 0;
        while i < n && str_equal(staged[i].as_str(), root[i].as_str())
            invariant
                i <= n,
                n == root@.len(),
                n + 2 <= staged@.len(),
                forall|j: int| 0 <= j < i ==> #[trigger] staged@[j]@ == root@[j]@,
            decreases n - i,
        {
            i = i + 1;
        }
        inside = i == n && str_equal(staged[n].as_str(), "shroudforge") && str_equal(staged[n + 1].as_str(), "updates");
        proof {
            if i < n {
                assert(staged@[i as int]@ != root@[i as int]@);
            }
        }
    }
    if !inside {
        return Err(String::from_str("staged update is outside shroudforge/updates"));
    }
    // Inside `root/shroudforge/updates`, the staged path is longer than the root and
    // so never equal to it.
    Ok(())
}

/// Whether installing `relative` merges manifests instead of copying: a mod's
/// `mod.json` that is already installed keeps the user's choices.
pub fn merges_manifest(relative: &str, installed: bool) -> (r: bool)
    ensures
        r == (installed && starts_with(relative@, "mods/"@)
            && relative@.len() >= 9 && relative@.subrange(relative@.len() - 9, relative@.len() as int) == "/mod.json"@),
{
    if !installed || !str_starts_with(relative, "mods/") {
        return false;
    }
    let cs = chars_of(relative);
    let suffix = chars_of("/mod.json");
    proof { reveal_strlit("/mod.json"); }
    if cs.len() < 9 {
        return false;
    }
    crate::text::matches_at(&cs, &suffix, cs.len() - 9)
}

/// An update never replaces the user's configuration or leaves the installation:
/// every path it may install is relative, stays inside the installation, and is
/// none of the user's configuration files.
pub proof fn updates_preserve_user_configuration(p: Seq<char>)
    requires
        safe_managed_path(p),
    ensures
        !protected_file(p),
        !has_parent_segment(p),
        !(p.len() > 0 && p[0] == '/'),
        !p.contains(':'),
{
}

} // verus!
