//! The loader's entry points: its errors, the package manifest it accepts, and the
//! decisions of the pregame asset pass.
use vstd::prelude::*;
use crate::manifest::{Capability, ModManifest};
use crate::environment::ModRegistry;
use crate::schema::GameFiles;
use crate::validation::{validate_manifest, manifest_problem};
use crate::versions::{requirement_matches, parse_requirement, version_parses,
    semver_requirement_matches, semver_requirement_parses, semver_requirement_display, semver_version_parses};
use crate::text::{str_equal, concat3, chars_of};
use crate::contract::is_whitespace;

verus! {

/// Why the loader could not do its work.
#[derive(Debug)]
pub enum LoaderError {
    Environment(String),
    Pregame(String),
    Runtime(String),
}

impl LoaderError {
    pub open spec fn message_spec(&self) -> Seq<char> {
        match self {
            LoaderError::Environment(m) => "loader environment error: "@ + m@,
            LoaderError::Pregame(m) => "pregame phase failed: "@ + m@,
            LoaderError::Runtime(m) => "runtime initialization failed: "@ + m@,
        }
    }

    /// The error as the loader reports it.
    pub fn message(&self) -> (r: String)
        ensures
            r@ == self.message_spec(),
    {
        proof { reveal_strlit(""); }
        let r = match self {
            LoaderError::Environment(m) => concat3("loader environment error: ", m.as_str(), ""),
            LoaderError::Pregame(m) => concat3("pregame phase failed: ", m.as_str(), ""),
            LoaderError::Runtime(m) => concat3("runtime initialization failed: ", m.as_str(), ""),
        };
        assert(r@ =~= self.message_spec());
        r
    }
}

/// What a load reports: the mods whose Lua lifecycle is active.
#[derive(Debug)]
pub struct LoadReport {
    pub lua: Vec<String>,
}

impl LoadReport {
    pub fn empty() -> (r: LoadReport)
        ensures
            r.lua@.len() == 0,
    {
        LoadReport { lua: Vec::new() }
    }
}

/// A package manifest as the loader reads it.
#[derive(Debug)]
pub struct PackageManifest {
    pub package: ModManifest,
    /// The required version of the API contract, as written.
    pub api: Option<String>,
    /// `client`, `server` or `both` (the default).
    pub target: String,
}

/// Only white space (or nothing).
pub open spec fn blank(s: Seq<char>) -> bool {
    forall|i: int| 0 <= i < s.len() ==> is_whitespace(#[trigger] s[i])
}

fn is_blank(s: &str) -> (r: bool)
    ensures
        r == blank(s@),
{
    let cs = chars_of(s);
    for i in 0..cs.len()
        invariant
            cs@ == s@,
            forall|j: int| 0 <= j < i ==> is_whitespace(#[trigger] cs@[j]),
    {
        let c = cs[i];
        let w = c == ' ' || c == '\t' || c == '\n' || c == '\r' || c == '\u{0b}' || c == '\u{0c}'
            || c == '\u{85}' || c == '\u{a0}' || c == '\u{1680}'
            || ('\u{2000}' <= c && c <= '\u{200a}')
            || c == '\u{2028}' || c == '\u{2029}' || c == '\u{202f}' || c == '\u{205f}' || c == '\u{3000}';
        if !w {
            return false;
        }
    }
    true
}

pub open spec fn valid_target(target: Seq<char>) -> bool {
    target == "client"@ || target == "server"@ || target == "both"@
}

/// The first problem of a package manifest, for a loader of version `version`.
pub open spec fn package_problem(manifest: PackageManifest, known_links: Seq<String>, version: Seq<char>) -> Option<Seq<char>> {
    match manifest_problem(manifest.package, known_links) {
        Some(m) => Some(m),
        None => if blank(manifest.package.name@) {
            Some("name must not be empty"@)
        } else if !valid_target(manifest.target@) {
            Some("target must be 'client', 'server' or 'both'"@)
        } else {
            match manifest.api {
                Some(required) => if semver_requirement_matches(required@, version) == Some(true) {
                    None
                } else {
                    Some("required ShroudForge API "@ + semver_requirement_display(required@) + " is unavailable"@)
                },
                None => None,
            }
        },
    }
}

impl PackageManifest {
    /// Every package runs its Lua from the same entry point.
    pub fn lua_entrypoint(&self) -> (r: &'static str)
        ensures
            r@ == "src/mod.lua"@,
    {
        "src/mod.lua"
    }
}

/// Validates a package manifest for a loader of version `version`: the package
/// contract, a non-blank name, a known target, and an API requirement that the
/// version meets.
pub fn validate(manifest: &PackageManifest, known_links: &Vec<String>, version: &str) -> (r: Result<(), String>)
    requires
        manifest.api matches Some(required) ==> semver_requirement_parses(required@),
        semver_version_parses(version@),
    ensures
        r is Ok <==> package_problem(*manifest, known_links@, version@) is None,
        r matches Err(m) ==> package_problem(*manifest, known_links@, version@) == Some(m@),
{
    let checked = validate_manifest(&manifest.package, known_links);
    if let Err(m) = checked {
        return Err(m);
    }
    if is_blank(manifest.package.name.as_str()) {
        return Err(String::from_str("name must not be empty"));
    }
    let t = manifest.target.as_str();
    if !str_equal(t, "client") && !str_equal(t, "server") && !str_equal(t, "both") {
        return Err(String::from_str("target must be 'client', 'server' or 'both'"));
    }
    match &manifest.api {
        Some(required) => {
            let met = requirement_matches(required.as_str(), version);
            if met == Some(true) {
                Ok(())
            } else {
                match parse_requirement(required.as_str()) {
                    Ok(text) => Err(concat3("required ShroudForge API ", text.as_str(), " is unavailable")),
                    Err(_) => Err(String::new()),
                }
            }
        },
        None => Ok(()),
    }
}

/// Validates a package manifest whose API requirement and loader version are
/// checked first: `None` when the requirement or the version does not parse.
pub fn validate_checked(manifest: &PackageManifest, known_links: &Vec<String>, version: &str) -> (r: Option<Result<(), String>>)
    ensures
        r is None <==> !semver_version_parses(version@)
            || (manifest.api matches Some(required) && !semver_requirement_parses(required@)),
        r matches Some(v) ==> (v is Ok <==> package_problem(*manifest, known_links@, version@) is None)
            && (v matches Err(m) ==> package_problem(*manifest, known_links@, version@) == Some(m@)),
{
    if !version_parses(version) {
        return None;
    }
    let parses = match &manifest.api {
        Some(required) => parse_requirement(required.as_str()).is_ok(),
        None => true,
    };
    if !parses {
        return None;
    }
    Some(validate(manifest, known_links, version))
}

/// The mod takes part in the asset pass: it writes assets or exports files.
pub open spec fn startup_mod(m: ModManifest) -> bool {
    m.capabilities@.contains(Capability::AssetsWrite) || m.capabilities@.contains(Capability::Export)
}

/// Some planned mod takes part in the asset pass.
pub open spec fn has_startup_mods_spec(mods: Seq<ModManifest>, plan: Seq<usize>) -> bool {
    exists|i: int| 0 <= i < plan.len() && #[trigger] startup_mod(mods[plan[i] as int])
}

fn is_startup_mod(m: &ModManifest) -> (r: bool)
    ensures
        r == startup_mod(*m),
{
    for i in 0..m.capabilities.len()
        invariant
            forall|j: int| 0 <= j < i ==> m.capabilities@[j] != Capability::AssetsWrite && m.capabilities@[j] != Capability::Export,
    {
        if m.capabilities[i] == Capability::AssetsWrite || m.capabilities[i] == Capability::Export {
            assert(m.capabilities@[i as int] == Capability::AssetsWrite || m.capabilities@[i as int] == Capability::Export);
            return true;
        }
    }
    false
}

/// Whether a planned mod writes assets or exports files.
pub fn has_startup_mods(registry: &ModRegistry, plan: &Vec<usize>) -> (r: bool)
    requires
        forall|i: int| 0 <= i < plan@.len() ==> #[trigger] plan@[i] < registry.view().len(),
    ensures
        r == has_startup_mods_spec(registry.view(), plan@),
{
    for i in 0..plan.len()
        invariant
            forall|i: int| 0 <= i < plan@.len() ==> #[trigger] plan@[i] < registry.view().len(),
            forall|j: int| 0 <= j < i ==> !#[trigger] startup_mod(registry.view()[plan@[j] as int]),
    {
        if is_startup_mod(registry.at(plan[i])) {
            return true;
        }
    }
    false
}

/// A previous asset pass left a record: applied, still preparing, or failed.
pub open spec fn previous_apply_spec(status: Option<Seq<char>>) -> bool {
    status == Some("applied"@) || status == Some("preparing"@) || status == Some("failed"@)
}

pub fn previous_apply(status: Option<&str>) -> (r: bool)
    ensures
        r == previous_apply_spec(match status { Some(s) => Some(s@), None => None }),
{
    match status {
        Some(s) => str_equal(s, "applied") || str_equal(s, "preparing") || str_equal(s, "failed"),
        None => false,
    }
}

/// Whether the prepared game data already holds the current asset configuration:
/// with no asset mods and no earlier pass nothing is to be done; otherwise the
/// recorded fingerprint must match (`fingerprint_matches`, which the caller computes
/// only when it is needed).
pub fn already_applied(startup_mods: bool, previous: bool, fingerprint_matches: bool) -> (r: bool)
    ensures
        r == ((!startup_mods && !previous) || fingerprint_matches),
{
    if !startup_mods && !previous {
        return true;
    }
    fingerprint_matches
}

/// The game build under `game_directory`: the client when its executable exists,
/// else the dedicated server.
pub fn target_name(game_directory: &str, client_exists: bool, server_exists: bool) -> (r: Result<&'static str, LoaderError>)
    ensures
        client_exists ==> (r matches Ok(n) && n@ == "enshrouded"@),
        !client_exists && server_exists ==> (r matches Ok(n) && n@ == "enshrouded_server"@),
        !client_exists && !server_exists ==> (r matches Err(LoaderError::Environment(m))
            && m@ == "no Enshrouded executable in "@ + game_directory@),
{
    if client_exists {
        Ok("enshrouded")
    } else if server_exists {
        Ok("enshrouded_server")
    } else {
        proof { reveal_strlit(""); }
        Err(LoaderError::Environment(concat3("no Enshrouded executable in ", game_directory, "")))
    }
}

/// ASCII case-insensitive equality (`eq_ignore_ascii_case`).
pub open spec fn eq_ignore_case(a: Seq<char>, b: Seq<char>) -> bool {
    a.len() == b.len() && forall|i: int| 0 <= i < a.len() ==> #[trigger] crate::logging::upper(a[i]) == crate::logging::upper(b[i])
}

fn upper_char(c: char) -> (r: char)
    ensures
        r == crate::logging::upper(c),
{
    if 'a' <= c && c <= 'z' { (((c as u32) - 32) as u8) as char } else { c }
}

/// Whether two texts are equal when ASCII letters are compared without case.
pub fn equal_ignoring_case(a: &str, b: &str) -> (r: bool)
    ensures
        r == eq_ignore_case(a@, b@),
{
    let x = chars_of(a);
    let y = chars_of(b);
    if x.len() != y.len() {
        return false;
    }
    for i in 0..x.len()
        invariant
            x@ == a@,
            y@ == b@,
            x@.len() == y@.len(),
            forall|j: int| 0 <= j < i ==> #[trigger] crate::logging::upper(x@[j]) == crate::logging::upper(y@[j]),
    {
        if upper_char(x[i]) != upper_char(y[i]) {
            return false;
        }
    }
    true
}

/// The game build of the running process: the server when the process's
/// executable is named `enshrouded_server.exe` (in any case), else as
/// [`target_name`] finds it.
pub fn process_target_name(executable_name: Option<&str>, game_directory: &str, client_exists: bool, server_exists: bool) -> (r: Result<&'static str, LoaderError>)
    ensures
        (executable_name matches Some(n) && eq_ignore_case(n@, "enshrouded_server.exe"@)) ==> (r matches Ok(t) && t@ == "enshrouded_server"@),
        !(executable_name matches Some(n) && eq_ignore_case(n@, "enshrouded_server.exe"@)) ==> {
            &&& client_exists ==> (r matches Ok(t) && t@ == "enshrouded"@)
            &&& !client_exists && server_exists ==> (r matches Ok(t) && t@ == "enshrouded_server"@)
            &&& !client_exists && !server_exists ==> (r matches Err(LoaderError::Environment(m))
                && m@ == "no Enshrouded executable in "@ + game_directory@)
        },
{
    if let Some(name) = executable_name {
        if equal_ignoring_case(name, "enshrouded_server.exe") {
            return Ok("enshrouded_server");
        }
    }
    target_name(game_directory, client_exists, server_exists)
}

/// The files that the parser reads for the build `file_name`.
pub fn files_for(game_directory: &str, file_name: &str) -> (r: GameFiles)
    ensures
        file_name@ == "enshrouded"@ ==> r.executable@ == crate::paths::join_spec(game_directory@, "enshrouded.exe"@)
            && r.kfc@ == crate::paths::join_spec(game_directory@, "enshrouded.kfc"@),
        file_name@ != "enshrouded"@ ==> r.executable@ == crate::paths::join_spec(game_directory@, "enshrouded_server.exe"@)
            && r.kfc@ == crate::paths::join_spec(game_directory@, "enshrouded_server.kfc"@),
{
    if str_equal(file_name, "enshrouded") {
        GameFiles::client(game_directory)
    } else {
        GameFiles::server(game_directory)
    }
}

/// The mods that an applied record lists: each planned mod of the asset pass, with
/// its version, in plan order.
pub open spec fn applied_mods_spec(mods: Seq<ModManifest>, plan: Seq<usize>) -> Seq<(Seq<char>, Seq<char>)>
    decreases plan.len(),
{
    if plan.len() == 0 {
        Seq::empty()
    } else {
        let rest = applied_mods_spec(mods, plan.drop_last());
        let m = mods[plan.last() as int];
        if startup_mod(m) { rest.push((m.id@, m.version@)) } else { rest }
    }
}

/// Lists the planned mods of the asset pass with their versions.
pub fn applied_mods(registry: &ModRegistry, plan: &Vec<usize>) -> (r: Vec<(String, String)>)
    requires
        forall|i: int| 0 <= i < plan@.len() ==> #[trigger] plan@[i] < registry.view().len(),
    ensures
        r@.len() == applied_mods_spec(registry.view(), plan@).len(),
        forall|k: int| 0 <= k < r@.len() ==> (#[trigger] r@[k].0@, r@[k].1@) == applied_mods_spec(registry.view(), plan@)[k],
{
    let mut r: Vec<(String, String)> = Vec::new();
    for i in 0..plan.len()
        invariant
            forall|i: int| 0 <= i < plan@.len() ==> #[trigger] plan@[i] < registry.view().len(),
            r@.len() == applied_mods_spec(registry.view(), plan@.take(i as int)).len(),
            forall|k: int| 0 <= k < r@.len() ==> (#[trigger] r@[k].0@, r@[k].1@) == applied_mods_spec(registry.view(), plan@.take(i as int))[k],
    {
        proof { assert(plan@.take(i + 1).drop_last() =~= plan@.take(i as int)); }
        let m = registry.at(plan[i]);
        if is_startup_mod(m) {
            r.push((m.id.clone(), m.version.clone()));
        }
    }
    assert(plan@.take(plan@.len() as int) =~= plan@);
    r
}


/// Whether a process of the game runs: a name that is `enshrouded.exe` or
/// `enshrouded_server.exe`, in any case.
pub open spec fn game_process(name: Seq<char>) -> bool {
    eq_ignore_case(name, "enshrouded.exe"@) || eq_ignore_case(name, "enshrouded_server.exe"@)
}

/// The asset pass may only run while the game is stopped: refused when one of the
/// running processes' executable names is the game's.
pub fn ensure_game_stopped(process_names: &Vec<String>) -> (r: Result<(), LoaderError>)
    ensures
        r is Ok <==> forall|i: int| 0 <= i < process_names@.len() ==> !game_process(#[trigger] process_names@[i]@),
        r matches Err(e) ==> (e matches LoaderError::Pregame(m)
            && m@ == "close Enshrouded before preparing asset mods; live runtime mods do not need prepare"@),
{
    for i in 0..process_names.len()
        invariant
            forall|j: int| 0 <= j < i ==> !game_process(#[trigger] process_names@[j]@),
    {
        let name = process_names[i].as_str();
        if equal_ignoring_case(name, "enshrouded.exe") || equal_ignoring_case(name, "enshrouded_server.exe") {
            assert(game_process(process_names@[i as int]@));
            return Err(LoaderError::Pregame(String::from_str(
                "close Enshrouded before preparing asset mods; live runtime mods do not need prepare")));
        }
    }
    Ok(())
}

/// One failed package of a discovery report: its path and the error.
pub open spec fn report_entry(entry: (String, String)) -> Seq<char> {
    entry.0@ + ": "@ + entry.1@
}

pub open spec fn report_spec(entries: Seq<(String, String)>) -> Seq<char>
    decreases entries.len(),
{
    if entries.len() == 0 {
        Seq::empty()
    } else if entries.len() == 1 {
        report_entry(entries[0])
    } else {
        report_spec(entries.drop_last()) + "; "@ + report_entry(entries.last())
    }
}

/// A discovery report as one line: its general error when it has one, else each
/// failed package as `path: error`, joined by `; `.
pub fn format_report(error: Option<&str>, mods: &Vec<(String, String)>) -> (r: String)
    ensures
        r@ == match error { Some(e) => e@, None => report_spec(mods@) },
{
    if let Some(e) = error {
        return e.to_string();
    }
    let mut out = String::new();
    for i in 0..mods.len()
        invariant
            out@ == report_spec(mods@.take(i as int)),
    {
        let entry = concat3(mods[i].0.as_str(), ": ", mods[i].1.as_str());
        proof { reveal_strlit(": "); reveal_strlit("; "); }
        if i == 0 {
            out = entry;
        } else {
            out = concat3(out.as_str(), "; ", entry.as_str());
        }
        assert(mods@.take(i + 1).drop_last() =~= mods@.take(i as int));
        assert(out@ =~= report_spec(mods@.take(i + 1)));
    }
    assert(mods@.take(mods@.len() as int) =~= mods@);
    out
}

} // verus!

verus! {

/// Where the asset pass stands, as its record says.
#[derive(Clone, Copy, PartialEq, Eq, Structural, Debug)]
pub enum ApplyStatus {
    Preparing,
    Applied,
    Failed,
}

impl ApplyStatus {
    /// The status as the record spells it.
    pub fn as_str(self) -> (r: &'static str)
        ensures
            self == ApplyStatus::Preparing ==> r@ == "preparing"@,
            self == ApplyStatus::Applied ==> r@ == "applied"@,
            self == ApplyStatus::Failed ==> r@ == "failed"@,
    {
        match self {
            ApplyStatus::Preparing => "preparing",
            ApplyStatus::Applied => "applied",
            ApplyStatus::Failed => "failed",
        }
    }
}

/// The record of the asset pass (the `applied` document).
#[derive(Debug)]
pub struct AppliedRecord {
    pub status: ApplyStatus,
    /// The phase that ran the pass, once it ended.
    pub phase: Option<String>,
    pub target: String,
    /// The fingerprint of the configuration it applied, once applied.
    pub fingerprint: Option<String>,
    /// Unix time at which it ended.
    pub completed_at: Option<u64>,
    pub error: Option<String>,
    /// The mods it applied, with their versions.
    pub mods: Vec<(String, String)>,
}

/// The record written before the asset pass touches the game data.
pub fn preparing_record(target: String) -> (r: AppliedRecord)
    ensures
        r.status == ApplyStatus::Preparing,
        r.target == target,
        r.phase is None && r.fingerprint is None && r.completed_at is None && r.error is None,
        r.mods@.len() == 0,
{
    AppliedRecord { status: ApplyStatus::Preparing, phase: None, target, fingerprint: None, completed_at: None, error: None, mods: Vec::new() }
}

/// The record written when the asset pass of `phase` ends at `now`: applied, with
/// the fingerprint and the mods, when it succeeded; failed, with the error, when it
/// did not.
pub fn finished_record(phase: String, target: String, fingerprint: String, now: u64, outcome: Result<Vec<(String, String)>, String>) -> (r: AppliedRecord)
    ensures
        r.phase == Some(phase),
        r.target == target,
        r.completed_at == Some(now),
        match outcome {
            Ok(mods) => r.status == ApplyStatus::Applied && r.fingerprint == Some(fingerprint) && r.error is None
                && r.mods == mods,
            Err(e) => r.status == ApplyStatus::Failed && r.fingerprint is None && r.error == Some(e)
                && r.mods@.len() == 0,
        },
{
    match outcome {
        Ok(mods) => AppliedRecord {
            status: ApplyStatus::Applied,
            phase: Some(phase),
            target,
            fingerprint: Some(fingerprint),
            completed_at: Some(now),
            error: None,
            mods,
        },
        Err(e) => AppliedRecord {
            status: ApplyStatus::Failed,
            phase: Some(phase),
            target,
            fingerprint: None,
            completed_at: Some(now),
            error: Some(e),
            mods: Vec::new(),
        },
    }
}

} // verus!
