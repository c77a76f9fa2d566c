//! The installation status that the modloader UI shows: one check per area, and
//! the state of each installed mod as the running game process reports it.
use vstd::prelude::*;
use crate::text::{str_equal, concat3, concat5};

verus! {

/// The running process's report is current: it says it is running and was
/// updated at most 5 seconds ago (and not in the future).
pub fn runtime_fresh(running: bool, updated_at: Option<u64>, now: u64) -> (r: bool)
    ensures
        r == (running && (updated_at matches Some(t) && t <= now && now - t <= 5)),
{
    running && match updated_at {
        Some(t) => t <= now && now - t <= 5,
        None => false,
    }
}

/// The outcome of one check.
#[derive(Clone, Copy, PartialEq, Eq, Structural, Debug)]
pub enum CheckState {
    Passed,
    Warning,
    Neutral,
}

impl CheckState {
    pub open spec fn name(self) -> Seq<char> {
        match self {
            CheckState::Passed => "ok"@,
            CheckState::Warning => "warning"@,
            CheckState::Neutral => "neutral"@,
        }
    }

    pub fn as_str(self) -> (r: &'static str)
        ensures
            r@ == self.name(),
    {
        match self {
            CheckState::Passed => "ok",
            CheckState::Warning => "warning",
            CheckState::Neutral => "neutral",
        }
    }
}

/// The API check: the API version that a fresh runtime report names (if any)
/// against the installed API version.
pub open spec fn api_check_spec(reported: Option<Seq<char>>, api: Seq<char>) -> (CheckState, Seq<char>) {
    match reported {
        Some(v) => if v == api {
            (CheckState::Passed, "The running ShroudForge runtime process reports Lua API "@ + v + "."@)
        } else {
            (CheckState::Warning, "Runtime reports API "@ + v + "; expected "@ + api + "."@)
        },
        None => (CheckState::Neutral, "No current API initialization report from the game process."@),
    }
}

pub fn api_check(reported: Option<&str>, api: &str) -> (r: (CheckState, String))
    ensures
        (r.0, r.1@) == api_check_spec(match reported { Some(v) => Some(v@), None => None }, api@),
{
    match reported {
        Some(v) => if str_equal(v, api) {
            (CheckState::Passed, concat3("The running ShroudForge runtime process reports Lua API ", v, "."))
        } else {
            (CheckState::Warning, concat5("Runtime reports API ", v, "; expected ", api, "."))
        },
        None => (CheckState::Neutral, String::from_str("No current API initialization report from the game process.")),
    }
}

/// The state of an installed mod.
#[derive(Clone, Copy, PartialEq, Eq, Structural, Debug)]
pub enum ModState {
    /// The running process reports an error for the mod; the detail is that error.
    Failed,
    RestartRequired,
    Active,
    NotRunning,
    Disabled,
    Unconfirmed,
}

impl ModState {
    pub open spec fn name(self) -> Seq<char> {
        match self {
            ModState::Failed => "failed"@,
            ModState::RestartRequired => "restart-required"@,
            ModState::Active => "active"@,
            ModState::NotRunning => "not-running"@,
            ModState::Disabled => "disabled"@,
            ModState::Unconfirmed => "unconfirmed"@,
        }
    }

    /// The fixed detail shown with a state other than `Failed`.
    pub open spec fn detail_spec(self) -> Seq<char> {
        match self {
            ModState::Failed => Seq::empty(),
            ModState::RestartRequired => "Configuration saved; the running process still uses the previous settings."@,
            ModState::Active => "Lua lifecycle is active in the target process and the applied settings match."@,
            ModState::NotRunning => "Activation is saved; the mod is not active in the running process."@,
            ModState::Disabled => "The mod is disabled."@,
            ModState::Unconfirmed => "Activation is saved; no current runtime report is available."@,
        }
    }

    pub fn as_str(self) -> (r: &'static str)
        ensures
            r@ == self.name(),
    {
        match self {
            ModState::Failed => "failed",
            ModState::RestartRequired => "restart-required",
            ModState::Active => "active",
            ModState::NotRunning => "not-running",
            ModState::Disabled => "disabled",
            ModState::Unconfirmed => "unconfirmed",
        }
    }

    pub fn detail(self) -> (r: &'static str)
        ensures
            r@ == self.detail_spec(),
    {
        proof { reveal_strlit(""); }
        match self {
            ModState::Failed => "",
            ModState::RestartRequired => "Configuration saved; the running process still uses the previous settings.",
            ModState::Active => "Lua lifecycle is active in the target process and the applied settings match.",
            ModState::NotRunning => "Activation is saved; the mod is not active in the running process.",
            ModState::Disabled => "The mod is disabled.",
            ModState::Unconfirmed => "Activation is saved; no current runtime report is available.",
        }
    }
}

/// The state of a mod: with a fresh runtime report, an error it names, a loaded
/// revision that differs from the saved manifest, or whether it is active; without
/// one, only whether it is enabled.
pub open spec fn mod_state_spec(fresh: bool, reported_error: bool, loaded_differs: bool, active: bool, enabled: bool) -> ModState {
    if fresh {
        if reported_error {
            ModState::Failed
        } else if loaded_differs {
            ModState::RestartRequired
        } else if active {
            ModState::Active
        } else if enabled {
            ModState::NotRunning
        } else {
            ModState::Disabled
        }
    } else if enabled {
        ModState::Unconfirmed
    } else {
        ModState::Disabled
    }
}

pub fn mod_state(fresh: bool, reported_error: bool, loaded_differs: bool, active: bool, enabled: bool) -> (r: ModState)
    ensures
        r == mod_state_spec(fresh, reported_error, loaded_differs, active, enabled),
{
    if fresh {
        if reported_error {
            ModState::Failed
        } else if loaded_differs {
            ModState::RestartRequired
        } else if active {
            ModState::Active
        } else if enabled {
            ModState::NotRunning
        } else {
            ModState::Disabled
        }
    } else if enabled {
        ModState::Unconfirmed
    } else {
        ModState::Disabled
    }
}

/// A mod disabled in its manifest is shown disabled whatever the runtime reports,
/// unless the runtime reports an error for it or still runs other settings.
pub proof fn disabled_mod_is_never_active(fresh: bool, reported_error: bool, loaded_differs: bool, active: bool)
    requires
        !active,
    ensures
        mod_state_spec(fresh, reported_error, loaded_differs, active, false) != ModState::Active,
        mod_state_spec(fresh, reported_error, loaded_differs, active, false) != ModState::NotRunning,
        mod_state_spec(fresh, reported_error, loaded_differs, active, false) != ModState::Unconfirmed,
{
}

/// The state of the prepared game assets.
#[derive(Clone, Copy, PartialEq, Eq, Structural, Debug)]
pub enum AssetState {
    Applied,
    PrepareRequired,
    /// The fingerprint could not be computed; the detail is why.
    Unknown,
    NotRequired,
}

impl AssetState {
    pub open spec fn name(self) -> Seq<char> {
        match self {
            AssetState::Applied => "applied"@,
            AssetState::PrepareRequired => "prepare-required"@,
            AssetState::Unknown => "unknown"@,
            AssetState::NotRequired => "not-required"@,
        }
    }

    pub fn as_str(self) -> (r: &'static str)
        ensures
            r@ == self.name(),
    {
        match self {
            AssetState::Applied => "applied",
            AssetState::PrepareRequired => "prepare-required",
            AssetState::Unknown => "unknown",
            AssetState::NotRequired => "not-required",
        }
    }
}

/// The asset check: nothing to prepare without asset mods and without an earlier
/// record; otherwise the record must match the current fingerprint (`fingerprint`
/// is `None` when it could not be computed, else whether it matches).
pub fn asset_state(needs_prepare: bool, record_exists: bool, fingerprint: Option<bool>) -> (r: AssetState)
    ensures
        !needs_prepare && !record_exists ==> r == AssetState::NotRequired,
        needs_prepare || record_exists ==> r == match fingerprint {
            Some(true) => AssetState::Applied,
            Some(false) => AssetState::PrepareRequired,
            None => AssetState::Unknown,
        },
{
    if !needs_prepare && !record_exists {
        return AssetState::NotRequired;
    }
    match fingerprint {
        Some(true) => AssetState::Applied,
        Some(false) => AssetState::PrepareRequired,
        None => AssetState::Unknown,
    }
}

/// The parser's saved result belongs to the installed game binary: same target,
/// file size and modification time (seconds).
pub fn parser_current(
    status_target: Option<&str>,
    server: bool,
    recorded_size: Option<u64>,
    recorded_modified: Option<u64>,
    size: u64,
    modified: Option<u64>,
) -> (r: bool)
    ensures
        r == ((status_target matches Some(t) && t@ == if server { "enshrouded_server"@ } else { "enshrouded"@ })
            && recorded_size == Some(size) && recorded_modified == modified),
{
    let target_matches = match status_target {
        Some(t) => if server { str_equal(t, "enshrouded_server") } else { str_equal(t, "enshrouded") },
        None => false,
    };
    target_matches && recorded_size == Some(size) && recorded_modified == modified
}

} // verus!
