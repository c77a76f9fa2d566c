//! How a Lua run of the mods is configured: the options a caller passes, the
//! configuration the API derives from them, and the checks that guard what mods
//! publish through `shroudforge.notifications` and the UI action queue.
use vstd::prelude::*;
use crate::runtime::RuntimePhase;
use crate::environment::ModEnvironment;
use crate::paths::{join, join_spec};
use crate::text::{str_equal, str_starts_with, starts_with, concat3, concat5, chars_of, contains_chars, contains_seq};
use crate::ident::{is_identifier, valid_identifier};
use crate::updater::{lower_spec, to_lowercase};

verus! {

/// What a run of the mods may do.
#[derive(Debug)]
pub struct RunOptions {
    /// Ignore the file cache and re-apply all mods.
    pub skip_cache: bool,
    /// Keep the asset writer enabled even when the input fingerprints match.
    pub force_assets: bool,
    /// The process kind; `None` derives it from the game file's name.
    pub is_server: Option<bool>,
    /// Mods may write typed resources back to the game's assets.
    pub assets_write: bool,
    /// Mods may export files.
    pub export: bool,
    /// Where exports go; `None` is `<game_dir>/export`.
    pub export_dir: Option<String>,
    pub phase: RuntimePhase,
}

impl RunOptions {
    /// Nothing enabled, the process kind derived, the pregame phase.
    pub fn none() -> (r: RunOptions)
        ensures
            !r.skip_cache && !r.force_assets && r.is_server is None && !r.assets_write && !r.export,
            r.export_dir is None,
            r.phase == RuntimePhase::Pregame,
    {
        RunOptions {
            skip_cache: false,
            force_assets: false,
            is_server: None,
            assets_write: false,
            export: false,
            export_dir: None,
            phase: RuntimePhase::Pregame,
        }
    }
}

/// A run of the mods on one game file set.
#[derive(Debug)]
pub struct RunArgs {
    pub file_name: String,
    pub options: RunOptions,
}

/// What a run reports back: the native libraries that mods registered.
#[derive(Debug)]
pub struct RunResult {
    pub dlls: Vec<String>,
}

/// The configuration of a run.
#[derive(Debug)]
pub struct AppConfig {
    pub skip_cache: bool,
    pub is_server: bool,
    pub phase: RuntimePhase,
    pub assets_write: bool,
    pub export: bool,
    pub export_dir: String,
}

/// The file name names the dedicated server (`server` occurs in it, in any case).
pub open spec fn names_server(file_name: Seq<char>) -> bool {
    contains_seq(lower_spec(file_name), "server"@)
}

/// Derives a run's configuration: the process kind from the options or the file
/// name, the features the options enable, and the export directory (`export_dir`
/// is the options' directory as resolved by the caller, if any).
pub fn app_config(options: &RunOptions, file_name: &str, game_dir: &str, export_dir: Option<String>) -> (r: AppConfig)
    ensures
        r.skip_cache == options.skip_cache,
        r.is_server == match options.is_server { Some(s) => s, None => names_server(file_name@) },
        r.phase == options.phase,
        r.assets_write == options.assets_write,
        r.export == options.export,
        r.export_dir@ == match export_dir { Some(d) => d@, None => join_spec(game_dir@, "export"@) },
{
    let is_server = match options.is_server {
        Some(s) => s,
        None => {
            let lowered = to_lowercase(file_name);
            let hay = chars_of(lowered.as_str());
            let needle = chars_of("server");
            contains_chars(&hay, &needle)
        },
    };
    let export_dir = match export_dir {
        Some(d) => d,
        None => join(game_dir, "export"),
    };
    AppConfig {
        skip_cache: options.skip_cache,
        is_server,
        phase: options.phase,
        assets_write: options.assets_write,
        export: options.export,
        export_dir,
    }
}

/// When the file cache shows no change and assets are not forced, an asset pass
/// writes nothing: the writer is disabled.
pub fn skip_unchanged_assets(options: &mut RunOptions, cache_unchanged: bool)
    ensures
        final(options).assets_write == (old(options).assets_write && !(cache_unchanged && !old(options).force_assets)),
        final(options).skip_cache == old(options).skip_cache,
        final(options).force_assets == old(options).force_assets,
        final(options).is_server == old(options).is_server,
        final(options).export == old(options).export,
        final(options).export_dir == old(options).export_dir,
        final(options).phase == old(options).phase,
{
    if cache_unchanged && options.assets_write && !options.force_assets {
        options.assets_write = false;
    }
}

/// The native libraries a runtime loader attaches.
#[derive(Debug)]
pub struct RuntimeOptions {
    pub dlls: Vec<String>,
}

/// Attaches the runtime loader; no library is loaded at present.
pub fn loader_attach(env: &ModEnvironment, options: RuntimeOptions) -> (r: Result<(), String>)
    ensures
        r is Ok,
{
    Ok(())
}

/// Detaches the runtime loader.
pub fn loader_detach() -> (r: Result<(), String>)
    ensures
        r is Ok,
{
    Ok(())
}

/// The levels a notification may have.
pub open spec fn notice_level(level: Seq<char>) -> bool {
    level == "info"@ || level == "success"@ || level == "warning"@ || level == "error"@ || level == "update"@
}

/// A notification that a mod publishes.
#[derive(Debug)]
pub struct Notice {
    pub id: String,
    pub title: String,
    pub message: String,
    /// `info` when absent.
    pub level: Option<String>,
    pub action_url: Option<String>,
}

/// The checks on a published notification, in order: the ids and the lengths
/// (in bytes), the level, the action URL.
pub open spec fn notice_problem(mod_id: Seq<char>, notice: Notice) -> Option<Seq<char>> {
    let level = match notice.level { Some(l) => l@, None => "info"@ };
    if !is_identifier(mod_id) || !is_identifier(notice.id@) || (vstd::utf8::encode_utf8(notice.title@).len() as usize) > 120
        || (vstd::utf8::encode_utf8(notice.message@).len() as usize) > 2000 {
        Some("invalid notification payload"@)
    } else if !notice_level(level) {
        Some("invalid notification level"@)
    } else if notice.action_url matches Some(u) && !starts_with(u@, "https://"@) {
        Some("notification action_url must use HTTPS"@)
    } else {
        None
    }
}

/// Checks a notification that the mod `mod_id` publishes; on success yields its
/// namespaced id `<mod_id>.<id>` and the event file stem `<mod_id>-<id>`.
pub fn check_notice(mod_id: &str, notice: &Notice) -> (r: Result<(String, String), String>)
    ensures
        match notice_problem(mod_id@, *notice) {
            Some(m) => r matches Err(e) && e@ == m,
            None => r matches Ok((id, stem)) && id@ == mod_id@ + "."@ + notice.id@
                && stem@ == mod_id@ + "-"@ + notice.id@,
        },
{
    if !valid_identifier(mod_id) || !valid_identifier(notice.id.as_str()) || notice.title.as_str().len() > 120
        || notice.message.as_str().len() > 2000 {
        return Err(String::from_str("invalid notification payload"));
    }
    let level_ok = match &notice.level {
        Some(l) => {
            let l = l.as_str();
            str_equal(l, "info") || str_equal(l, "success") || str_equal(l, "warning") || str_equal(l, "error")
                || str_equal(l, "update")
        },
        None => true,
    };
    proof { reveal_strlit("info"); }
    if !level_ok {
        return Err(String::from_str("invalid notification level"));
    }
    if let Some(url) = &notice.action_url {
        if !str_starts_with(url.as_str(), "https://") {
            return Err(String::from_str("notification action_url must use HTTPS"));
        }
    }
    Ok((concat3(mod_id, ".", notice.id.as_str()), concat3(mod_id, "-", notice.id.as_str())))
}

/// The registry key under which a mod's UI action callback is stored.
pub fn action_registry_key(mod_id: &str, action: &str) -> (r: String)
    ensures
        r@ == "shroudforge.ui.action."@ + mod_id@ + "."@ + action@,
{
    proof { reveal_strlit(""); }
    concat5("shroudforge.ui.action.", mod_id, ".", action, "")
}

/// What the runtime does with one queued UI action request.
#[derive(Clone, Copy, PartialEq, Eq, Structural, Debug)]
pub enum ActionDisposition {
    /// Drop the request: unreadable, for an inactive mod, or with invalid names.
    Discard,
    /// Run the registered callback, then drop the request.
    Run,
    /// Keep the request until the mod registers its callback.
    Wait,
}

/// Decides a queued UI action request: `request` is its mod id and action when the
/// file reads as such; `registered` whether the mod registered a callback for it.
pub fn action_disposition(request: Option<(&str, &str)>, active_mods: &Vec<String>, registered: bool) -> (r: ActionDisposition)
    ensures
        match request {
            None => r == ActionDisposition::Discard,
            Some((m, a)) => if !(exists|k: int| 0 <= k < active_mods@.len() && #[trigger] active_mods@[k]@ == m@)
                || !is_identifier(m@) || !is_identifier(a@) {
                r == ActionDisposition::Discard
            } else if registered {
                r == ActionDisposition::Run
            } else {
                r == ActionDisposition::Wait
            },
        },
{
    match request {
        None => ActionDisposition::Discard,
        Some((m, a)) => {
            let mut active = false;
            for k in 0..active_mods.len()
                invariant
                    active <==> exists|j: int| 0 <= j < k && #[trigger] active_mods@[j]@ == m@,
            {
                if str_equal(active_mods[k].as_str(), m) {
                    active = true;
                }
            }
            if !active || !valid_identifier(m) || !valid_identifier(a) {
                ActionDisposition::Discard
            } else if registered {
                ActionDisposition::Run
            } else {
                ActionDisposition::Wait
            }
        },
    }
}

} // verus!
