//! Canonical locations of ShroudForge's mutable data under a game directory.
//!
//! Paths are text joined with `/`, which Windows accepts as a separator too.
use vstd::prelude::*;
use crate::text::{chars_of, string_of, extend_chars};

verus! {

/// `base` joined with the relative component `segment`: a `/` goes between them
/// unless `base` is empty or already ends with one.
pub open spec fn join_spec(base: Seq<char>, segment: Seq<char>) -> Seq<char> {
    if base.len() == 0 {
        segment
    } else if base[base.len() - 1] == '/' {
        base + segment
    } else {
        base.push('/') + segment
    }
}

pub fn join(base: &str, segment: &str) -> (r: String)
    ensures
        r@ == join_spec(base@, segment@),
{
    let mut v = chars_of(base);
    if v.len() > 0 && v[v.len() - 1] != '/' {
        v.push('/');
    }
    extend_chars(&mut v, segment);
    string_of(&v)
}

/// `<root>/shroudforge`
pub fn data_dir(root: &str) -> (r: String)
    ensures
        r@ == join_spec(root@, "shroudforge"@),
{
    join(root, "shroudforge")
}

/// `<root>/shroudforge/config`
pub fn config_dir(root: &str) -> (r: String)
    ensures
        r@ == join_spec(join_spec(root@, "shroudforge"@), "config"@),
{
    let d = data_dir(root);
    join(d.as_str(), "config")
}

/// `<root>/shroudforge/version.json`
pub fn version_file(root: &str) -> (r: String)
    ensures
        r@ == join_spec(join_spec(root@, "shroudforge"@), "version.json"@),
{
    let d = data_dir(root);
    join(d.as_str(), "version.json")
}

/// `<root>/shroudforge/shroudforge.log`
pub fn current_log(root: &str) -> (r: String)
    ensures
        r@ == join_spec(join_spec(root@, "shroudforge"@), "shroudforge.log"@),
{
    let d = data_dir(root);
    join(d.as_str(), "shroudforge.log")
}

/// `<root>/shroudforge/logs`
pub fn logs_dir(root: &str) -> (r: String)
    ensures
        r@ == join_spec(join_spec(root@, "shroudforge"@), "logs"@),
{
    let d = data_dir(root);
    join(d.as_str(), "logs")
}

/// `<root>/shroudforge/updates`
pub fn updates_dir(root: &str) -> (r: String)
    ensures
        r@ == join_spec(join_spec(root@, "shroudforge"@), "updates"@),
{
    let d = data_dir(root);
    join(d.as_str(), "updates")
}

/// `<root>/shroudforge/ui`
pub fn ui_data_dir(root: &str) -> (r: String)
    ensures
        r@ == join_spec(join_spec(root@, "shroudforge"@), "ui"@),
{
    let d = data_dir(root);
    join(d.as_str(), "ui")
}

/// `<root>/shroudforge/config/webview2-profile`
pub fn webview_profile(root: &str) -> (r: String)
    ensures
        r@ == join_spec(join_spec(join_spec(root@, "shroudforge"@), "config"@), "webview2-profile"@),
{
    let d = config_dir(root);
    join(d.as_str(), "webview2-profile")
}

} // verus!
