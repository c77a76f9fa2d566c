//! The execution contract of a mod, derived from how its Lua sources use the API:
//! which capabilities it needs, which process it runs in, and when its settings
//! take effect. These are runtime metadata, not flags that authors maintain.
use vstd::prelude::*;
use crate::manifest::{Capability, ModManifest, ModTarget};
use crate::text::{chars_of, contains_chars, contains_seq, string_of};

verus! {

/// Where the comment stripper stands between two characters.
#[derive(Clone, Copy, PartialEq, Eq, Structural, Debug)]
pub struct LexState {
    /// Inside a string opened by this quote.
    pub quote: Option<char>,
    /// The previous character in a string was a backslash.
    pub escaped: bool,
    /// Inside a `--` comment, up to the end of the line.
    pub line_comment: bool,
    /// Inside a `--[[ ... ]]` comment.
    pub block_comment: bool,
}

pub open spec fn code_state() -> LexState {
    LexState { quote: None, escaped: false, line_comment: false, block_comment: false }
}

/// The source from position `i` on, in state `st`, without its comments. Strings are
/// kept as written; a line comment keeps its line break; `--[` not followed by `[`
/// is kept as text.
pub open spec fn strip_from(s: Seq<char>, i: int, st: LexState) -> Seq<char>
    decreases s.len() - i,
{
    if i < 0 || i >= s.len() {
        Seq::empty()
    } else {
        let c = s[i];
        if st.line_comment {
            if c == '\n' {
                seq![c] + strip_from(s, i + 1, LexState { line_comment: false, ..st })
            } else {
                strip_from(s, i + 1, st)
            }
        } else if st.block_comment {
            if c == ']' && i + 1 < s.len() && s[i + 1] == ']' {
                strip_from(s, i + 2, LexState { block_comment: false, ..st })
            } else {
                strip_from(s, i + 1, st)
            }
        } else if st.quote is Some {
            seq![c] + if st.escaped {
                strip_from(s, i + 1, LexState { escaped: false, ..st })
            } else if c == '\\' {
                strip_from(s, i + 1, LexState { escaped: true, ..st })
            } else if Some(c) == st.quote {
                strip_from(s, i + 1, LexState { quote: None, ..st })
            } else {
                strip_from(s, i + 1, st)
            }
        } else if c == '\'' || c == '"' {
            seq![c] + strip_from(s, i + 1, LexState { quote: Some(c), ..st })
        } else if c == '-' && i + 1 < s.len() && s[i + 1] == '-' {
            if i + 2 < s.len() && s[i + 2] == '[' {
                if i + 3 < s.len() && s[i + 3] == '[' {
                    strip_from(s, i + 4, LexState { block_comment: true, ..st })
                } else {
                    seq!['-', '-', '['] + strip_from(s, i + 3, st)
                }
            } else {
                strip_from(s, i + 2, LexState { line_comment: true, ..st })
            }
        } else {
            seq![c] + strip_from(s, i + 1, st)
        }
    }
}

/// Removes Lua comments from `source`, keeping strings intact.
pub fn strip_lua_comments(source: &str) -> (r: String)
    ensures
        r@ == strip_from(source@, 0, code_state()),
{
    let s = chars_of(source);
    let n = s.len();
    let mut out: Vec<char> = Vec::new();
    let mut st = LexState { quote: None, escaped: false, line_comment: false, block_comment: false };
    let mut i: usize = 0;
    while i < n
        invariant
            n == s@.len(),
            s@ == source@,
            i <= n,
            out@ + strip_from(s@, i as int, st) == strip_from(s@, 0, code_state()),
        decreases n - i,
    {
        let c = s[i];
        let ghost prev_out = out@;
        let ghost prev_i = i;
        let ghost prev_st = st;
        if st.line_comment {
            if c == '\n' {
                st = LexState { line_comment: false, ..st };
                out.push(c);
            }
            i = i + 1;
        } else if st.block_comment {
            if c == ']' && i + 1 < n && s[i + 1] == ']' {
                st = LexState { block_comment: false, ..st };
                i = i + 2;
            } else {
                i = i + 1;
            }
        } else if st.quote.is_some() {
            out.push(c);
            if st.escaped {
                st = LexState { escaped: false, ..st };
            } else if c == '\\' {
                st = LexState { escaped: true, ..st };
            } else if st.quote == Some(c) {
                st = LexState { quote: None, ..st };
            }
            i = i + 1;
        } else if c == '\'' || c == '"' {
            st = LexState { quote: Some(c), ..st };
            out.push(c);
            i = i + 1;
        } else if c == '-' && i + 1 < n && s[i + 1] == '-' {
            if i + 2 < n && s[i + 2] == '[' {
                if i + 3 < n && s[i + 3] == '[' {
                    st = LexState { block_comment: true, ..st };
                    i = i + 4;
                } else {
                    out.push('-');
                    out.push('-');
                    out.push('[');
                    i = i + 3;
                }
            } else {
                st = LexState { line_comment: true, ..st };
                i = i + 2;
            }
        } else {
            out.push(c);
            i = i + 1;
        }
        proof {
            let rest = strip_from(s@, prev_i as int, prev_st);
            let step = out@.skip(prev_out.len() as int);
            assert(out@ =~= prev_out + step);
            assert(rest =~= step + strip_from(s@, i as int, st));
            assert(out@ + strip_from(s@, i as int, st) =~= prev_out + rest);
        }
    }
    assert(out@ + strip_from(s@, n as int, st) =~= out@);
    string_of(&out)
}

/// Unicode white space (`char::is_whitespace`).
pub open spec fn is_whitespace(c: char) -> bool {
    ||| c == ' ' || c == '\t' || c == '\n' || c == '\r' || c == '\u{0b}' || c == '\u{0c}'
    ||| c == '\u{85}' || c == '\u{a0}' || c == '\u{1680}'
    ||| ('\u{2000}' <= c && c <= '\u{200a}')
    ||| c == '\u{2028}' || c == '\u{2029}' || c == '\u{202f}' || c == '\u{205f}' || c == '\u{3000}'
}

pub fn char_is_whitespace(c: char) -> (r: bool)
    ensures
        r == is_whitespace(c),
{
    c == ' ' || c == '\t' || c == '\n' || c == '\r' || c == '\u{0b}' || c == '\u{0c}'
        || c == '\u{85}' || c == '\u{a0}' || c == '\u{1680}'
        || ('\u{2000}' <= c && c <= '\u{200a}')
        || c == '\u{2028}' || c == '\u{2029}' || c == '\u{202f}' || c == '\u{205f}' || c == '\u{3000}'
}

/// The source without comments and without any white space.
pub open spec fn normalized(source: Seq<char>) -> Seq<char> {
    strip_from(source, 0, code_state()).filter(|c: char| !is_whitespace(c))
}

fn squeeze(s: &Vec<char>) -> (r: Vec<char>)
    ensures
        r@ == s@.filter(|c: char| !is_whitespace(c)),
{
    let mut r: Vec<char> = Vec::new();
    for i in 0..s.len()
        invariant
            r@ == s@.take(i as int).filter(|c: char| !is_whitespace(c)),
    {
        let c = s[i];
        proof {
            reveal(Seq::filter);
            assert(s@.take(i + 1).drop_last() =~= s@.take(i as int));
        }
        if !char_is_whitespace(c) {
            r.push(c);
        }
    }
    assert(s@.take(s@.len() as int) =~= s@);
    r
}

/// The mod writes game assets.
pub open spec fn uses_assets(n: Seq<char>) -> bool {
    contains_seq(n, "runtime.require(\"game.assets.write\")"@)
        || contains_seq(n, "runtime.require('game.assets.write')"@)
        || contains_seq(n, "game.assets."@)
}

/// The mod runs live in the game.
pub open spec fn uses_runtime(n: Seq<char>) -> bool {
    contains_seq(n, "runtime.require(\"runtime.lifecycle\")"@)
        || contains_seq(n, "runtime.require('runtime.lifecycle')"@)
        || contains_seq(n, "runtime.ecs."@)
        || contains_seq(n, "on_load="@)
        || contains_seq(n, "on_update="@)
        || contains_seq(n, "on_unload="@)
}

/// The mod exports files.
pub open spec fn uses_export(n: Seq<char>) -> bool {
    contains_seq(n, "io.export("@) || contains_seq(n, "io.export"@)
}

/// The capabilities, in their canonical order, that the uses call for.
pub open spec fn inferred_capabilities(assets: bool, runtime: bool, export: bool) -> Seq<Capability> {
    (if assets { seq![Capability::AssetsWrite] } else { Seq::empty() })
        + (if runtime { seq![Capability::Runtime] } else { Seq::empty() })
        + (if export { seq![Capability::Export] } else { Seq::empty() })
}

fn has(hay: &Vec<char>, needle: &str) -> (r: bool)
    ensures
        r == contains_seq(hay@, needle@),
{
    let n = chars_of(needle);
    contains_chars(hay, &n)
}

/// Derives the execution phase and process scope from the Lua sources' API usage:
/// the capabilities are replaced by those the sources use; a mod that only runs
/// live is client-only; the API requirement is dropped; settings apply live for a
/// live mod that writes no assets, and at restart otherwise.
pub fn infer_api_contract(manifest: &mut ModManifest, source: &str)
    ensures
        ({
            let n = normalized(source@);
            let assets = uses_assets(n);
            let runtime = uses_runtime(n);
            let export = uses_export(n);
            let live = runtime && !assets;
            &&& final(manifest).capabilities@ == inferred_capabilities(assets, runtime, export)
            &&& final(manifest).target == if runtime && !assets && !export { ModTarget::Client } else { ModTarget::Both }
            &&& final(manifest).api is None
            &&& final(manifest).settings@.len() == old(manifest).settings@.len()
            &&& forall|k: int| 0 <= k < final(manifest).settings@.len() ==> {
                let s = #[trigger] final(manifest).settings@[k];
                let o = old(manifest).settings@[k];
                &&& s.apply_at@ == if live { "live"@ } else { "restart"@ }
                &&& s.restart_required == !live
                &&& s.key == o.key && s.value_type == o.value_type && s.default_kind == o.default_kind
                &&& s.group == o.group && s.range_inverted == o.range_inverted && s.step_invalid == o.step_invalid
                &&& s.control == o.control && s.label == o.label && s.description == o.description
                &&& s.minimum_length == o.minimum_length && s.maximum_length == o.maximum_length
                &&& s.options == o.options
            }
            &&& final(manifest).id == old(manifest).id
            &&& final(manifest).name == old(manifest).name
            &&& final(manifest).version == old(manifest).version
            &&& final(manifest).dependencies == old(manifest).dependencies
            &&& final(manifest).authors == old(manifest).authors
            &&& final(manifest).description == old(manifest).description
            &&& final(manifest).license == old(manifest).license
            &&& final(manifest).icon == old(manifest).icon
            &&& final(manifest).release == old(manifest).release
            &&& final(manifest).setting_groups == old(manifest).setting_groups
            &&& final(manifest).ui == old(manifest).ui
            &&& final(manifest).enabled == old(manifest).enabled
            &&& final(manifest).links == old(manifest).links
        }),
{
    let stripped = strip_lua_comments(source);
    let cs = chars_of(stripped.as_str());
    let n = squeeze(&cs);
    let assets = has(&n, "runtime.require(\"game.assets.write\")") || has(&n, "runtime.require('game.assets.write')")
        || has(&n, "game.assets.");
    let runtime = has(&n, "runtime.require(\"runtime.lifecycle\")") || has(&n, "runtime.require('runtime.lifecycle')")
        || has(&n, "runtime.ecs.") || has(&n, "on_load=") || has(&n, "on_update=") || has(&n, "on_unload=");
    let export = has(&n, "io.export(") || has(&n, "io.export");
    assert(n@ == normalized(source@));
    let mut capabilities: Vec<Capability> = Vec::new();
    if assets {
        capabilities.push(Capability::AssetsWrite);
    }
    if runtime {
        capabilities.push(Capability::Runtime);
    }
    if export {
        capabilities.push(Capability::Export);
    }
    assert(capabilities@ =~= inferred_capabilities(assets, runtime, export));
    manifest.capabilities = capabilities;
    manifest.target = if runtime && !assets && !export { ModTarget::Client } else { ModTarget::Both };
    manifest.api = None;
    let live = runtime && !assets;
    let ghost before = manifest.settings@;
    let ghost fixed = *manifest;
    let count = manifest.settings.len();
    for k in 0..count
        invariant
            count == manifest.settings@.len(),
            manifest.capabilities == fixed.capabilities,
            manifest.target == fixed.target,
            manifest.api == fixed.api,
            manifest.id == fixed.id,
            manifest.name == fixed.name,
            manifest.version == fixed.version,
            manifest.dependencies == fixed.dependencies,
            manifest.authors == fixed.authors,
            manifest.description == fixed.description,
            manifest.license == fixed.license,
            manifest.icon == fixed.icon,
            manifest.release == fixed.release,
            manifest.setting_groups == fixed.setting_groups,
            manifest.ui == fixed.ui,
            manifest.enabled == fixed.enabled,
            manifest.links == fixed.links,
            before.len() == count,
            forall|j: int| 0 <= j < count ==> {
                let s = #[trigger] manifest.settings@[j];
                let o = before[j];
                &&& s.key == o.key && s.value_type == o.value_type && s.default_kind == o.default_kind
                &&& s.group == o.group && s.range_inverted == o.range_inverted && s.step_invalid == o.step_invalid
                &&& s.control == o.control && s.label == o.label && s.description == o.description
                &&& s.minimum_length == o.minimum_length && s.maximum_length == o.maximum_length
                &&& s.options == o.options
            },
            forall|j: int| 0 <= j < k ==> {
                let s = #[trigger] manifest.settings@[j];
                &&& s.apply_at@ == if live { "live"@ } else { "restart"@ }
                &&& s.restart_required == !live
            },
    {
        let apply_at = if live { String::from_str("live") } else { String::from_str("restart") };
        let mut setting = manifest.settings.remove(k);
        setting.apply_at = apply_at;
        setting.restart_required = !live;
        manifest.settings.insert(k, setting);
    }
}

} // verus!
