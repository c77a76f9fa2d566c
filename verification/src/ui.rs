//! Decisions of the modloader UI: update providers and release tags, whether a
//! newer release exists, and which mod actions a package declares. The UI itself
//! is a Windows web view; elsewhere its entry point refuses.
use vstd::prelude::*;
use crate::manifest::{ModUi, UiSection, UiComponent, UiComponentType};
use crate::text::{chars_of, string_of, str_equal, concat3, concat5};
use crate::ident::{is_identifier, valid_identifier, is_hex_digit};
use crate::versions::{version_error, version_precedes, version_equals, semver_version_parses, semver_version_error, semver_precedes, semver_equals};
use crate::updater::{lower_spec, to_lowercase};
use crate::contract::is_whitespace;

verus! {

/// The modloader UI's entry point; refused on this platform.
pub fn run_module() -> (r: Result<(), String>)
    ensures
        r matches Err(m) && m@ == "ShroudForge Modloader UI is available on Windows only"@,
{
    Err(String::from_str("ShroudForge Modloader UI is available on Windows only"))
}

/// Where the UI looks for releases or catalog entries.
#[derive(Debug)]
pub struct ProviderConfig {
    pub enabled: bool,
    pub kind: String,
    pub base_url: String,
    pub project_id: String,
    pub loader: String,
    pub check_minutes: u64,
}

impl ProviderConfig {
    /// The catalog provider when the configuration names none: disabled, the
    /// ShroudedIt API, checked every 30 minutes.
    pub fn catalog_default() -> (r: ProviderConfig)
        ensures
            !r.enabled,
            r.kind@ == "shroudedit"@,
            r.base_url@ == "https://api.shroudedit.com"@,
            r.project_id@ == "shroudforge"@,
            r.loader@ == "shroudforge"@,
            r.check_minutes == 30,
    {
        ProviderConfig {
            enabled: false,
            kind: String::from_str("shroudedit"),
            base_url: String::from_str("https://api.shroudedit.com"),
            project_id: String::from_str("shroudforge"),
            loader: String::from_str("shroudforge"),
            check_minutes: 30,
        }
    }

    /// The provider of ShroudForge's own releases: GitHub releases of the project,
    /// checked hourly.
    pub fn system_default() -> (r: ProviderConfig)
        ensures
            r.enabled,
            r.kind@ == "github-releases"@,
            r.base_url@ == "https://api.github.com"@,
            r.project_id@ == "bonsaibauer/shroudforge"@,
            r.loader@ == "shroudforge"@,
            r.check_minutes == 60,
    {
        ProviderConfig {
            enabled: true,
            kind: String::from_str("github-releases"),
            base_url: String::from_str("https://api.github.com"),
            project_id: String::from_str("bonsaibauer/shroudforge"),
            loader: String::from_str("shroudforge"),
            check_minutes: 60,
        }
    }
}

/// F9, the default key that shows and hides the modloader window.
pub const UI_TOGGLE_KEY: u32 = 120;

/// The modloader window's settings.
#[derive(Debug)]
pub struct UiModuleConfig {
    pub toggle_key: u32,
    pub refresh_milliseconds: u64,
    pub update_provider: ProviderConfig,
    pub system_update_provider: ProviderConfig,
}

impl UiModuleConfig {
    /// The settings when the module's configuration cannot be read: F9 toggles the
    /// window, the view refreshes every second, and both providers are the defaults.
    pub fn fallback() -> (r: UiModuleConfig)
        ensures
            r.toggle_key == UI_TOGGLE_KEY,
            r.refresh_milliseconds == 1000,
            !r.update_provider.enabled,
            r.update_provider.kind@ == "shroudedit"@,
            r.update_provider.base_url@ == "https://api.shroudedit.com"@,
            r.update_provider.project_id@ == "shroudforge"@,
            r.update_provider.loader@ == "shroudforge"@,
            r.update_provider.check_minutes == 30,
            r.system_update_provider.enabled,
            r.system_update_provider.kind@ == "github-releases"@,
            r.system_update_provider.base_url@ == "https://api.github.com"@,
            r.system_update_provider.project_id@ == "bonsaibauer/shroudforge"@,
            r.system_update_provider.loader@ == "shroudforge"@,
            r.system_update_provider.check_minutes == 60,
    {
        UiModuleConfig {
            toggle_key: UI_TOGGLE_KEY,
            refresh_milliseconds: 1000,
            update_provider: ProviderConfig::catalog_default(),
            system_update_provider: ProviderConfig::system_default(),
        }
    }
}

/// The provider in effect: the user's own, else the module's.
pub fn effective_provider(module: ProviderConfig, user: Option<ProviderConfig>) -> (r: ProviderConfig)
    ensures
        r == match user { Some(u) => u, None => module },
{
    match user {
        Some(u) => u,
        None => module,
    }
}

/// What the Updates view shows.
#[derive(Debug)]
pub struct ReleaseState {
    pub current_version: String,
    pub current_build: u64,
    pub latest_version: Option<String>,
    pub update_available: bool,
    pub state: String,
    pub message: Option<String>,
    pub release_url: Option<String>,
    pub staged: bool,
}

impl ReleaseState {
    /// The state before any check: the installed release, nothing newer known.
    pub fn idle(current_version: String, current_build: u64, staged: bool) -> (r: ReleaseState)
        ensures
            r.current_version == current_version,
            r.current_build == current_build,
            r.latest_version is None,
            !r.update_available,
            r.state@ == "idle"@,
            r.message is None,
            r.release_url is None,
            r.staged == staged,
    {
        ReleaseState {
            current_version,
            current_build,
            latest_version: None,
            update_available: false,
            state: String::from_str("idle"),
            message: None,
            release_url: None,
            staged,
        }
    }
}

/// The text without its leading `v`s (`trim_start_matches('v')`).
pub open spec fn without_v(s: Seq<char>) -> Seq<char>
    decreases s.len(),
{
    if s.len() > 0 && s[0] == 'v' { without_v(s.drop_first()) } else { s }
}

pub(crate) fn trim_v(s: &str) -> (r: Vec<char>)
    ensures
        r@ == without_v(s@),
{
    let cs = chars_of(s);
    let mut i: usize = 0;
    assert(cs@.skip(0) =~= cs@);
    while i < cs.len() && cs[i] == 'v'
        invariant
            cs@ == s@,
            i <= cs@.len(),
            without_v(s@) == without_v(cs@.skip(i as int)),
        decreases cs.len() - i,
    {
        assert(cs@.skip(i as int).drop_first() =~= cs@.skip(i + 1));
        i = i + 1;
    }
    let mut r: Vec<char> = Vec::new();
    let mut j = i;
    while j < cs.len()
        invariant
            i <= j <= cs@.len(),
            r@ == cs@.subrange(i as int, j as int),
        decreases cs.len() - j,
    {
        r.push(cs[j]);
        j = j + 1;
        assert(r@ =~= cs@.subrange(i as int, j as int));
    }
    assert(r@ =~= cs@.skip(i as int));
    r
}

/// The last occurrence of `-build.` in `s`, at the position returned.
pub open spec fn last_build_marker(s: Seq<char>) -> Option<int> {
    if exists|i: int| crate::text::occurs_at(s, "-build."@, i) {
        Some(choose|i: int| crate::text::occurs_at(s, "-build."@, i) && forall|j: int| i < j ==> !crate::text::occurs_at(s, "-build."@, j))
    } else {
        None
    }
}

/// A decimal `u64` as `str::parse` reads it: an optional `+`, then one or more
/// digits whose value fits.
pub open spec fn parsed_u64(s: Seq<char>) -> Option<u64> {
    let digits = unsigned_digits(s);
    if digits.len() > 0 && all_digits(digits) && decimal_value(digits) <= u64::MAX {
        Some(decimal_value(digits) as u64)
    } else {
        None
    }
}

/// The text after an optional leading `+`.
pub open spec fn unsigned_digits(s: Seq<char>) -> Seq<char> {
    if s.len() > 0 && s[0] == '+' { s.drop_first() } else { s }
}

/// Only decimal digits.
pub open spec fn all_digits(d: Seq<char>) -> bool {
    forall|i: int| 0 <= i < d.len() ==> '0' <= #[trigger] d[i] <= '9'
}

/// The value of a string of decimal digits.
pub open spec fn decimal_value(digits: Seq<char>) -> nat
    decreases digits.len(),
{
    if digits.len() == 0 {
        0
    } else {
        decimal_value(digits.drop_last()) * 10 + ((digits.last() as u32) - 48) as nat
    }
}

pub(crate) fn parse_u64(s: &Vec<char>) -> (r: Option<u64>)
    ensures
        r == parsed_u64(s@),
{
    let start: usize = if s.len() > 0 && s[0] == '+' { 1 } else { 0 };
    let ghost digits = unsigned_digits(s@);
    assert(digits =~= s@.skip(start as int));
    if start >= s.len() {
        return None;
    }
    let mut value: u64 = 0;
    let mut i = start;
    while i < s.len()
        invariant
            start <= i <= s@.len(),
            digits == s@.skip(start as int),
            digits == unsigned_digits(s@),
            forall|k: int| start <= k < i ==> '0' <= #[trigger] s@[k] <= '9',
            value == decimal_value(s@.subrange(start as int, i as int)),
        decreases s.len() - i,
    {
        let c = s[i];
        if !('0' <= c && c <= '9') {
            assert(digits[i - start] == c);
            assert(!all_digits(digits));
            assert(parsed_u64(s@) is None);
            return None;
        }
        let d = ((c as u32) - 48) as u64;
        proof {
            assert(s@.subrange(start as int, i + 1).drop_last() =~= s@.subrange(start as int, i as int));
        }
        proof {
            let longer = s@.subrange(start as int, i + 1);
            assert(longer.last() == c);
            assert(decimal_value(longer) == decimal_value(s@.subrange(start as int, i as int)) * 10 + ((c as u32) - 48) as nat);
            assert(digits.take((i + 1 - start) as int) =~= longer);
        }
        if value > (u64::MAX - d) / 10 {
            proof {
                assert(value * 10 + d > u64::MAX) by (nonlinear_arith)
                    requires value > (u64::MAX - d) / 10, d <= 9;
                lemma_decimal_prefix_bound(digits, (i + 1 - start) as int);
                assert(parsed_u64(s@) is None);
            }
            return None;
        }
        assert(value * 10 + d <= u64::MAX) by (nonlinear_arith)
            requires value <= (u64::MAX - d) / 10, d <= 9;
        value = value * 10 + d;
        i = i + 1;
    }
    assert(s@.subrange(start as int, s@.len() as int) =~= digits);
    Some(value)
}

proof fn lemma_decimal_monotone(digits: Seq<char>, k: int)
    requires
        0 <= k <= digits.len(),
        all_digits(digits),
    ensures
        decimal_value(digits.take(k)) <= decimal_value(digits),
    decreases digits.len() - k,
{
    if k < digits.len() {
        let longer = digits.take(k + 1);
        assert(longer.drop_last() =~= digits.take(k));
        lemma_decimal_monotone(digits, k + 1);
        assert(decimal_value(longer) >= decimal_value(digits.take(k)) * 10) by {
            assert(decimal_value(longer) == decimal_value(digits.take(k)) * 10 + ((longer.last() as u32) - 48) as nat);
        }
        assert(decimal_value(digits.take(k)) * 10 >= decimal_value(digits.take(k))) by (nonlinear_arith);
    } else {
        assert(digits.take(k) =~= digits);
    }
}

proof fn lemma_decimal_prefix_bound(digits: Seq<char>, k: int)
    requires
        0 <= k <= digits.len(),
        decimal_value(digits.take(k)) > u64::MAX,
    ensures
        !(all_digits(digits) && decimal_value(digits) <= u64::MAX),
{
    if all_digits(digits) {
        lemma_decimal_monotone(digits, k);
    }
}

/// Splits a release tag `v<version>-build.<id>` (leading `v`s optional) into its
/// semantic version and build number.
pub open spec fn parse_release_tag_spec(tag: Seq<char>) -> Result<(Seq<char>, u64), Seq<char>> {
    let t = without_v(tag);
    match last_build_marker(t) {
        None => Err("Invalid ShroudForge release tag: "@ + t),
        Some(i) => {
            let version = t.take(i);
            let build = t.skip(i + 7);
            if !semver_version_parses(version) {
                Err("Invalid ShroudForge version '"@ + version + "': "@ + semver_version_error(version))
            } else {
                match parsed_u64(build) {
                    Some(n) => Ok((version, n)),
                    None => Err("Invalid ShroudForge build ID: "@ + build),
                }
            }
        },
    }
}

/// Parses a release tag into its version and build number.
pub fn parse_release_tag(tag: &str) -> (r: Result<(String, u64), String>)
    ensures
        match parse_release_tag_spec(tag@) {
            Ok((v, n)) => r matches Ok((s, m)) && s@ == v && m == n,
            Err(e) => r matches Err(m) && m@ == e,
        },
{
    let t = trim_v(tag);
    let marker = chars_of("-build.");
    proof { reveal_strlit("-build."); }
    let mut found: Option<usize> = None;
    let mut i: usize = t.len();
    while i > 0 && found.is_none()
        invariant
            i <= t@.len(),
            marker@ == "-build."@,
            found matches Some(at) ==> crate::text::occurs_at(t@, "-build."@, at as int)
                && forall|j: int| at < j ==> !crate::text::occurs_at(t@, "-build."@, j),
            found is None ==> forall|j: int| i <= j ==> !crate::text::occurs_at(t@, "-build."@, j),
        decreases i,
    {
        i = i - 1;
        if crate::text::matches_at(&t, &marker, i) {
            found = Some(i);
        }
    }
    proof { reveal_strlit(""); }
    let text = string_of(&t);
    match found {
        None => {
            proof {
                assert forall|j: int| !crate::text::occurs_at(t@, "-build."@, j) by {
                    if j < 0 {
                    }
                }
                assert(last_build_marker(t@) is None);
            }
            Err(concat3("Invalid ShroudForge release tag: ", text.as_str(), ""))
        },
        Some(at) => {
            proof {
                assert(crate::text::occurs_at(t@, "-build."@, at as int));
                let w = choose|w: int| crate::text::occurs_at(t@, "-build."@, w) && forall|j: int| w < j ==> !crate::text::occurs_at(t@, "-build."@, j);
                if w != at {
                    if w < at {
                    } else {
                    }
                }
                assert(last_build_marker(t@) == Some(at as int));
            }
            let mut version: Vec<char> = Vec::new();
            for k in 0..at
                invariant
                    at + 7 <= t@.len(),
                    version@ == t@.take(k as int),
            {
                version.push(t[k]);
                assert(version@ =~= t@.take(k + 1));
            }
            let mut build: Vec<char> = Vec::new();
            let mut k = at + 7;
            while k < t.len()
                invariant
                    at + 7 <= k <= t@.len(),
                    build@ == t@.subrange(at + 7, k as int),
                decreases t.len() - k,
            {
                build.push(t[k]);
                k = k + 1;
                assert(build@ =~= t@.subrange(at + 7, k as int));
            }
            assert(build@ =~= t@.skip(at + 7));
            let version_text = string_of(&version);
            let build_text = string_of(&build);
            match version_error(version_text.as_str()) {
                Some(error) => Err(concat5("Invalid ShroudForge version '", version_text.as_str(), "': ", error.as_str(), "")),
                None => match parse_u64(&build) {
                    Some(n) => Ok((version_text, n)),
                    None => Err(concat3("Invalid ShroudForge build ID: ", build_text.as_str(), "")),
                },
            }
        },
    }
}

/// A release newer than the installed one: a higher version, or the same version
/// with a higher build. Versions that do not parse (after leading `v`s) never
/// count as an update.
pub open spec fn update_available_spec(current: Seq<char>, current_build: u64, latest: Seq<char>, latest_build: u64) -> bool {
    let c = without_v(current);
    let l = without_v(latest);
    semver_version_parses(c) && semver_version_parses(l)
        && (semver_precedes(c, l) == Some(true) || (semver_equals(l, c) == Some(true) && latest_build > current_build))
}

/// Whether the latest release is newer than the installed one.
pub fn is_update_available(current: &str, current_build: u64, latest: &str, latest_build: u64) -> (r: bool)
    ensures
        r == update_available_spec(current@, current_build, latest@, latest_build),
{
    let c = string_of(&trim_v(current));
    let l = string_of(&trim_v(latest));
    match (version_precedes(c.as_str(), l.as_str()), version_equals(l.as_str(), c.as_str())) {
        (Some(newer), Some(same)) => newer || (same && latest_build > current_build),
        _ => false,
    }
}

/// The component is a button that triggers `action`.
pub open spec fn button_for(component: UiComponent, action: Seq<char>) -> bool {
    component.component_type == UiComponentType::Button && (component.action matches Some(a) && a@ == action)
}

/// Some button of the sections triggers `action`.
pub open spec fn sections_declare(sections: Seq<UiSection>, action: Seq<char>) -> bool {
    exists|s: int, c: int| 0 <= s < sections.len() && 0 <= c < sections[s].components@.len()
        && #[trigger] button_for(sections[s].components@[c], action)
}

fn sections_declare_exec(sections: &Vec<UiSection>, action: &str) -> (r: bool)
    ensures
        r == sections_declare(sections@, action@),
{
    for s in 0..sections.len()
        invariant
            forall|x: int, c: int| 0 <= x < s && 0 <= c < sections@[x].components@.len() ==>
                !#[trigger] button_for(sections@[x].components@[c], action@),
    {
        let components = &sections[s].components;
        for c in 0..components.len()
            invariant
                s < sections@.len(),
                components@ == sections@[s as int].components@,
                forall|x: int, y: int| 0 <= x < s && 0 <= y < sections@[x].components@.len() ==>
                    !#[trigger] button_for(sections@[x].components@[y], action@),
                forall|y: int| 0 <= y < c ==> !#[trigger] button_for(components@[y], action@),
        {
            let component = &components[c];
            if component.component_type == UiComponentType::Button {
                match &component.action {
                    Some(a) => {
                        if str_equal(a.as_str(), action) {
                            assert(button_for(sections@[s as int].components@[c as int], action@));
                            return true;
                        }
                    },
                    None => {},
                }
            }
        }
    }
    false
}

/// The package's UI declares a button for `action`, in its sections or in any tab.
pub open spec fn declares_action(ui: ModUi, action: Seq<char>) -> bool {
    sections_declare(ui.sections@, action)
        || exists|t: int| 0 <= t < ui.tabs@.len() && #[trigger] sections_declare(ui.tabs@[t].sections@, action)
}

/// Whether a mod's UI declares the action that a user asked to run.
pub fn ui_declares_action(ui: &ModUi, action: &str) -> (r: bool)
    ensures
        r == declares_action(*ui, action@),
{
    if sections_declare_exec(&ui.sections, action) {
        return true;
    }
    for t in 0..ui.tabs.len()
        invariant
            !sections_declare(ui.sections@, action@),
            forall|x: int| 0 <= x < t ==> !#[trigger] sections_declare(ui.tabs@[x].sections@, action@),
    {
        if sections_declare_exec(&ui.tabs[t].sections, action) {
            return true;
        }
    }
    false
}

/// A mod action request names a valid mod id and a valid action, and the package
/// declares the action.
pub fn check_mod_action(id: &str, action: &str, ui: Option<&ModUi>) -> (r: Result<(), String>)
    ensures
        !is_identifier(id@) || !is_identifier(action@) ==> (r matches Err(m) && m@ == "invalid mod action"@),
        is_identifier(id@) && is_identifier(action@) ==> match ui {
            Some(u) => if declares_action(*u, action@) { r is Ok } else {
                r matches Err(m) && m@ == "mod action is not declared by the package"@
            },
            None => r matches Err(m) && m@ == "mod action is not declared by the package"@,
        },
{
    if !valid_identifier(id) || !valid_identifier(action) {
        return Err(String::from_str("invalid mod action"));
    }
    let declared = match ui {
        Some(u) => ui_declares_action(u, action),
        None => false,
    };
    if !declared {
        return Err(String::from_str("mod action is not declared by the package"));
    }
    Ok(())
}

/// The first white-space-separated word of a checksum file, in lower case; it must
/// be 64 hex digits.
pub open spec fn first_word(s: Seq<char>) -> Seq<char> {
    let start = leading_space(s, 0);
    s.subrange(start, word_end(s, start))
}

pub open spec fn leading_space(s: Seq<char>, i: int) -> int
    decreases s.len() - i,
{
    if i < 0 || i >= s.len() || !is_whitespace(s[i]) { i } else { leading_space(s, i + 1) }
}

pub open spec fn word_end(s: Seq<char>, i: int) -> int
    decreases s.len() - i,
{
    if i < 0 || i >= s.len() || is_whitespace(s[i]) { i } else { word_end(s, i + 1) }
}

/// Reads a release's published checksum from the text of its `.sha256` file.
pub fn release_checksum(text: &str) -> (r: Result<String, String>)
    ensures
        ({
            let word = lower_spec(first_word(text@));
            &&& r is Ok <==> word.len() == 64 && forall|i: int| 0 <= i < word.len() ==> is_hex_digit(#[trigger] word[i])
            &&& r matches Ok(c) ==> c@ == word
            &&& r matches Err(m) ==> m@ == "GitHub release does not contain a valid SHA-256 checksum"@
        }),
{
    let cs = chars_of(text);
    let mut i: usize = 0;
    while i < cs.len() && contract_whitespace(cs[i])
        invariant
            cs@ == text@,
            i <= cs@.len(),
            leading_space(text@, 0) == leading_space(text@, i as int),
        decreases cs.len() - i,
    {
        i = i + 1;
    }
    let start = i;
    let mut word: Vec<char> = Vec::new();
    while i < cs.len() && !contract_whitespace(cs[i])
        invariant
            cs@ == text@,
            start <= i <= cs@.len(),
            start == leading_space(text@, 0),
            word_end(text@, start as int) == word_end(text@, i as int),
            word@ == text@.subrange(start as int, i as int),
        decreases cs.len() - i,
    {
        word.push(cs[i]);
        i = i + 1;
        assert(word@ =~= text@.subrange(start as int, i as int));
    }
    let lowered = to_lowercase(string_of(&word).as_str());
    let lc = chars_of(lowered.as_str());
    let mut hex_only = true;
    for k in 0..lc.len()
        invariant
            hex_only <==> forall|j: int| 0 <= j < k ==> is_hex_digit(#[trigger] lc@[j]),
    {
        let c = lc[k];
        if !(('0' <= c && c <= '9') || ('A' <= c && c <= 'F') || ('a' <= c && c <= 'f')) {
            hex_only = false;
        }
    }
    if lc.len() != 64 || !hex_only {
        return Err(String::from_str("GitHub release does not contain a valid SHA-256 checksum"));
    }
    Ok(lowered)
}

fn contract_whitespace(c: char) -> (r: bool)
    ensures
        r == is_whitespace(c),
{
    c == ' ' || c == '\t' || c == '\n' || c == '\r' || c == '\u{0b}' || c == '\u{0c}'
        || c == '\u{85}' || c == '\u{a0}' || c == '\u{1680}'
        || ('\u{2000}' <= c && c <= '\u{200a}')
        || c == '\u{2028}' || c == '\u{2029}' || c == '\u{202f}' || c == '\u{205f}' || c == '\u{3000}'
}

/// The message shown with a release: its notes, or a default when they are blank.
pub fn release_message(body: String) -> (r: String)
    ensures
        (forall|i: int| 0 <= i < body@.len() ==> is_whitespace(#[trigger] body@[i])) ==> r@ == "A new ShroudForge version is available on GitHub."@,
        !(forall|i: int| 0 <= i < body@.len() ==> is_whitespace(#[trigger] body@[i])) ==> r == body,
{
    let cs = chars_of(body.as_str());
    let mut blank = true;
    for i in 0..cs.len()
        invariant
            cs@ == body@,
            blank <==> forall|j: int| 0 <= j < i ==> is_whitespace(#[trigger] cs@[j]),
    {
        if !contract_whitespace(cs[i]) {
            blank = false;
        }
    }
    if blank {
        String::from_str("A new ShroudForge version is available on GitHub.")
    } else {
        body
    }
}


/// `s` without the leading white space.
pub open spec fn trim_start_spec(s: Seq<char>) -> Seq<char>
    decreases s.len(),
{
    if s.len() > 0 && is_whitespace(s[0]) { trim_start_spec(s.drop_first()) } else { s }
}

/// `s` without the trailing characters that `strip` selects.
pub open spec fn trim_end_spec(s: Seq<char>, slash: bool) -> Seq<char>
    decreases s.len(),
{
    if s.len() > 0 && (if slash { s.last() == '/' } else { is_whitespace(s.last()) }) {
        trim_end_spec(s.drop_last(), slash)
    } else {
        s
    }
}

/// `s` without leading and trailing white space (`str::trim`).
pub open spec fn trim_spec(s: Seq<char>) -> Seq<char> {
    trim_end_spec(trim_start_spec(s), false)
}

fn strippable(c: char, slash: bool) -> (r: bool)
    ensures
        r == (if slash { c == '/' } else { is_whitespace(c) }),
{
    if slash { c == '/' } else { crate::contract::char_is_whitespace(c) }
}

pub(crate) fn trim_end_chars(s: Vec<char>, slash: bool) -> (r: Vec<char>)
    ensures
        r@ == trim_end_spec(s@, slash),
{
    let mut v = s;
    while v.len() > 0 && strippable(v[v.len() - 1], slash)
        invariant
            trim_end_spec(v@, slash) == trim_end_spec(s@, slash),
        decreases v.len(),
    {
        let ghost before = v@;
        v.pop();
        assert(v@ =~= before.drop_last());
    }
    v
}

pub(crate) fn trim_start_chars(s: Vec<char>) -> (r: Vec<char>)
    ensures
        r@ == trim_start_spec(s@),
{
    let mut i: usize = 0;
    assert(s@.skip(0) =~= s@);
    while i < s.len() && crate::contract::char_is_whitespace(s[i])
        invariant
            i <= s@.len(),
            trim_start_spec(s@.skip(i as int)) == trim_start_spec(s@),
        decreases s.len() - i,
    {
        assert(s@.skip(i as int).drop_first() =~= s@.skip(i + 1));
        i = i + 1;
    }
    let mut out: Vec<char> = Vec::new();
    let mut k = i;
    while k < s.len()
        invariant
            i <= k <= s@.len(),
            out@ == s@.subrange(i as int, k as int),
        decreases s.len() - k,
    {
        out.push(s[k]);
        k = k + 1;
        assert(out@ =~= s@.subrange(i as int, k as int));
    }
    assert(out@ =~= s@.skip(i as int));
    out
}

/// The update provider that the Settings view saves: the ShroudedIt catalog with
/// the base URL without trailing slashes, the project id without surrounding white
/// space, and the check interval within 5 minutes to a day; both text fields must
/// then be non-empty.
pub fn provider_from_settings(enabled: bool, base_url: &str, project_id: &str, check_minutes: u64) -> (r: Result<ProviderConfig, String>)
    ensures
        r is Ok <==> trim_end_spec(base_url@, true).len() > 0 && trim_spec(project_id@).len() > 0,
        r is Err ==> (r matches Err(m) && m@ == "update provider fields must not be empty"@),
        r matches Ok(p) ==> p.enabled == enabled && p.kind@ == "shroudedit"@ && p.loader@ == "shroudforge"@
            && p.base_url@ == trim_end_spec(base_url@, true) && p.project_id@ == trim_spec(project_id@)
            && p.check_minutes == (if check_minutes < 5 { 5 } else if check_minutes > 1440 { 1440 } else { check_minutes }),
{
    let url = trim_end_chars(chars_of(base_url), true);
    let project = trim_end_chars(trim_start_chars(chars_of(project_id)), false);
    if url.len() == 0 || project.len() == 0 {
        return Err(String::from_str("update provider fields must not be empty"));
    }
    Ok(ProviderConfig {
        enabled,
        kind: String::from_str("shroudedit"),
        base_url: string_of(&url),
        project_id: string_of(&project),
        loader: String::from_str("shroudforge"),
        check_minutes: if check_minutes < 5 { 5 } else if check_minutes > 1440 { 1440 } else { check_minutes },
    })
}

/// The keys a module's settings may take, by module.
pub open spec fn module_key_allowed(module: Seq<char>, key: Seq<char>) -> bool {
    if module == "debugConsole"@ {
        key == "defaultSource"@ || key == "levelFilter"@ || key == "autoScroll"@ || key == "toggleKey"@
            || key == "refreshMilliseconds"@ || key == "tailBytes"@ || key == "window.position"@
    } else if module == "modloaderUi"@ {
        key == "startPage"@ || key == "toggleKey"@ || key == "refreshMilliseconds"@ || key == "window.position"@
    } else if module == "runtimeDiagnostics"@ {
        key == "intervalMilliseconds"@ || key == "maximumDurationSeconds"@ || key == "slowCallbackMilliseconds"@
            || key == "onlyChanges"@ || key == "areas"@
    } else if module == "updates.system"@ {
        key == "enabled"@ || key == "checkMinutes"@ || key == "channel"@
    } else {
        false
    }
}

/// Where one setting of the Settings view is stored in the loader configuration,
/// as the keys from the document's root, or why it is refused.
pub open spec fn setting_path_spec(scope: Seq<char>, module: Option<Seq<char>>, key: Seq<char>) -> Result<Seq<Seq<char>>, Seq<char>> {
    if scope == "general"@ {
        if key == "compactMode"@ || key == "reducedMotion"@ { Ok(seq!["general"@, key]) } else { Err("unsupported general setting"@) }
    } else if scope == "logging"@ {
        if key == "minimumLevel"@ { Ok(seq!["logging"@, key]) } else { Err("unsupported logging setting"@) }
    } else if scope != "module"@ {
        Err("unsupported settings scope"@)
    } else {
        match module {
            None => Err("missing module setting target"@),
            Some(m) => if !module_key_allowed(m, key) {
                Err("unsupported module setting"@)
            } else if key == "window.position"@ {
                Ok(seq!["modules"@, m, "window"@, "position"@])
            } else if m == "updates.system"@ {
                Ok(seq!["modules"@, "updates"@, "system"@, key])
            } else {
                Ok(seq!["modules"@, m, key])
            },
        }
    }
}

fn eq_any(s: &str, options: &Vec<&str>) -> (r: bool)
    ensures
        r == exists|i: int| 0 <= i < options@.len() && #[trigger] options@[i]@ == s@,
{
    for i in 0..options.len()
        invariant
            forall|j: int| 0 <= j < i ==> #[trigger] options@[j]@ != s@,
    {
        if str_equal(s, options[i]) {
            assert(options@[i as int]@ == s@);
            return true;
        }
    }
    false
}

fn key_allowed(module: &str, key: &str) -> (r: bool)
    ensures
        r == module_key_allowed(module@, key@),
{
    proof {
        reveal_strlit("debugConsole"); reveal_strlit("modloaderUi"); reveal_strlit("runtimeDiagnostics"); reveal_strlit("updates.system");
    }
    let options: Vec<&str> = if str_equal(module, "debugConsole") {
        vec!["defaultSource", "levelFilter", "autoScroll", "toggleKey", "refreshMilliseconds", "tailBytes", "window.position"]
    } else if str_equal(module, "modloaderUi") {
        vec!["startPage", "toggleKey", "refreshMilliseconds", "window.position"]
    } else if str_equal(module, "runtimeDiagnostics") {
        vec!["intervalMilliseconds", "maximumDurationSeconds", "slowCallbackMilliseconds", "onlyChanges", "areas"]
    } else if str_equal(module, "updates.system") {
        vec!["enabled", "checkMinutes", "channel"]
    } else {
        Vec::new()
    };
    let r = eq_any(key, &options);
    proof {
        if r {
            let i = choose|i: int| 0 <= i < options@.len() && #[trigger] options@[i]@ == key@;
            assert(options@[i]@ == key@);
        } else {
            assert forall|i: int| 0 <= i < options@.len() implies #[trigger] options@[i]@ != key@ by {}
            if module@ == "debugConsole"@ {
                assert(options@[0]@ != key@ && options@[1]@ != key@ && options@[2]@ != key@ && options@[3]@ != key@
                    && options@[4]@ != key@ && options@[5]@ != key@ && options@[6]@ != key@);
            } else if module@ == "modloaderUi"@ {
                assert(options@[0]@ != key@ && options@[1]@ != key@ && options@[2]@ != key@ && options@[3]@ != key@);
            } else if module@ == "runtimeDiagnostics"@ {
                assert(options@[0]@ != key@ && options@[1]@ != key@ && options@[2]@ != key@ && options@[3]@ != key@ && options@[4]@ != key@);
            } else if module@ == "updates.system"@ {
                assert(options@[0]@ != key@ && options@[1]@ != key@ && options@[2]@ != key@);
            }
        }
    }
    r
}

fn strings_view(v: Vec<String>) -> (r: Vec<String>)
    ensures
        r == v,
{
    v
}

/// Where the Settings view stores one setting in the loader configuration, as
/// the keys from the document's root.
pub fn setting_path(scope: &str, module: Option<&str>, key: &str) -> (r: Result<Vec<String>, String>)
    ensures
        match (r, setting_path_spec(scope@, match module { Some(m) => Some(m@), None => None }, key@)) {
            (Ok(p), Ok(q)) => p@.map_values(|s: String| s@) == q,
            (Err(e), Err(f)) => e@ == f,
            _ => false,
        },
{
    proof {
        reveal_strlit("general"); reveal_strlit("logging"); reveal_strlit("module");
        reveal_strlit("compactMode"); reveal_strlit("reducedMotion"); reveal_strlit("minimumLevel");
    }
    if str_equal(scope, "general") {
        if str_equal(key, "compactMode") || str_equal(key, "reducedMotion") {
            let r = vec![String::from_str("general"), key.to_string()];
            assert(r@.map_values(|s: String| s@) =~= seq!["general"@, key@]);
            return Ok(r);
        }
        return Err(String::from_str("unsupported general setting"));
    }
    if str_equal(scope, "logging") {
        if str_equal(key, "minimumLevel") {
            let r = vec![String::from_str("logging"), key.to_string()];
            assert(r@.map_values(|s: String| s@) =~= seq!["logging"@, key@]);
            return Ok(r);
        }
        return Err(String::from_str("unsupported logging setting"));
    }
    if !str_equal(scope, "module") {
        return Err(String::from_str("unsupported settings scope"));
    }
    let m = match module {
        Some(m) => m,
        None => { return Err(String::from_str("missing module setting target")); },
    };
    if !key_allowed(m, key) {
        return Err(String::from_str("unsupported module setting"));
    }
    if str_equal(key, "window.position") {
        let r = vec![String::from_str("modules"), m.to_string(), String::from_str("window"), String::from_str("position")];
        assert(r@.map_values(|s: String| s@) =~= seq!["modules"@, m@, "window"@, "position"@]);
        return Ok(strings_view(r));
    }
    if str_equal(m, "updates.system") {
        let r = vec![String::from_str("modules"), String::from_str("updates"), String::from_str("system"), key.to_string()];
        assert(r@.map_values(|s: String| s@) =~= seq!["modules"@, "updates"@, "system"@, key@]);
        return Ok(r);
    }
    let r = vec![String::from_str("modules"), m.to_string(), key.to_string()];
    assert(r@.map_values(|s: String| s@) =~= seq!["modules"@, m@, key@]);
    Ok(r)
}

} // verus!

verus! {

/// Whether a standalone window serves a dedicated server: as `--target` says, or
/// else by which game executable the installation holds.
pub fn standalone_target(target: Option<&str>, client_executable: bool, server_executable: bool) -> (r: Result<bool, String>)
    ensures
        match target {
            Some(t) => if t@ == "server"@ {
                r == Ok::<bool, String>(true)
            } else if t@ == "client"@ {
                r == Ok::<bool, String>(false)
            } else {
                r matches Err(m) && m@ == "--target must be client or server"@
            },
            None => if client_executable && !server_executable {
                r == Ok::<bool, String>(false)
            } else if !client_executable && server_executable {
                r == Ok::<bool, String>(true)
            } else {
                r matches Err(m) && m@ == "Select an installation target with --target client or --target server"@
            },
        },
{
    match target {
        Some(t) => if str_equal(t, "server") {
            Ok(true)
        } else if str_equal(t, "client") {
            Ok(false)
        } else {
            Err(String::from_str("--target must be client or server"))
        },
        None => if client_executable && !server_executable {
            Ok(false)
        } else if !client_executable && server_executable {
            Ok(true)
        } else {
            Err(String::from_str("Select an installation target with --target client or --target server"))
        },
    }
}

/// Whether the game process a window attaches to is a dedicated server, by the
/// file name of its executable in any case of ASCII letters.
pub fn process_target(file_name: Option<&str>) -> (r: Result<bool, String>)
    ensures
        match file_name {
            Some(n) => if lower_spec(n@) == "enshrouded_server.exe"@ {
                r == Ok::<bool, String>(true)
            } else if lower_spec(n@) == "enshrouded.exe"@ {
                r == Ok::<bool, String>(false)
            } else {
                r matches Err(m) && m@ == "Target process is not an Enshrouded client or dedicated server"@
            },
            None => r matches Err(m) && m@ == "Target process is not an Enshrouded client or dedicated server"@,
        },
{
    match file_name {
        Some(n) => {
            let lower = to_lowercase(n);
            if str_equal(lower.as_str(), "enshrouded_server.exe") {
                Ok(true)
            } else if str_equal(lower.as_str(), "enshrouded.exe") {
                Ok(false)
            } else {
                Err(String::from_str("Target process is not an Enshrouded client or dedicated server"))
            }
        },
        None => Err(String::from_str("Target process is not an Enshrouded client or dedicated server")),
    }
}

/// How the control window names its connection: standalone or attached, client or
/// server.
pub fn connection_mode(standalone: bool, server: bool) -> (r: &'static str)
    ensures
        standalone && server ==> r@ == "STANDALONE SERVER"@,
        standalone && !server ==> r@ == "STANDALONE CLIENT"@,
        !standalone && !server ==> r@ == "CLIENT"@,
        !standalone && server ==> r@ == "SERVER"@,
{
    if standalone {
        if server { "STANDALONE SERVER" } else { "STANDALONE CLIENT" }
    } else if !server {
        "CLIENT"
    } else {
        "SERVER"
    }
}

/// The language of the control window: the user's, when it is a valid locale,
/// else German.
pub fn display_locale(locale: Option<String>) -> (r: String)
    ensures
        match locale {
            Some(l) => if crate::ident::is_locale(l@) { r == l } else { r@ == "de"@ },
            None => r@ == "de"@,
        },
{
    match locale {
        Some(l) => if crate::ident::is_valid_locale(l.as_str()) { l } else { String::from_str("de") },
        None => String::from_str("de"),
    }
}

} // verus!

verus! {

/// The name under which a removed mod is kept in the trash: its id and the time of
/// removal, with the package file's extension for a file package.
pub open spec fn trash_name_spec(id: Seq<char>, timestamp: u64, extension: Option<Seq<char>>, is_file: bool) -> Seq<char> {
    match extension {
        Some(e) => if is_file {
            id + "-"@ + crate::text::decimal_spec(timestamp as nat) + "."@ + e
        } else {
            id + "-"@ + crate::text::decimal_spec(timestamp as nat)
        },
        None => id + "-"@ + crate::text::decimal_spec(timestamp as nat),
    }
}

/// The trash name of a removed mod.
pub fn trash_name(id: &str, timestamp: u64, extension: Option<&str>, is_file: bool) -> (r: String)
    ensures
        r@ == trash_name_spec(id@, timestamp, match extension { Some(e) => Some(e@), None => None }, is_file),
{
    let time = crate::text::decimal(timestamp);
    proof {
        reveal_strlit("");
    }
    match extension {
        Some(e) => if is_file {
            concat5(id, "-", time.as_str(), ".", e)
        } else {
            concat5(id, "-", time.as_str(), "", "")
        },
        None => concat5(id, "-", time.as_str(), "", ""),
    }
}

/// The build number of the installed release: the recorded number, or a recorded
/// text that reads as one, else zero.
pub fn installed_build(number: Option<u64>, text: Option<&str>) -> (r: u64)
    ensures
        r == match number {
            Some(n) => n,
            None => match text {
                Some(t) => match parsed_u64(t@) {
                    Some(n) => n,
                    None => 0,
                },
                None => 0,
            },
        },
{
    match number {
        Some(n) => n,
        None => match text {
            Some(t) => match parse_u64(&chars_of(t)) {
                Some(n) => n,
                None => 0,
            },
            None => 0,
        },
    }
}

} // verus!
