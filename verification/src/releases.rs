//! The system update check against GitHub releases: where the latest release is
//! asked for, which of its files are the package and its checksum, and what the
//! Updates view says about the answer.
use vstd::prelude::*;
use crate::text::{chars_of, string_of, str_equal, starts_with, str_starts_with, concat3, concat5, matches_at};
use crate::ui::{trim_end_spec, trim_end_chars, without_v, trim_v, release_checksum, release_message,
    parse_release_tag, is_update_available, update_available_spec, first_word, parse_release_tag_spec};
use crate::updater::lower_spec;
use crate::ident::is_hex_digit;
use crate::contract::is_whitespace;

verus! {

/// `s` ends with `suffix` (`str::ends_with`).
pub open spec fn ends_with(s: Seq<char>, suffix: Seq<char>) -> bool {
    s.len() >= suffix.len() && s.subrange(s.len() - suffix.len(), s.len() as int) == suffix
}

/// Whether `s` ends with `suffix`.
pub fn str_ends_with(s: &str, suffix: &str) -> (r: bool)
    ensures
        r == ends_with(s@, suffix@),
{
    let x = chars_of(s);
    let y = chars_of(suffix);
    if y.len() > x.len() {
        return false;
    }
    matches_at(&x, &y, x.len() - y.len())
}

/// `s` without its leading slashes.
pub open spec fn without_leading_slashes(s: Seq<char>) -> Seq<char>
    decreases s.len(),
{
    if s.len() > 0 && s[0] == '/' { without_leading_slashes(s.drop_first()) } else { s }
}

fn trim_leading_slashes(s: Vec<char>) -> (r: Vec<char>)
    ensures
        r@ == without_leading_slashes(s@),
{
    let mut i: usize = 0;
    assert(s@.skip(0) =~= s@);
    while i < s.len() && s[i] == '/'
        invariant
            i <= s@.len(),
            without_leading_slashes(s@.skip(i as int)) == without_leading_slashes(s@),
        decreases s.len() - i,
    {
        assert(s@.skip(i as int).drop_first() =~= s@.skip(i + 1));
        i = i + 1;
    }
    let mut out: Vec<char> = Vec::new();
    let mut k = i;
    while k < s.len()
        invariant
            i <= k <= s@.len(),
            out@ == s@.subrange(i as int, k as int),
        decreases s.len() - k,
    {
        out.push(s[k]);
        k = k + 1;
        assert(out@ =~= s@.subrange(i as int, k as int));
    }
    assert(out@ =~= s@.skip(i as int));
    out
}

/// Where the latest release of `project` is asked for: the base URL without
/// trailing slashes, the project without slashes around it.
pub open spec fn latest_release_url_spec(base_url: Seq<char>, project: Seq<char>) -> Seq<char> {
    trim_end_spec(base_url, true) + "/repos/"@ + trim_end_spec(without_leading_slashes(project), true)
        + "/releases/latest"@
}

/// The URL of the latest release of the configured project.
pub fn latest_release_url(base_url: &str, project: &str) -> (r: String)
    ensures
        r@ == latest_release_url_spec(base_url@, project@),
{
    let base = string_of(&trim_end_chars(chars_of(base_url), true));
    let name = string_of(&trim_end_chars(trim_leading_slashes(chars_of(project)), true));
    proof {
        reveal_strlit("");
    }
    concat5(base.as_str(), "/repos/", name.as_str(), "/releases/latest", "")
}

/// The update provider must be GitHub releases.
pub fn update_provider_check(kind: &str) -> (r: Result<(), String>)
    ensures
        r is Ok <==> kind@ == "github-releases"@,
        r matches Err(m) ==> m@ == "unsupported update provider: "@ + kind@,
{
    if str_equal(kind, "github-releases") {
        Ok(())
    } else {
        proof {
            reveal_strlit("");
        }
        Err(concat3("unsupported update provider: ", kind, ""))
    }
}

/// A release file that holds a ShroudForge package.
pub open spec fn package_asset(name: Seq<char>) -> bool {
    starts_with(name, "shroudforge-"@) && ends_with(name, ".zip"@)
}

/// The files of a release that the update uses: the first ShroudForge package and
/// the first checksum file named after it, by their positions among the release's
/// files.
pub fn release_assets(names: &Vec<String>) -> (r: Result<(usize, usize), String>)
    ensures
        match r {
            Ok((archive, checksum)) => {
                &&& archive < names@.len() && package_asset(names@[archive as int]@)
                &&& forall|j: int| 0 <= j < archive ==> !package_asset(#[trigger] names@[j]@)
                &&& checksum < names@.len() && names@[checksum as int]@ == names@[archive as int]@ + ".sha256"@
                &&& forall|j: int| 0 <= j < checksum ==> #[trigger] names@[j]@ != names@[archive as int]@ + ".sha256"@
            },
            Err(m) => {
                ||| (forall|j: int| 0 <= j < names@.len() ==> !package_asset(#[trigger] names@[j]@))
                    && m@ == "GitHub release does not contain a ShroudForge ZIP"@
                ||| (exists|a: int| 0 <= a < names@.len() && package_asset(#[trigger] names@[a]@)
                    && (forall|j: int| 0 <= j < a ==> !package_asset(#[trigger] names@[j]@))
                    && (forall|j: int| 0 <= j < names@.len() ==> #[trigger] names@[j]@ != names@[a]@ + ".sha256"@))
                    && m@ == "GitHub release does not contain a matching .zip.sha256 file"@
            },
        },
{
    let mut a: usize = 0;
    while a < names.len() && !(str_starts_with(names[a].as_str(), "shroudforge-") && str_ends_with(names[a].as_str(), ".zip"))
        invariant
            a <= names@.len(),
            forall|j: int| 0 <= j < a ==> !package_asset(#[trigger] names@[j]@),
        decreases names@.len() - a,
    {
        a = a + 1;
    }
    if a == names.len() {
        return Err(String::from_str("GitHub release does not contain a ShroudForge ZIP"));
    }
    assert(package_asset(names@[a as int]@));
    let expected = concat3(names[a].as_str(), ".sha256", "");
    proof {
        reveal_strlit("");
    }
    for i in 0..names.len()
        invariant
            a < names@.len(),
            package_asset(names@[a as int]@),
            forall|j: int| 0 <= j < a ==> !package_asset(#[trigger] names@[j]@),
            expected@ == names@[a as int]@ + ".sha256"@,
            forall|j: int| 0 <= j < i ==> #[trigger] names@[j]@ != expected@,
    {
        if str_equal(names[i].as_str(), expected.as_str()) {
            return Ok((a, i));
        }
    }
    Err(String::from_str("GitHub release does not contain a matching .zip.sha256 file"))
}

/// A release that the Updates view can offer.
#[derive(Debug)]
pub struct Release {
    /// The tag without its leading `v`s.
    pub version: String,
    pub base_version: String,
    pub build: u64,
    pub download_url: String,
    pub checksum: String,
    pub release_url: Option<String>,
    pub message: String,
}

/// The release described by GitHub's answer: its tag, page, notes, the download URL
/// of its package and the text of its checksum file. The checksum must be valid
/// and the tag must name a version and a build.
pub fn release_from(tag: &str, html_url: String, body: String, download_url: String, checksum_text: &str) -> (r: Result<Release, String>)
    ensures
        ({
            let word = lower_spec(first_word(checksum_text@));
            let valid = word.len() == 64 && forall|i: int| 0 <= i < word.len() ==> is_hex_digit(#[trigger] word[i]);
            &&& !valid ==> (r matches Err(m) && m@ == "GitHub release does not contain a valid SHA-256 checksum"@)
            &&& valid ==> match parse_release_tag_spec(without_v(tag@)) {
                Err(e) => r matches Err(m) && m@ == e,
                Ok((v, n)) => r matches Ok(rel) && {
                    &&& rel.version@ == without_v(tag@)
                    &&& rel.base_version@ == v
                    &&& rel.build == n
                    &&& rel.download_url == download_url
                    &&& rel.checksum@ == word
                    &&& rel.release_url == Some(html_url)
                    &&& (forall|i: int| 0 <= i < body@.len() ==> is_whitespace(#[trigger] body@[i]))
                        ==> rel.message@ == "A new ShroudForge version is available on GitHub."@
                    &&& !(forall|i: int| 0 <= i < body@.len() ==> is_whitespace(#[trigger] body@[i]))
                        ==> rel.message == body
                },
            }
        }),
{
    let checksum = match release_checksum(checksum_text) {
        Ok(c) => c,
        Err(e) => return Err(e),
    };
    let version = string_of(&trim_v(tag));
    let (base_version, build) = match parse_release_tag(version.as_str()) {
        Ok(p) => p,
        Err(e) => return Err(e),
    };
    Ok(Release {
        version,
        base_version,
        build,
        download_url,
        checksum,
        release_url: Some(html_url),
        message: release_message(body),
    })
}

/// What a check answered and the Updates view shows.
#[derive(Debug)]
pub struct CheckResult {
    /// `ready` or `error`.
    pub state: String,
    pub update_available: bool,
    pub latest_version: Option<String>,
    pub release_url: Option<String>,
    pub message: String,
    /// The outcome reported to whoever asked: a detail on success, else the error.
    pub outcome: Result<String, String>,
    /// The key of the message shown for the outcome.
    pub notice_key: String,
}

/// The result of a check that found `answer` while `current` (build
/// `current_build`) is installed. The release found, if any, is handed back.
pub fn check_result(current: &str, current_build: u64, answer: Result<Option<Release>, String>)
    -> (r: (CheckResult, Option<Release>))
    ensures
        match answer {
            Ok(Some(rel)) => {
                let available = update_available_spec(current@, current_build, rel.base_version@, rel.build);
                &&& r.1 == Some(rel)
                &&& r.0.state@ == "ready"@
                &&& r.0.update_available == available
                &&& r.0.latest_version == Some(rel.version)
                &&& r.0.release_url == rel.release_url
                &&& available ==> r.0.message == rel.message
                    && (r.0.outcome matches Ok(d) && d@ == "Update "@ + rel.version@ + " is available."@)
                    && r.0.notice_key@ == "updates.check.available"@
                &&& !available ==> r.0.message@ == "ShroudForge is up to date."@
                    && (r.0.outcome matches Ok(d) && d@ == "ShroudForge is up to date."@)
                    && r.0.notice_key@ == "updates.check.upToDate"@
            },
            Ok(None) => {
                &&& r.1 is None
                &&& r.0.state@ == "ready"@
                &&& !r.0.update_available
                &&& r.0.latest_version is None
                &&& r.0.release_url is None
                &&& r.0.message@ == "No ShroudForge release has been published on GitHub yet."@
                &&& r.0.outcome matches Ok(d) && d@ == "No ShroudForge release has been published yet."@
                &&& r.0.notice_key@ == "updates.check.none"@
            },
            Err(e) => {
                &&& r.1 is None
                &&& r.0.state@ == "error"@
                &&& !r.0.update_available
                &&& r.0.latest_version is None
                &&& r.0.release_url is None
                &&& r.0.message == e
                &&& r.0.outcome == Err::<String, String>(e)
                &&& r.0.notice_key@ == "updates.check.upToDate"@
            },
        },
{
    match answer {
        Ok(Some(rel)) => {
            let available = is_update_available(current, current_build, rel.base_version.as_str(), rel.build);
            let (message, outcome, key) = if available {
                (rel.message.clone(), concat3("Update ", rel.version.as_str(), " is available."),
                    String::from_str("updates.check.available"))
            } else {
                (String::from_str("ShroudForge is up to date."), String::from_str("ShroudForge is up to date."),
                    String::from_str("updates.check.upToDate"))
            };
            let result = CheckResult {
                state: String::from_str("ready"),
                update_available: available,
                latest_version: Some(rel.version.clone()),
                release_url: clone_option(&rel.release_url),
                message,
                outcome: Ok(outcome),
                notice_key: key,
            };
            (result, Some(rel))
        },
        Ok(None) => (CheckResult {
            state: String::from_str("ready"),
            update_available: false,
            latest_version: None,
            release_url: None,
            message: String::from_str("No ShroudForge release has been published on GitHub yet."),
            outcome: Ok(String::from_str("No ShroudForge release has been published yet.")),
            notice_key: String::from_str("updates.check.none"),
        }, None),
        Err(e) => (CheckResult {
            state: String::from_str("error"),
            update_available: false,
            latest_version: None,
            release_url: None,
            message: e.clone(),
            outcome: Err(e),
            notice_key: String::from_str("updates.check.upToDate"),
        }, None),
    }
}

fn clone_option(s: &Option<String>) -> (r: Option<String>)
    ensures
        r == *s,
{
    match s {
        Some(v) => Some(v.clone()),
        None => None,
    }
}

/// Whether a check may start: not while one runs or a download is under way, and
/// not with checks disabled.
#[derive(Clone, Copy, PartialEq, Eq, Structural, Debug)]
pub enum CheckStart {
    Busy,
    Disabled,
    Start,
}

/// Whether a check may start from the view's state with checks `enabled`.
pub fn check_start(state: &str, enabled: bool) -> (r: CheckStart)
    ensures
        (state@ == "checking"@ || state@ == "downloading"@) ==> r == CheckStart::Busy,
        !(state@ == "checking"@ || state@ == "downloading"@) && !enabled ==> r == CheckStart::Disabled,
        !(state@ == "checking"@ || state@ == "downloading"@) && enabled ==> r == CheckStart::Start,
{
    if str_equal(state, "checking") || str_equal(state, "downloading") {
        CheckStart::Busy
    } else if !enabled {
        CheckStart::Disabled
    } else {
        CheckStart::Start
    }
}

} // verus!
