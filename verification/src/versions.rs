//! Semantic-version requirements, evaluated by the `semver` crate.
use vstd::prelude::*;

verus! {

/// What `semver` answers when `requirement` is parsed with `VersionReq::parse`,
/// `version` with `Version::parse`, and the first is evaluated against the second
/// with `VersionReq::matches`: `None` when either text does not parse.
pub uninterp spec fn semver_requirement_matches(requirement: Seq<char>, version: Seq<char>) -> Option<bool>;

/// Whether `requirement` parses with `semver::VersionReq::parse`.
pub uninterp spec fn semver_requirement_parses(requirement: Seq<char>) -> bool;

/// Whether `version` parses with `semver::Version::parse`.
pub uninterp spec fn semver_version_parses(version: Seq<char>) -> bool;

/// Evaluates a version requirement against a version with the `semver` crate
/// (`VersionReq::parse`, `Version::parse`, `VersionReq::matches`). The contract
/// only names the answer; nothing of semver's matching rules is claimed here.
#[verifier::external_body]
pub fn requirement_matches(requirement: &str, version: &str) -> (r: Option<bool>)
    ensures
        r == semver_requirement_matches(requirement@, version@),
        r is Some <==> (semver_requirement_parses(requirement@) && semver_version_parses(version@)),
{
    match (semver::VersionReq::parse(requirement), semver::Version::parse(version)) {
        (Ok(requirement), Ok(version)) => Some(requirement.matches(&version)),
        _ => None,
    }
}

/// Whether `semver::Version::parse` accepts `version`; the contract names the answer.
#[verifier::external_body]
pub fn version_parses(version: &str) -> (r: bool)
    ensures
        r == semver_version_parses(version@),
{
    semver::Version::parse(version).is_ok()
}

} // verus!

verus! {

/// How `semver` writes a parsed requirement back (`Display` of `VersionReq`), for
/// a requirement that parses.
pub uninterp spec fn semver_requirement_display(requirement: Seq<char>) -> Seq<char>;

/// The message of `semver`'s error for a requirement text that does not parse.
pub uninterp spec fn semver_requirement_error(requirement: Seq<char>) -> Seq<char>;

/// Parses `requirement` with `semver::VersionReq::parse`: `Ok` exactly when it
/// parses, with the requirement written back by its `Display`; otherwise `Err` with
/// the `Display` of the error. The contract names both texts.
#[verifier::external_body]
pub fn parse_requirement(requirement: &str) -> (r: Result<String, String>)
    ensures
        r is Ok <==> semver_requirement_parses(requirement@),
        r matches Ok(s) ==> s@ == semver_requirement_display(requirement@),
        r matches Err(e) ==> e@ == semver_requirement_error(requirement@),
{
    match semver::VersionReq::parse(requirement) {
        Ok(parsed) => Ok(format!("{parsed}")),
        Err(error) => Err(format!("{error}")),
    }
}

} // verus!

verus! {

/// Whether `a` precedes `b` in semantic-version precedence, both parsed with
/// `semver::Version::parse`; `None` when either does not parse.
pub uninterp spec fn semver_precedes(a: Seq<char>, b: Seq<char>) -> Option<bool>;

/// Compares two versions with `semver`'s ordering (`Version::parse`, then `<`):
/// `None` when either does not parse; otherwise the contract names the answer.
#[verifier::external_body]
pub fn version_precedes(a: &str, b: &str) -> (r: Option<bool>)
    ensures
        r is Some <==> (semver_version_parses(a@) && semver_version_parses(b@)),
        r matches Some(x) ==> Some(x) == semver_precedes(a@, b@),
{
    match (semver::Version::parse(a), semver::Version::parse(b)) {
        (Ok(x), Ok(y)) => Some(x < y),
        _ => None,
    }
}

/// Whether two texts parse (`semver::Version::parse`) to equal versions; `None`
/// when either does not parse.
pub uninterp spec fn semver_equals(a: Seq<char>, b: Seq<char>) -> Option<bool>;

/// Tests two versions for equality with `semver`'s `==`: `None` when either does
/// not parse; otherwise the contract names the answer.
#[verifier::external_body]
pub fn version_equals(a: &str, b: &str) -> (r: Option<bool>)
    ensures
        r is Some <==> (semver_version_parses(a@) && semver_version_parses(b@)),
        r matches Some(x) ==> Some(x) == semver_equals(a@, b@),
{
    match (semver::Version::parse(a), semver::Version::parse(b)) {
        (Ok(x), Ok(y)) => Some(x == y),
        _ => None,
    }
}

/// The message of `semver`'s error for a version text that does not parse.
pub uninterp spec fn semver_version_error(version: Seq<char>) -> Seq<char>;

/// Parses `version` with `semver::Version::parse`: `None` when it parses;
/// otherwise the `Display` of the error, which the contract names.
#[verifier::external_body]
pub fn version_error(version: &str) -> (r: Option<String>)
    ensures
        r is None <==> semver_version_parses(version@),
        r matches Some(m) ==> m@ == semver_version_error(version@),
{
    match semver::Version::parse(version) {
        Ok(_) => None,
        Err(error) => Some(format!("{error}")),
    }
}

} // verus!
