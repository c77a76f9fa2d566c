//! Validation of the identifiers that packages, notifications and locales use.
use vstd::prelude::*;
use crate::text::chars_of;

verus! {

/// The characters an identifier-like value may contain.
#[derive(Clone, Copy, PartialEq, Eq, Structural, Debug)]
pub enum CharClass {
    /// Letters, digits, `.`, `-`, `_`.
    Identifier,
    /// Lowercase letters, digits, `.`, `-`.
    ModId,
    /// Letters, digits, `.`, `-`, `_`, `:`, `+`.
    NewsId,
    /// Letters, digits, `.`, `-`, `_`, `+`.
    EventFile,
    /// Letters, digits, `-`.
    Locale,
    /// Hexadecimal digits.
    Hex,
}

pub open spec fn is_ascii_alnum(c: char) -> bool {
    ('0' <= c <= '9') || ('A' <= c <= 'Z') || ('a' <= c <= 'z')
}

pub open spec fn is_hex_digit(c: char) -> bool {
    ('0' <= c <= '9') || ('A' <= c <= 'F') || ('a' <= c <= 'f')
}

pub open spec fn class_allows(class: CharClass, c: char) -> bool {
    match class {
        CharClass::Identifier => is_ascii_alnum(c) || c == '.' || c == '-' || c == '_',
        CharClass::ModId => ('0' <= c <= '9') || ('a' <= c <= 'z') || c == '.' || c == '-',
        CharClass::NewsId => is_ascii_alnum(c) || c == '.' || c == '-' || c == '_' || c == ':' || c == '+',
        CharClass::EventFile => is_ascii_alnum(c) || c == '.' || c == '-' || c == '_' || c == '+',
        CharClass::Locale => is_ascii_alnum(c) || c == '-',
        CharClass::Hex => is_hex_digit(c),
    }
}

pub open spec fn all_in_class(s: Seq<char>, class: CharClass) -> bool {
    forall|i: int| 0 <= i < s.len() ==> class_allows(class, #[trigger] s[i])
}

pub fn char_allowed(class: CharClass, c: char) -> (r: bool)
    ensures
        r == class_allows(class, c),
{
    let alnum = ('0' <= c && c <= '9') || ('A' <= c && c <= 'Z') || ('a' <= c && c <= 'z');
    match class {
        CharClass::Identifier => alnum || c == '.' || c == '-' || c == '_',
        CharClass::ModId => ('0' <= c && c <= '9') || ('a' <= c && c <= 'z') || c == '.' || c == '-',
        CharClass::NewsId => alnum || c == '.' || c == '-' || c == '_' || c == ':' || c == '+',
        CharClass::EventFile => alnum || c == '.' || c == '-' || c == '_' || c == '+',
        CharClass::Locale => alnum || c == '-',
        CharClass::Hex => ('0' <= c && c <= '9') || ('A' <= c && c <= 'F') || ('a' <= c && c <= 'f'),
    }
}

/// Whether every character of `s` belongs to `class`.
pub fn chars_in_class(s: &Vec<char>, class: CharClass) -> (r: bool)
    ensures
        r == all_in_class(s@, class),
{
    for i in 0..s.len()
        invariant
            forall|j: int| 0 <= j < i ==> class_allows(class, #[trigger] s@[j]),
    {
        if !char_allowed(class, s[i]) {
            return false;
        }
    }
    true
}

/// A value of 1 to `max` characters, all of `class`, that is not `.` or `..` when
/// `reject_dots` is set. Non-ASCII text never qualifies, so the character count
/// equals the byte length the checks are stated in.
pub open spec fn bounded_name(s: Seq<char>, max: nat, class: CharClass, reject_dots: bool) -> bool {
    &&& 0 < s.len() <= max
    &&& all_in_class(s, class)
    &&& reject_dots ==> s != seq!['.'] && s != seq!['.', '.']
}

fn bounded_name_check(s: &str, max: usize, class: CharClass, reject_dots: bool) -> (r: bool)
    ensures
        r == bounded_name(s@, max as nat, class, reject_dots),
{
    let cs = chars_of(s);
    if cs.len() == 0 || cs.len() > max {
        return false;
    }
    if reject_dots {
        let one_dot = cs.len() == 1 && cs[0] == '.';
        let two_dots = cs.len() == 2 && cs[0] == '.' && cs[1] == '.';
        if one_dot {
            assert(cs@ =~= seq!['.']);
            return false;
        }
        if two_dots {
            assert(cs@ =~= seq!['.', '.']);
            return false;
        }
        proof {
            if cs@ == seq!['.'] { assert(cs@[0] == '.'); }
            if cs@ == seq!['.', '.'] { assert(cs@[0] == '.' && cs@[1] == '.'); }
        }
    }
    chars_in_class(&cs, class)
}

/// A mod id: 1 to 80 lowercase letters, digits, `.` or `-`, and not `.` or `..`.
pub open spec fn is_valid_id(id: Seq<char>) -> bool {
    bounded_name(id, 80, CharClass::ModId, true)
}

/// A setting key, group id, action or mod id used in a runtime API call.
pub open spec fn is_identifier(value: Seq<char>) -> bool {
    bounded_name(value, 80, CharClass::Identifier, false)
}

/// Decides whether `id` may name a mod package.
pub fn valid_id(id: &str) -> (r: bool)
    ensures
        r == is_valid_id(id@),
{
    bounded_name_check(id, 80, CharClass::ModId, true)
}

/// Decides whether `value` is a valid identifier (setting key, action, group id).
pub fn valid_identifier(value: &str) -> (r: bool)
    ensures
        r == is_identifier(value@),
{
    bounded_name_check(value, 80, CharClass::Identifier, false)
}

/// A news message id: 1 to 200 characters of letters, digits, `.`, `-`, `_`, `:`, `+`.
pub fn valid_news_id(value: &str) -> (r: bool)
    ensures
        r == bounded_name(value@, 200, CharClass::NewsId, false),
{
    bounded_name_check(value, 200, CharClass::NewsId, false)
}

/// A notification file stem: 1 to 240 characters of letters, digits, `.`, `-`, `_`, `+`,
/// and not `.` or `..`.
pub fn valid_event_filename(value: &str) -> (r: bool)
    ensures
        r == bounded_name(value@, 240, CharClass::EventFile, true),
{
    bounded_name_check(value, 240, CharClass::EventFile, true)
}

/// A catalog project id: 1 to 128 letters, digits, `-`, `_` or `.`.
pub fn valid_project_id(value: &str) -> (r: bool)
    ensures
        r == bounded_name(value@, 128, CharClass::Identifier, false),
{
    bounded_name_check(value, 128, CharClass::Identifier, false)
}

/// `--` occurs somewhere in `s`.
pub open spec fn has_double_dash(s: Seq<char>) -> bool {
    exists|i: int| 0 <= i && i + 1 < s.len() && #[trigger] s[i] == '-' && s[i + 1] == '-'
}

/// A UI locale tag: 2 to 35 letters, digits or single hyphens, not starting or
/// ending with a hyphen.
pub open spec fn is_locale(s: Seq<char>) -> bool {
    &&& 2 <= s.len() <= 35
    &&& s[0] != '-'
    &&& s[s.len() - 1] != '-'
    &&& !has_double_dash(s)
    &&& all_in_class(s, CharClass::Locale)
}

pub fn is_valid_locale(locale: &str) -> (r: bool)
    ensures
        r == is_locale(locale@),
{
    let cs = chars_of(locale);
    let n = cs.len();
    if n < 2 || n > 35 || cs[0] == '-' || cs[n - 1] == '-' {
        return false;
    }
    let mut i: usize = 0;
    while i + 1 < n
        invariant
            n == cs@.len(),
            cs@ == locale@,
            2 <= n,
            i + 1 <= n,
            forall|j: int| 0 <= j < i ==> !(#[trigger] cs@[j] == '-' && cs@[j + 1] == '-'),
        decreases n - i,
    {
        if cs[i] == '-' && cs[i + 1] == '-' {
            assert(has_double_dash(locale@));
            return false;
        }
        i = i + 1;
    }
    chars_in_class(&cs, CharClass::Locale)
}

/// A SHA-256 checksum in hexadecimal: exactly 64 hex digits.
pub open spec fn is_sha256_hex(s: Seq<char>) -> bool {
    s.len() == 64 && all_in_class(s, CharClass::Hex)
}

pub fn valid_sha256_hex(s: &str) -> (r: bool)
    ensures
        r == is_sha256_hex(s@),
{
    let cs = chars_of(s);
    cs.len() == 64 && chars_in_class(&cs, CharClass::Hex)
}

} // verus!
