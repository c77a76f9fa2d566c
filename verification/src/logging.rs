//! The canonical ShroudForge log line and the level filter of the loader settings.
//!
//! A line reads `[L HH:MM:SS,mmm] [source] message`, with the process's elapsed
//! time, on one physical line.
use vstd::prelude::*;
use crate::text::{chars_of, string_of, extend_chars, push_decimal, decimal_spec, str_starts_with, starts_with, matches_at, occurs_at};

verus! {

/// `n` in decimal, padded with zeros to at least `width` digits (`{:0width$}`).
pub open spec fn padded(n: nat, width: nat) -> Seq<char> {
    let digits = decimal_spec(n);
    if digits.len() >= width {
        digits
    } else {
        Seq::new((width - digits.len()) as nat, |i: int| '0') + digits
    }
}

fn push_padded(v: &mut Vec<char>, n: u64, width: usize)
    requires
        width <= 3,
    ensures
        final(v)@ == old(v)@ + padded(n as nat, width as nat),
{
    let mut digits: Vec<char> = Vec::new();
    push_decimal(&mut digits, n);
    assert(digits@ =~= decimal_spec(n as nat));
    let ghost start = v@;
    if digits.len() < width {
        let zeros = width - digits.len();
        let mut k: usize = 0;
        while k < zeros
            invariant
                k <= zeros,
                v@ == start + Seq::new(k as nat, |i: int| '0'),
            decreases zeros - k,
        {
            v.push('0');
            k = k + 1;
            assert(v@ =~= start + Seq::new(k as nat, |i: int| '0'));
        }
    }
    let ghost middle = v@;
    for i in 0..digits.len()
        invariant
            v@ == middle + digits@.take(i as int),
    {
        v.push(digits[i]);
        assert(v@ =~= middle + digits@.take(i + 1));
    }
    assert(digits@.take(digits@.len() as int) =~= digits@);
    assert(v@ =~= start + padded(n as nat, width as nat));
}

/// The elapsed time `ms` (milliseconds) as `HH:MM:SS,mmm`; hours are not wrapped.
pub open spec fn timestamp_spec(ms: u64) -> Seq<char> {
    let seconds = ms / 1000;
    padded((seconds / 3600) as nat, 2) + seq![':'] + padded((seconds / 60 % 60) as nat, 2) + seq![':']
        + padded((seconds % 60) as nat, 2) + seq![','] + padded((ms % 1000) as nat, 3)
}

/// Formats the process's elapsed time, `elapsed_ms` milliseconds, for a log line.
pub fn timestamp(elapsed_ms: u64) -> (r: String)
    ensures
        r@ == timestamp_spec(elapsed_ms),
{
    let seconds = elapsed_ms / 1000;
    let mut v: Vec<char> = Vec::new();
    push_padded(&mut v, seconds / 3600, 2);
    v.push(':');
    push_padded(&mut v, seconds / 60 % 60, 2);
    v.push(':');
    push_padded(&mut v, seconds % 60, 2);
    v.push(',');
    push_padded(&mut v, elapsed_ms % 1000, 3);
    assert(v@ =~= timestamp_spec(elapsed_ms));
    string_of(&v)
}

/// One character escaped so that a line stays physical: a carriage return becomes
/// `\r` and a line feed `\n`, both as two visible characters.
pub open spec fn escape_char(c: char) -> Seq<char> {
    if c == '\r' {
        seq!['\\', 'r']
    } else if c == '\n' {
        seq!['\\', 'n']
    } else {
        seq![c]
    }
}

/// The text with every line break escaped.
pub open spec fn single_line_spec(s: Seq<char>) -> Seq<char>
    decreases s.len(),
{
    if s.len() == 0 {
        Seq::empty()
    } else {
        single_line_spec(s.drop_last()) + escape_char(s.last())
    }
}

/// A log source: escaped like a message, and with every `]` replaced by `_` so that
/// it cannot close its bracket.
pub open spec fn source_spec(s: Seq<char>) -> Seq<char>
    decreases s.len(),
{
    if s.len() == 0 {
        Seq::empty()
    } else {
        source_spec(s.drop_last()) + if s.last() == ']' { seq!['_'] } else { escape_char(s.last()) }
    }
}

fn push_single_line(v: &mut Vec<char>, s: &str, source: bool)
    ensures
        final(v)@ == old(v)@ + if source { source_spec(s@) } else { single_line_spec(s@) },
{
    let cs = chars_of(s);
    let ghost start = v@;
    for i in 0..cs.len()
        invariant
            cs@ == s@,
            v@ == start + if source { source_spec(cs@.take(i as int)) } else { single_line_spec(cs@.take(i as int)) },
    {
        let c = cs[i];
        proof {
            assert(cs@.take(i + 1).drop_last() =~= cs@.take(i as int));
            assert(cs@.take(i + 1).last() == c);
        }
        if source && c == ']' {
            v.push('_');
        } else if c == '\r' {
            v.push('\\');
            v.push('r');
        } else if c == '\n' {
            v.push('\\');
            v.push('n');
        } else {
            v.push(c);
        }
        proof {
            let t = cs@.take(i + 1);
            if source {
                assert(source_spec(t) == source_spec(cs@.take(i as int)) + if c == ']' { seq!['_'] } else { escape_char(c) });
            } else {
                assert(single_line_spec(t) == single_line_spec(cs@.take(i as int)) + escape_char(c));
            }
            assert(v@ =~= start + if source { source_spec(t) } else { single_line_spec(t) });
        }
    }
    assert(cs@.take(cs@.len() as int) =~= cs@);
}

/// `value` with its line breaks escaped.
pub fn single_line(value: &str) -> (r: String)
    ensures
        r@ == single_line_spec(value@),
{
    let mut v: Vec<char> = Vec::new();
    push_single_line(&mut v, value, false);
    assert(v@ =~= single_line_spec(value@));
    string_of(&v)
}

/// The complete line for a message of `level` from `source`, at `timestamp`.
pub open spec fn line_spec(level: char, source: Seq<char>, message: Seq<char>, timestamp: Seq<char>) -> Seq<char> {
    seq!['[', level, ' '] + timestamp + seq![']', ' ', '['] + source_spec(source) + seq![']', ' ']
        + single_line_spec(message)
}

/// Formats a complete log line in the canonical layout; `timestamp` comes from
/// [`timestamp`].
pub fn format_line(level: char, source: &str, message: &str, timestamp: &str) -> (r: String)
    ensures
        r@ == line_spec(level, source@, message@, timestamp@),
{
    let mut v: Vec<char> = Vec::new();
    v.push('[');
    v.push(level);
    v.push(' ');
    extend_chars(&mut v, timestamp);
    v.push(']');
    v.push(' ');
    v.push('[');
    push_single_line(&mut v, source, true);
    v.push(']');
    v.push(' ');
    push_single_line(&mut v, message, false);
    assert(v@ =~= line_spec(level, source@, message@, timestamp@));
    string_of(&v)
}

/// The source a log event is filed under: the mod it names, or a short name for
/// the component that emitted it.
pub open spec fn event_source_spec(mod_id: Option<Seq<char>>, target: Seq<char>) -> Seq<char> {
    match mod_id {
        Some(id) => id,
        None => if starts_with(target, "shroudforge_api"@) {
            "api"@
        } else if starts_with(target, "shroudforge_package"@) {
            "package"@
        } else if starts_with(target, "shroudforge_modloader"@) {
            "runtime"@
        } else if starts_with(target, "shroudforge::"@) {
            target.skip(13)
        } else {
            target
        },
    }
}

/// Chooses the source of a log event from its `mod_id` field and its target.
pub fn event_source(mod_id: Option<&str>, target: &str) -> (r: String)
    ensures
        r@ == event_source_spec(match mod_id { Some(id) => Some(id@), None => None }, target@),
{
    match mod_id {
        Some(id) => string_of(&chars_of(id)),
        None => {
            if str_starts_with(target, "shroudforge_api") {
                String::from_str("api")
            } else if str_starts_with(target, "shroudforge_package") {
                String::from_str("package")
            } else if str_starts_with(target, "shroudforge_modloader") {
                String::from_str("runtime")
            } else if str_starts_with(target, "shroudforge::") {
                proof { reveal_strlit("shroudforge::"); }
                let cs = chars_of(target);
                let mut rest: Vec<char> = Vec::new();
                let mut i: usize = 13;
                while i < cs.len()
                    invariant
                        13 <= i <= cs@.len(),
                        cs@ == target@,
                        rest@ == cs@.subrange(13, i as int),
                    decreases cs.len() - i,
                {
                    rest.push(cs[i]);
                    i = i + 1;
                    assert(rest@ =~= cs@.subrange(13, i as int));
                }
                assert(rest@ =~= target@.skip(13));
                string_of(&rest)
            } else {
                string_of(&chars_of(target))
            }
        },
    }
}

/// The verbosity of a log level or filter: off, error, warn, info, debug, trace.
#[derive(Clone, Copy, PartialEq, Eq, Structural, Debug)]
pub enum LevelFilter {
    Off,
    Error,
    Warn,
    Info,
    Debug,
    Trace,
}

pub open spec fn verbosity(filter: LevelFilter) -> int {
    match filter {
        LevelFilter::Off => 0,
        LevelFilter::Error => 1,
        LevelFilter::Warn => 2,
        LevelFilter::Info => 3,
        LevelFilter::Debug => 4,
        LevelFilter::Trace => 5,
    }
}

/// The level a line's letter stands for; unknown letters count as info.
pub open spec fn level_of(letter: char) -> LevelFilter {
    if letter == 'T' {
        LevelFilter::Trace
    } else if letter == 'D' {
        LevelFilter::Debug
    } else if letter == 'W' {
        LevelFilter::Warn
    } else if letter == 'E' {
        LevelFilter::Error
    } else {
        LevelFilter::Info
    }
}

/// ASCII letters in upper case; every other character unchanged.
pub open spec fn upper(c: char) -> char {
    if 'a' <= c <= 'z' { ((c as u32) - 32) as char } else { c }
}

pub open spec fn upper_spec(s: Seq<char>) -> Seq<char> {
    s.map_values(|c: char| upper(c))
}

fn to_upper(s: &str) -> (r: Vec<char>)
    ensures
        r@ == upper_spec(s@),
{
    let cs = chars_of(s);
    let mut r: Vec<char> = Vec::new();
    for i in 0..cs.len()
        invariant
            cs@ == s@,
            r@ == upper_spec(cs@.take(i as int)),
    {
        let c = cs[i];
        let u = if 'a' <= c && c <= 'z' { (((c as u32) - 32) as u8) as char } else { c };
        r.push(u);
        assert(r@ =~= upper_spec(cs@.take(i + 1)));
    }
    assert(cs@.take(cs@.len() as int) =~= cs@);
    r
}

fn chars_are(v: &Vec<char>, s: &str) -> (r: bool)
    ensures
        r == (v@ == s@),
{
    let t = chars_of(s);
    crate::text::chars_equal(v, &t)
}

/// The filter that the loader settings ask for: everything off when logging is
/// disabled, else the minimum level named case-insensitively (`ALL`/`TRACE`,
/// `DEBUG`, `WARNING`/`WARN`, `ERROR`; anything else is info). Without readable
/// settings (`None`) the filter is info.
pub open spec fn configured_level_spec(settings: Option<(Option<bool>, Option<Seq<char>>)>) -> LevelFilter {
    match settings {
        None => LevelFilter::Info,
        Some((enabled, minimum)) => if enabled == Some(false) {
            LevelFilter::Off
        } else {
            let name = upper_spec(match minimum { Some(m) => m, None => "INFO"@ });
            if name == "ALL"@ || name == "TRACE"@ {
                LevelFilter::Trace
            } else if name == "DEBUG"@ {
                LevelFilter::Debug
            } else if name == "WARNING"@ || name == "WARN"@ {
                LevelFilter::Warn
            } else if name == "ERROR"@ {
                LevelFilter::Error
            } else {
                LevelFilter::Info
            }
        },
    }
}

/// `name` spells `word` (a word of capital letters) in any mix of cases.
pub open spec fn spells(name: Seq<char>, word: Seq<char>) -> bool {
    name.len() == word.len()
        && forall|i: int| 0 <= i < name.len() ==> (#[trigger] name[i] == word[i] || name[i] as u32 == word[i] as u32 + 32)
}

proof fn lemma_spells(name: Seq<char>, word: Seq<char>)
    requires
        forall|i: int| 0 <= i < word.len() ==> 'A' <= #[trigger] word[i] <= 'Z',
    ensures
        spells(name, word) <==> upper_spec(name) == word,
{
    if spells(name, word) {
        assert forall|i: int| 0 <= i < name.len() implies #[trigger] upper_spec(name)[i] == word[i] by {
            let c = name[i];
            if 'a' <= c <= 'z' {
                assert(c as u32 == word[i] as u32 + 32);
                assert(((c as u32) - 32) as char == word[i]);
            }
        }
        assert(upper_spec(name) =~= word);
    }
    if upper_spec(name) == word {
        assert forall|i: int| 0 <= i < name.len() implies (#[trigger] name[i] == word[i] || name[i] as u32 == word[i] as u32 + 32) by {
            assert(upper_spec(name)[i] == upper(name[i]));
            let c = name[i];
            if 'a' <= c <= 'z' {
                assert((((c as u32) - 32) as char) as u32 + 32 == c as u32);
            }
        }
    }
}

/// With logging not switched off, each level name written in any case selects its
/// own filter: `ALL` and `TRACE` everything, `DEBUG` debug, `WARN` and `WARNING`
/// warnings, `ERROR` errors, `INFO` (or no name) information; any other name
/// information. Switched off, nothing passes; without settings, information.
pub proof fn level_names_select_their_filter(enabled: Option<bool>, name: Seq<char>)
    ensures
        configured_level_spec(None) == LevelFilter::Info,
        configured_level_spec(Some((Some(false), Some(name)))) == LevelFilter::Off,
        enabled != Some(false) ==> configured_level_spec(Some((enabled, None))) == LevelFilter::Info,
        enabled != Some(false) ==> configured_level_spec(Some((enabled, Some(name)))) == (
            if spells(name, "ALL"@) || spells(name, "TRACE"@) {
                LevelFilter::Trace
            } else if spells(name, "DEBUG"@) {
                LevelFilter::Debug
            } else if spells(name, "WARN"@) || spells(name, "WARNING"@) {
                LevelFilter::Warn
            } else if spells(name, "ERROR"@) {
                LevelFilter::Error
            } else {
                LevelFilter::Info
            }),
{
    reveal_strlit("ALL");
    reveal_strlit("TRACE");
    reveal_strlit("DEBUG");
    reveal_strlit("WARN");
    reveal_strlit("WARNING");
    reveal_strlit("ERROR");
    reveal_strlit("INFO");
    lemma_spells(name, "ALL"@);
    lemma_spells(name, "TRACE"@);
    lemma_spells(name, "DEBUG"@);
    lemma_spells(name, "WARN"@);
    lemma_spells(name, "WARNING"@);
    lemma_spells(name, "ERROR"@);
    lemma_spells("INFO"@, "INFO"@);
    assert(upper_spec("INFO"@) =~= "INFO"@);
    assert("INFO"@ != "ALL"@ && "INFO"@ != "DEBUG"@ && "INFO"@ != "ERROR"@ && "INFO"@ != "WARNING"@);
    assert("INFO"@ != "TRACE"@) by { assert("INFO"@[0] != "TRACE"@[0]); }
    assert("INFO"@ != "WARN"@) by { assert("INFO"@[0] != "WARN"@[0]); }
}

/// Decides the level filter from the `logging.enabled` and `logging.minimumLevel`
/// settings, or from their absence.
pub fn configured_level(settings: Option<(Option<bool>, Option<&str>)>) -> (r: LevelFilter)
    ensures
        r == configured_level_spec(match settings {
            None => None,
            Some((e, m)) => Some((e, match m { Some(s) => Some(s@), None => None })),
        }),
{
    match settings {
        None => LevelFilter::Info,
        Some((enabled, minimum)) => {
            if enabled == Some(false) {
                return LevelFilter::Off;
            }
            let name = match minimum {
                Some(m) => to_upper(m),
                None => to_upper("INFO"),
            };
            if chars_are(&name, "ALL") || chars_are(&name, "TRACE") {
                LevelFilter::Trace
            } else if chars_are(&name, "DEBUG") {
                LevelFilter::Debug
            } else if chars_are(&name, "WARNING") || chars_are(&name, "WARN") {
                LevelFilter::Warn
            } else if chars_are(&name, "ERROR") {
                LevelFilter::Error
            } else {
                LevelFilter::Info
            }
        },
    }
}

/// Whether a line of level `letter` passes `filter`.
pub fn allows(letter: char, filter: LevelFilter) -> (r: bool)
    ensures
        r == (verbosity(level_of(letter)) <= verbosity(filter)),
{
    let level: u8 = if letter == 'T' { 5 } else if letter == 'D' { 4 } else if letter == 'W' { 2 } else if letter == 'E' { 1 } else { 3 };
    let limit: u8 = match filter {
        LevelFilter::Off => 0,
        LevelFilter::Error => 1,
        LevelFilter::Warn => 2,
        LevelFilter::Info => 3,
        LevelFilter::Debug => 4,
        LevelFilter::Trace => 5,
    };
    level <= limit
}

/// With logging disabled no line passes.
pub proof fn disabled_logging_allows_nothing(minimum: Option<Seq<char>>, letter: char)
    ensures
        !(verbosity(level_of(letter)) <= verbosity(configured_level_spec(Some((Some(false), minimum))))),
{
}


/// Extra fields of an event, each `name=value`, joined by single spaces.
pub open spec fn joined(fields: Seq<String>) -> Seq<char>
    decreases fields.len(),
{
    if fields.len() == 0 {
        Seq::empty()
    } else if fields.len() == 1 {
        fields[0]@
    } else {
        joined(fields.drop_last()) + seq![' '] + fields.last()@
    }
}

/// The line of a log event: the canonical line, then, when the event carries
/// extra fields, a space and the fields joined by spaces on the same line.
pub open spec fn event_line_spec(level: char, source: Seq<char>, message: Seq<char>, timestamp: Seq<char>, extra: Seq<String>) -> Seq<char> {
    line_spec(level, source, message, timestamp)
        + if extra.len() == 0 { Seq::empty() } else { seq![' '] + single_line_spec(joined(extra)) }
}

/// Formats a log event with its extra fields.
pub fn event_line(level: char, source: &str, message: &str, timestamp: &str, extra: &Vec<String>) -> (r: String)
    ensures
        r@ == event_line_spec(level, source@, message@, timestamp@, extra@),
{
    let line = format_line(level, source, message, timestamp);
    if extra.len() == 0 {
        assert(line@ =~= event_line_spec(level, source@, message@, timestamp@, extra@));
        return line;
    }
    let mut all: Vec<char> = Vec::new();
    for i in 0..extra.len()
        invariant
            extra@.len() > 0,
            all@ == joined(extra@.take(i as int)),
    {
        if i > 0 {
            all.push(' ');
        }
        extend_chars(&mut all, extra[i].as_str());
        assert(extra@.take(i + 1).drop_last() =~= extra@.take(i as int));
        assert(all@ =~= joined(extra@.take(i + 1)));
    }
    assert(extra@.take(extra@.len() as int) =~= extra@);
    let fields = single_line(string_of(&all).as_str());
    let mut v = chars_of(line.as_str());
    v.push(' ');
    extend_chars(&mut v, fields.as_str());
    assert(v@ =~= event_line_spec(level, source@, message@, timestamp@, extra@));
    string_of(&v)
}

/// The name of an archived log: `shroudforge-<seconds>.log` for the first try,
/// `shroudforge-<seconds>-<attempt>.log` from the second on.
pub open spec fn archive_name_spec(seconds: u64, attempt: u64) -> Seq<char> {
    if attempt < 2 {
        "shroudforge-"@ + decimal_spec(seconds as nat) + ".log"@
    } else {
        "shroudforge-"@ + decimal_spec(seconds as nat) + "-"@ + decimal_spec(attempt as nat) + ".log"@
    }
}

/// The file name under which the previous log is archived, at the given attempt
/// (the first free name is taken).
pub fn archive_name(seconds: u64, attempt: u64) -> (r: String)
    ensures
        r@ == archive_name_spec(seconds, attempt),
{
    let mut v: Vec<char> = Vec::new();
    extend_chars(&mut v, "shroudforge-");
    push_decimal(&mut v, seconds);
    if attempt >= 2 {
        v.push('-');
        push_decimal(&mut v, attempt);
    }
    extend_chars(&mut v, ".log");
    proof { reveal_strlit("shroudforge-"); reveal_strlit(".log"); reveal_strlit("-"); }
    assert(v@ =~= archive_name_spec(seconds, attempt));
    string_of(&v)
}


/// The first position, from `i` on, at which `needle` occurs in `s`.
pub open spec fn find_from(s: Seq<char>, needle: Seq<char>, i: int) -> Option<int>
    decreases s.len() + 1 - i,
{
    if i < 0 || i + needle.len() > s.len() {
        None
    } else if occurs_at(s, needle, i) {
        Some(i)
    } else {
        find_from(s, needle, i + 1)
    }
}

/// A log line read back: its level letter, time, source and message.
#[derive(Debug)]
pub struct LogLine {
    pub level: char,
    pub time: String,
    pub source: String,
    pub message: String,
}

/// The levels a log line may carry.
pub open spec fn line_level(c: char) -> bool {
    c == 'T' || c == 'D' || c == 'I' || c == 'W' || c == 'E'
}

/// How a line of the log reads back: it starts with `[` and a level letter; the
/// time runs from the fourth character to the first `] [`, the source from there to
/// the next `] `, and the message is the rest.
pub open spec fn parse_line_spec(line: Seq<char>) -> Option<(char, Seq<char>, Seq<char>, Seq<char>)> {
    if line.len() < 2 || line[0] != '[' || !line_level(line[1]) {
        None
    } else {
        match find_from(line, seq![']', ' ', '['], 0) {
            None => None,
            Some(close) => if close < 3 {
                None
            } else {
                match find_from(line, seq![']', ' '], close + 3) {
                    None => None,
                    Some(end) => Some((line[1], line.subrange(3, close), line.subrange(close + 3, end), line.skip(end + 2))),
                }
            },
        }
    }
}

proof fn lemma_find_from_occurs(s: Seq<char>, needle: Seq<char>, i: int)
    ensures
        find_from(s, needle, i) matches Some(k) ==> i <= k && occurs_at(s, needle, k),
    decreases s.len() + 1 - i,
{
    if !(i < 0 || i + needle.len() > s.len()) && !occurs_at(s, needle, i) {
        lemma_find_from_occurs(s, needle, i + 1);
    }
}

fn find_chars(s: &Vec<char>, needle: &Vec<char>, from: usize) -> (r: Option<usize>)
    ensures
        r is Some <==> find_from(s@, needle@, from as int) is Some,
        r matches Some(i) ==> find_from(s@, needle@, from as int) == Some(i as int),
        r matches Some(i) ==> from <= i && i + needle@.len() <= s@.len(),
{
    proof { lemma_find_from_occurs(s@, needle@, from as int); }
    let mut i = from;
    while i <= s.len() && needle.len() <= s.len() - i
        invariant
            from <= i,
            find_from(s@, needle@, from as int) == find_from(s@, needle@, i as int),
        decreases s.len() + 1 - i,
    {
        if matches_at(s, needle, i) {
            return Some(i);
        }
        if i == s.len() {
            assert(find_from(s@, needle@, i as int + 1) is None);
            return None;
        }
        i = i + 1;
    }
    None
}

fn slice_string(s: &Vec<char>, start: usize, end: usize) -> (r: String)
    requires
        start <= end <= s@.len(),
    ensures
        r@ == s@.subrange(start as int, end as int),
{
    let mut v: Vec<char> = Vec::new();
    let mut k = start;
    while k < end
        invariant
            start <= k <= end,
            end <= s@.len(),
            v@ == s@.subrange(start as int, k as int),
        decreases end - k,
    {
        v.push(s[k]);
        k = k + 1;
        assert(v@ =~= s@.subrange(start as int, k as int));
    }
    string_of(&v)
}

/// Reads a log line back into its parts.
pub fn parse_line(line: &str) -> (r: Option<LogLine>)
    ensures
        match parse_line_spec(line@) {
            Some((level, time, source, message)) => r matches Some(l)
                && l.level == level && l.time@ == time && l.source@ == source && l.message@ == message,
            None => r is None,
        },
{
    let cs = chars_of(line);
    if cs.len() < 2 || cs[0] != '[' {
        return None;
    }
    let level = cs[1];
    if !(level == 'T' || level == 'D' || level == 'I' || level == 'W' || level == 'E') {
        return None;
    }
    let close_marker = vec![']', ' ', '['];
    let end_marker = vec![']', ' '];
    assert(close_marker@ == seq![']', ' ', '[']);
    assert(end_marker@ == seq![']', ' ']);
    let close = match find_chars(&cs, &close_marker, 0) {
        Some(c) => c,
        None => return None,
    };
    if close < 3 {
        return None;
    }
    let end = match find_chars(&cs, &end_marker, close + 3) {
        Some(e) => e,
        None => return None,
    };
    assert(cs@ == line@);
    assert(line@.len() >= 2 && line@[0] == '[' && line_level(line@[1]));
    assert(find_from(line@, seq![']', ' ', '['], 0) == Some(close as int));
    assert(find_from(line@, seq![']', ' '], close + 3) == Some(end as int));
    assert(parse_line_spec(line@) == Some((level, cs@.subrange(3, close as int), cs@.subrange(close + 3, end as int), cs@.skip(end + 2))));
    assert(cs@.subrange(end + 2, cs@.len() as int) =~= cs@.skip(end + 2));
    Some(LogLine {
        level,
        time: slice_string(&cs, 3, close),
        source: slice_string(&cs, close + 3, end),
        message: slice_string(&cs, end + 2, cs.len()),
    })
}

proof fn lemma_find_first(s: Seq<char>, needle: Seq<char>, i: int, k: int)
    requires
        0 <= i <= k,
        occurs_at(s, needle, k),
        forall|j: int| i <= j < k ==> !occurs_at(s, needle, j),
    ensures
        find_from(s, needle, i) == Some(k),
    decreases k - i,
{
    if i < k {
        lemma_find_first(s, needle, i + 1, k);
    }
}

proof fn lemma_no_close_bracket_in_source(s: Seq<char>)
    ensures
        !source_spec(s).contains(']'),
    decreases s.len(),
{
    if s.len() > 0 {
        lemma_no_close_bracket_in_source(s.drop_last());
        let tail = if s.last() == ']' { seq!['_'] } else { escape_char(s.last()) };
        assert(!tail.contains(']'));
        assert forall|i: int| 0 <= i < source_spec(s).len() implies source_spec(s)[i] != ']' by {
            let head = source_spec(s.drop_last());
            if i < head.len() {
                assert(source_spec(s)[i] == head[i]);
            } else {
                assert(source_spec(s)[i] == tail[i - head.len()]);
            }
        }
    }
}

/// What the log writes, it reads back: a line written with a level letter and a
/// time without `]` parses into that level, that time, the written source and
/// the written message.
pub proof fn written_lines_read_back(level: char, source: Seq<char>, message: Seq<char>, time: Seq<char>)
    requires
        line_level(level),
        !time.contains(']'),
    ensures
        parse_line_spec(line_spec(level, source, message, time))
            == Some((level, time, source_spec(source), single_line_spec(message))),
{
    let src = source_spec(source);
    let msg = single_line_spec(message);
    let line = line_spec(level, source, message, time);
    lemma_no_close_bracket_in_source(source);
    let close: int = 3 + time.len() as int;
    let end: int = close + 3 + src.len();
    assert(line =~= seq!['[', level, ' '] + time + seq![']', ' ', '['] + src + seq![']', ' '] + msg);
    assert(line[0] == '[' && line[1] == level);
    assert(occurs_at(line, seq![']', ' ', '['], close)) by {
        assert(line.subrange(close, close + 3) =~= seq![']', ' ', '[']);
    }
    assert forall|j: int| 0 <= j < close implies !occurs_at(line, seq![']', ' ', '['], j) by {
        if occurs_at(line, seq![']', ' ', '['], j) {
            assert(line.subrange(j, j + 3)[0] == ']');
            assert(line[j] == ']');
            if j >= 3 {
                assert(line[j] == time[j - 3]);
            }
        }
    }
    lemma_find_first(line, seq![']', ' ', '['], 0, close);
    assert(occurs_at(line, seq![']', ' '], end)) by {
        assert(line.subrange(end, end + 2) =~= seq![']', ' ']);
    }
    assert forall|j: int| close + 3 <= j < end implies !occurs_at(line, seq![']', ' '], j) by {
        if occurs_at(line, seq![']', ' '], j) {
            assert(line.subrange(j, j + 2)[0] == ']');
            assert(line[j] == ']');
            assert(line[j] == src[j - close - 3]);
        }
    }
    lemma_find_first(line, seq![']', ' '], close + 3, end);
    assert(line.subrange(3, close) =~= time);
    assert(line.subrange(close + 3, end) =~= src);
    assert(line.skip(end + 2) =~= msg);
}

/// The activity level of a log level letter: `info` for trace, debug and info,
/// `warn`, `error`; none for any other letter.
pub fn activity_level(level: char) -> (r: Option<&'static str>)
    ensures
        (level == 'T' || level == 'D' || level == 'I') ==> (r matches Some(s) && s@ == "info"@),
        level == 'W' ==> (r matches Some(s) && s@ == "warn"@),
        level == 'E' ==> (r matches Some(s) && s@ == "error"@),
        !line_level(level) ==> r is None,
{
    if level == 'T' || level == 'D' || level == 'I' {
        Some("info")
    } else if level == 'W' {
        Some("warn")
    } else if level == 'E' {
        Some("error")
    } else {
        None
    }
}

} // verus!
