//! The command line of the runtime diagnostics module: listing its tools, asking
//! the loader for a diagnostic, or running one tool against a game process.
use vstd::prelude::*;
use crate::text::{chars_of, str_equal};
use crate::ui::{parsed_u64, parse_u64, unsigned_digits};

verus! {

/// The diagnostic tools that can be run.
pub open spec fn is_tool(name: Seq<char>) -> bool {
    name == "dump-live-components"@ || name == "inspect-component-metadata"@
        || name == "live-entity-manager-sample"@ || name == "live-entity-managers"@
        || name == "live-type-references"@
}

/// Whether `name` is one of the diagnostic tools.
pub fn tool_known(name: &str) -> (r: bool)
    ensures
        r == is_tool(name@),
{
    str_equal(name, "dump-live-components") || str_equal(name, "inspect-component-metadata")
        || str_equal(name, "live-entity-manager-sample") || str_equal(name, "live-entity-managers")
        || str_equal(name, "live-type-references")
}

/// The tools in the order `--list` prints them.
pub fn tool_names() -> (r: Vec<String>)
    ensures
        r@.len() == 5,
        forall|i: int| 0 <= i < 5 ==> is_tool(#[trigger] r@[i]@),
{
    let names = vec![
        String::from_str("dump-live-components"),
        String::from_str("inspect-component-metadata"),
        String::from_str("live-entity-manager-sample"),
        String::from_str("live-entity-managers"),
        String::from_str("live-type-references"),
    ];
    names
}

/// The argument is given.
pub open spec fn has_arg(args: Seq<Seq<char>>, name: Seq<char>) -> bool {
    exists|i: int| 0 <= i < args.len() && args[i] == name
}

/// The value after the first occurrence of `name` that has one.
pub open spec fn arg_value(args: Seq<Seq<char>>, name: Seq<char>) -> Option<Seq<char>>
    decreases args.len(),
{
    if args.len() < 2 {
        None
    } else if args[0] == name {
        Some(args[1])
    } else {
        arg_value(args.drop_first(), name)
    }
}

/// The texts of the arguments.
pub open spec fn arg_texts(args: Seq<String>) -> Seq<Seq<char>> {
    args.map_values(|a: String| a@)
}

/// Whether the argument `name` is given.
pub fn flag(args: &Vec<String>, name: &str) -> (r: bool)
    ensures
        r == has_arg(arg_texts(args@), name@),
{
    for i in 0..args.len()
        invariant
            forall|j: int| 0 <= j < i ==> arg_texts(args@)[j] != name@,
    {
        if str_equal(args[i].as_str(), name) {
            assert(arg_texts(args@)[i as int] == name@);
            return true;
        }
    }
    false
}

/// The value that follows the argument `name`.
pub fn option_value(args: &Vec<String>, name: &str) -> (r: Option<String>)
    ensures
        match r {
            Some(v) => arg_value(arg_texts(args@), name@) == Some(v@),
            None => arg_value(arg_texts(args@), name@) is None,
        },
{
    let ghost texts = arg_texts(args@);
    let mut i: usize = 0;
    assert(texts.skip(0) =~= texts);
    while i < args.len() && args.len() - i >= 2
        invariant
            texts == arg_texts(args@),
            i <= args@.len(),
            arg_value(texts.skip(i as int), name@) == arg_value(texts, name@),
        decreases args@.len() - i,
    {
        let ghost rest = texts.skip(i as int);
        assert(rest[0] == args@[i as int]@ && rest[1] == args@[i + 1]@);
        if str_equal(args[i].as_str(), name) {
            return Some(args[i + 1].clone());
        }
        assert(rest.drop_first() =~= texts.skip(i + 1));
        i = i + 1;
    }
    None
}

/// A hexadecimal digit.
pub open spec fn hex_char(c: char) -> bool {
    ('0' <= c <= '9') || ('a' <= c <= 'f') || ('A' <= c <= 'F')
}

/// The value of a hexadecimal digit.
pub open spec fn hex_char_value(c: char) -> nat {
    if '0' <= c <= '9' {
        ((c as u32) - 48) as nat
    } else if 'a' <= c <= 'f' {
        ((c as u32) - 87) as nat
    } else {
        ((c as u32) - 55) as nat
    }
}

/// The value of a string of hexadecimal digits.
pub open spec fn hex_value(digits: Seq<char>) -> nat
    decreases digits.len(),
{
    if digits.len() == 0 {
        0
    } else {
        hex_value(digits.drop_last()) * 16 + hex_char_value(digits.last())
    }
}

/// An address as `u64::from_str_radix(_, 16)` accepts it: an optional `+`, then one
/// or more hexadecimal digits whose value fits.
pub open spec fn hex_address(s: Seq<char>) -> bool {
    let digits = unsigned_digits(s);
    digits.len() > 0 && (forall|i: int| 0 <= i < digits.len() ==> hex_char(#[trigger] digits[i]))
        && hex_value(digits) <= u64::MAX
}

proof fn lemma_hex_monotone(digits: Seq<char>, k: int)
    requires
        0 <= k <= digits.len(),
    ensures
        hex_value(digits.take(k)) <= hex_value(digits),
    decreases digits.len() - k,
{
    if k < digits.len() {
        let longer = digits.take(k + 1);
        assert(longer.drop_last() =~= digits.take(k));
        lemma_hex_monotone(digits, k + 1);
        assert(hex_value(longer) == hex_value(digits.take(k)) * 16 + hex_char_value(longer.last()));
        assert(hex_value(digits.take(k)) * 16 >= hex_value(digits.take(k))) by (nonlinear_arith);
    } else {
        assert(digits.take(k) =~= digits);
    }
}

/// Whether an address is hexadecimal that fits 64 bits.
pub fn valid_hex_address(s: &str) -> (r: bool)
    ensures
        r == hex_address(s@),
{
    let cs = chars_of(s);
    let start: usize = if cs.len() > 0 && cs[0] == '+' { 1 } else { 0 };
    let ghost digits = unsigned_digits(cs@);
    assert(digits =~= cs@.skip(start as int));
    if start >= cs.len() {
        return false;
    }
    let mut value: u64 = 0;
    let mut i = start;
    while i < cs.len()
        invariant
            cs@ == s@,
            start <= i <= cs@.len(),
            digits == cs@.skip(start as int),
            digits == unsigned_digits(cs@),
            forall|k: int| start <= k < i ==> hex_char(#[trigger] cs@[k]),
            value == hex_value(cs@.subrange(start as int, i as int)),
        decreases cs.len() - i,
    {
        let c = cs[i];
        if !(('0' <= c && c <= '9') || ('a' <= c && c <= 'f') || ('A' <= c && c <= 'F')) {
            assert(digits[i - start] == c);
            return false;
        }
        let d: u64 = if '0' <= c && c <= '9' {
            ((c as u32) - 48) as u64
        } else if 'a' <= c && c <= 'f' {
            ((c as u32) - 87) as u64
        } else {
            ((c as u32) - 55) as u64
        };
        let ghost longer = cs@.subrange(start as int, i + 1);
        proof {
            assert(longer.drop_last() =~= cs@.subrange(start as int, i as int));
            assert(longer.last() == c);
            assert(hex_value(longer) == value * 16 + d);
            assert(digits.take((i + 1 - start) as int) =~= longer);
        }
        if value > (u64::MAX - d) / 16 {
            proof {
                assert(value * 16 + d > u64::MAX) by (nonlinear_arith)
                    requires value > (u64::MAX - d) / 16, d <= 15;
                lemma_hex_monotone(digits, (i + 1 - start) as int);
            }
            return false;
        }
        assert(value * 16 + d <= u64::MAX) by (nonlinear_arith)
            requires value <= (u64::MAX - d) / 16, d <= 15;
        value = value * 16 + d;
        i = i + 1;
    }
    assert(cs@.subrange(start as int, cs@.len() as int) =~= digits);
    true
}

/// A decimal `u32` as `str::parse` reads it.
pub open spec fn parsed_u32(s: Seq<char>) -> Option<u32> {
    match parsed_u64(s) {
        Some(v) => if v <= u32::MAX { Some(v as u32) } else { None },
        None => None,
    }
}

/// A diagnostic tool run that the command line asks for.
#[derive(Debug)]
pub struct ToolRun {
    pub root: String,
    pub tool: String,
    pub pid: u32,
    /// The component address, for metadata inspection only.
    pub address: Option<String>,
    pub timeout_seconds: u64,
    pub continuous: bool,
}

/// What the diagnostics command line asks for.
#[derive(Debug)]
pub enum ToolCommand {
    /// Print the tools.
    List,
    /// Print the diagnostics status of the installation.
    Status { root: String },
    /// Ask the running loader to start, stop or snapshot.
    Request { root: String, action: String },
    Run(ToolRun),
}

/// The timeout of a tool run, or why it is refused.
pub open spec fn timeout_spec(given: Option<Seq<char>>) -> Result<u64, Seq<char>> {
    let text = match given {
        Some(t) => t,
        None => "10"@,
    };
    match parsed_u64(text) {
        None => Err("invalid timeout"@),
        Some(n) => if 1 <= n <= 60 { Ok(n) } else { Err("timeout must be between 1 and 60 seconds"@) },
    }
}

/// What the command line `args` asks for, or why it is refused.
pub open spec fn tool_command_spec(args: Seq<Seq<char>>) -> Result<ToolCommandView, Seq<char>> {
    if has_arg(args, "--list"@) {
        Ok(ToolCommandView::List)
    } else {
        match arg_value(args, "--root"@) {
            None => Err("missing --root installation directory"@),
            Some(root) => if has_arg(args, "--status"@) {
                Ok(ToolCommandView::Status(root))
            } else if has_arg(args, "--start"@) {
                Ok(ToolCommandView::Request(root, "start"@))
            } else if has_arg(args, "--stop"@) {
                Ok(ToolCommandView::Request(root, "stop"@))
            } else if has_arg(args, "--snapshot"@) {
                Ok(ToolCommandView::Request(root, "snapshot"@))
            } else {
                match arg_value(args, "--tool"@) {
                    None => Err("choose a supported --tool; use --list"@),
                    Some(tool) => if !is_tool(tool) {
                        Err("choose a supported --tool; use --list"@)
                    } else {
                        match arg_value(args, "--pid"@) {
                            None => Err("missing --pid"@),
                            Some(p) => match parsed_u32(p) {
                                None => Err("invalid pid"@),
                                Some(pid) => if pid == 0 {
                                    Err("invalid pid"@)
                                } else {
                                    let address = if tool == "inspect-component-metadata"@ {
                                        match arg_value(args, "--address"@) {
                                            None => Err("metadata inspection requires --address in hexadecimal"@),
                                            Some(a) => if hex_address(a) { Ok(Some(a)) } else { Err("invalid address"@) },
                                        }
                                    } else {
                                        Ok(None)
                                    };
                                    match address {
                                        Err(e) => Err(e),
                                        Ok(address) => match timeout_spec(arg_value(args, "--timeout-seconds"@)) {
                                            Err(e) => Err(e),
                                            Ok(seconds) => Ok(ToolCommandView::Run(root, tool, pid, address, seconds,
                                                has_arg(args, "--continuous"@))),
                                        },
                                    }
                                },
                            },
                        }
                    },
                }
            },
        }
    }
}

/// A command as the contracts read it.
pub enum ToolCommandView {
    List,
    Status(Seq<char>),
    Request(Seq<char>, Seq<char>),
    Run(Seq<char>, Seq<char>, u32, Option<Seq<char>>, u64, bool),
}

impl ToolCommand {
    pub open spec fn view(&self) -> ToolCommandView {
        match self {
            ToolCommand::List => ToolCommandView::List,
            ToolCommand::Status { root } => ToolCommandView::Status(root@),
            ToolCommand::Request { root, action } => ToolCommandView::Request(root@, action@),
            ToolCommand::Run(run) => ToolCommandView::Run(run.root@, run.tool@, run.pid,
                match run.address { Some(a) => Some(a@), None => None }, run.timeout_seconds, run.continuous),
        }
    }
}

fn timeout_of(given: Option<String>) -> (r: Result<u64, String>)
    ensures
        match (r, timeout_spec(match given { Some(t) => Some(t@), None => None })) {
            (Ok(a), Ok(b)) => a == b,
            (Err(a), Err(b)) => a@ == b,
            _ => false,
        },
{
    let text = match given {
        Some(t) => t,
        None => String::from_str("10"),
    };
    match parse_u64(&chars_of(text.as_str())) {
        None => Err(String::from_str("invalid timeout")),
        Some(n) => if 1 <= n && n <= 60 {
            Ok(n)
        } else {
            Err(String::from_str("timeout must be between 1 and 60 seconds"))
        },
    }
}

/// Reads the diagnostics command line, as the process received it.
pub fn tool_command(args: &Vec<String>) -> (r: Result<ToolCommand, String>)
    ensures
        match (r, tool_command_spec(arg_texts(args@))) {
            (Ok(c), Ok(v)) => c.view() == v,
            (Err(m), Err(e)) => m@ == e,
            _ => false,
        },
{
    if flag(args, "--list") {
        return Ok(ToolCommand::List);
    }
    let root = match option_value(args, "--root") {
        Some(r) => r,
        None => return Err(String::from_str("missing --root installation directory")),
    };
    if flag(args, "--status") {
        return Ok(ToolCommand::Status { root });
    }
    if flag(args, "--start") {
        return Ok(ToolCommand::Request { root, action: String::from_str("start") });
    }
    if flag(args, "--stop") {
        return Ok(ToolCommand::Request { root, action: String::from_str("stop") });
    }
    if flag(args, "--snapshot") {
        return Ok(ToolCommand::Request { root, action: String::from_str("snapshot") });
    }
    let tool = match option_value(args, "--tool") {
        Some(t) => t,
        None => return Err(String::from_str("choose a supported --tool; use --list")),
    };
    if !tool_known(tool.as_str()) {
        return Err(String::from_str("choose a supported --tool; use --list"));
    }
    let pid_text = match option_value(args, "--pid") {
        Some(p) => p,
        None => return Err(String::from_str("missing --pid")),
    };
    let pid: u32 = match parse_u64(&chars_of(pid_text.as_str())) {
        Some(v) => if v <= 4294967295 {
            v as u32
        } else {
            return Err(String::from_str("invalid pid"));
        },
        None => return Err(String::from_str("invalid pid")),
    };
    if pid == 0 {
        return Err(String::from_str("invalid pid"));
    }
    let address = if str_equal(tool.as_str(), "inspect-component-metadata") {
        match option_value(args, "--address") {
            None => return Err(String::from_str("metadata inspection requires --address in hexadecimal")),
            Some(a) => if valid_hex_address(a.as_str()) {
                Some(a)
            } else {
                return Err(String::from_str("invalid address"));
            },
        }
    } else {
        None
    };
    let seconds = match timeout_of(option_value(args, "--timeout-seconds")) {
        Ok(s) => s,
        Err(e) => return Err(e),
    };
    let continuous = flag(args, "--continuous");
    Ok(ToolCommand::Run(ToolRun { root, tool, pid, address, timeout_seconds: seconds, continuous }))
}

/// A continuous run needs diagnostics enabled and continuous in the loader
/// configuration.
pub fn continuous_check(continuous: bool, enabled: Option<bool>, continuous_setting: Option<bool>) -> (r: Result<(), String>)
    ensures
        r is Err <==> continuous && !(enabled == Some(true) && continuous_setting == Some(true)),
        r matches Err(m) ==> m@ == "continuous diagnostics require enabled and continuous in loader configuration"@,
{
    let allowed = match (enabled, continuous_setting) {
        (Some(true), Some(true)) => true,
        _ => false,
    };
    if continuous && !allowed {
        return Err(String::from_str("continuous diagnostics require enabled and continuous in loader configuration"));
    }
    Ok(())
}

/// `value` (or `default` when missing) brought into `low..=high`.
pub open spec fn clamped_setting(value: Option<u64>, default: u64, low: u64, high: u64) -> u64 {
    let v = match value {
        Some(v) => v,
        None => default,
    };
    if v < low { low } else if v > high { high } else { v }
}

fn clamp_setting(value: Option<u64>, default: u64, low: u64, high: u64) -> (r: u64)
    requires
        low <= high,
    ensures
        r == clamped_setting(value, default, low, high),
{
    let v = match value {
        Some(v) => v,
        None => default,
    };
    if v < low { low } else if v > high { high } else { v }
}

/// How long a diagnostics session may run, in seconds: the configured maximum
/// (120 when missing) within one second and an hour.
pub fn session_limit_seconds(setting: Option<u64>) -> (r: u64)
    ensures
        r == clamped_setting(setting, 120, 1, 3600),
{
    clamp_setting(setting, 120, 1, 3600)
}

/// The pause between continuous runs, in milliseconds: the configured interval
/// (2000 when missing) within half a second and a minute.
pub fn run_interval_ms(setting: Option<u64>) -> (r: u64)
    ensures
        r == clamped_setting(setting, 2000, 500, 60000),
{
    clamp_setting(setting, 2000, 500, 60000)
}

/// The time a run may take, in milliseconds, when the session has run
/// `elapsed_ms` of its `limit_seconds`: the tool's timeout, cut to what remains;
/// none once the session is over.
pub fn run_budget_ms(timeout_seconds: u64, elapsed_ms: u64, limit_seconds: u64) -> (r: Option<u128>)
    ensures
        elapsed_ms > limit_seconds * 1000 ==> r is None,
        elapsed_ms <= limit_seconds * 1000 ==> r == Some(
            if timeout_seconds * 1000 <= limit_seconds * 1000 - elapsed_ms {
                (timeout_seconds * 1000) as u128
            } else {
                (limit_seconds * 1000 - elapsed_ms) as u128
            }),
{
    let limit = (limit_seconds as u128) * 1000;
    if (elapsed_ms as u128) > limit {
        return None;
    }
    let remaining = limit - (elapsed_ms as u128);
    let timeout = (timeout_seconds as u128) * 1000;
    Some(if timeout <= remaining { timeout } else { remaining })
}

} // verus!
