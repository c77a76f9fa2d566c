//! The debug console's view of the log: the last bytes of the log file, starting at
//! a line boundary, and the console's settings within their limits.
use vstd::prelude::*;

verus! {

/// The console shows at most this many bytes of the log (1 MiB).
pub const MAX_TAIL: u64 = 1048576;

/// The console's settings.
#[derive(Debug)]
pub struct ConsoleConfig {
    pub toggle_key: u32,
    pub refresh_milliseconds: u64,
    pub tail_bytes: u64,
}

/// F10, the default key that shows and hides the console.
pub const DEFAULT_TOGGLE_KEY: u32 = 121;

pub open spec fn clamp(v: u64, low: u64, high: u64) -> u64 {
    if v < low { low } else if v > high { high } else { v }
}

/// The settings as read, brought within their limits: a key code outside 1 to 255
/// falls back to F10; the refresh interval stays within 100 ms to 10 s; the tail
/// within 1 KiB and [`MAX_TAIL`].
pub fn normalize_config(config: ConsoleConfig) -> (r: ConsoleConfig)
    ensures
        r.toggle_key == if 1 <= config.toggle_key <= 255 { config.toggle_key } else { DEFAULT_TOGGLE_KEY },
        r.refresh_milliseconds == clamp(config.refresh_milliseconds, 100, 10000),
        r.tail_bytes == clamp(config.tail_bytes, 1024, MAX_TAIL),
{
    let toggle_key = if 1 <= config.toggle_key && config.toggle_key <= 255 { config.toggle_key } else { DEFAULT_TOGGLE_KEY };
    let r = config.refresh_milliseconds;
    let t = config.tail_bytes;
    ConsoleConfig {
        toggle_key,
        refresh_milliseconds: if r < 100 { 100 } else if r > 10000 { 10000 } else { r },
        tail_bytes: if t < 1024 { 1024 } else if t > MAX_TAIL { MAX_TAIL } else { t },
    }
}

/// The settings when the console has none.
pub fn default_config() -> (r: ConsoleConfig)
    ensures
        r.toggle_key == DEFAULT_TOGGLE_KEY,
        r.refresh_milliseconds == 500,
        r.tail_bytes == MAX_TAIL,
{
    ConsoleConfig { toggle_key: DEFAULT_TOGGLE_KEY, refresh_milliseconds: 500, tail_bytes: MAX_TAIL }
}

/// Where the tail of a file of `end` bytes starts when at most `maximum` bytes are
/// shown.
pub fn tail_start(end: u64, maximum: u64) -> (r: u64)
    ensures
        r == if end <= maximum { 0 } else { end - maximum },
{
    let count = if end < maximum { end } else { maximum };
    end - count
}

/// The position of the first line feed.
pub open spec fn first_newline(bytes: Seq<u8>) -> Option<int> {
    if exists|i: int| 0 <= i < bytes.len() && bytes[i] == 10 {
        Some(choose|i: int| 0 <= i < bytes.len() && bytes[i] == 10 && forall|j: int| 0 <= j < i ==> bytes[j] != 10)
    } else {
        None
    }
}

/// The tail as shown: when it starts inside a line (the byte before it, if any, is
/// no line feed), that partial line is dropped, up to and with its line feed; a
/// tail without any line feed is then empty.
pub open spec fn shown_tail(bytes: Seq<u8>, previous: Option<u8>) -> Seq<u8> {
    if previous matches Some(b) && b != 10 {
        match first_newline(bytes) {
            Some(i) => bytes.skip(i + 1),
            None => Seq::empty(),
        }
    } else {
        bytes
    }
}

/// Drops the partial first line of a tail.
pub fn trim_partial_line(bytes: Vec<u8>, previous: Option<u8>) -> (r: Vec<u8>)
    ensures
        r@ == shown_tail(bytes@, previous),
{
    let partial = match previous {
        Some(b) => b != 10,
        None => false,
    };
    if !partial {
        return bytes;
    }
    let mut i: usize = 0;
    while i < bytes.len() && bytes[i] != 10
        invariant
            i <= bytes@.len(),
            forall|j: int| 0 <= j < i ==> bytes@[j] != 10,
        decreases bytes.len() - i,
    {
        i = i + 1;
    }
    if i == bytes.len() {
        return Vec::new();
    }
    proof {
        let w = choose|w: int| 0 <= w < bytes@.len() && bytes@[w] == 10 && forall|j: int| 0 <= j < w ==> bytes@[j] != 10;
        if w < i {
            assert(bytes@[w] != 10);
        }
        if i < w {
            assert(bytes@[i as int] != 10);
        }
    }
    let mut rest: Vec<u8> = Vec::new();
    let mut k = i + 1;
    while k < bytes.len()
        invariant
            i + 1 <= k <= bytes@.len(),
            rest@ == bytes@.subrange(i + 1, k as int),
        decreases bytes.len() - k,
    {
        rest.push(bytes[k]);
        k = k + 1;
        assert(rest@ =~= bytes@.subrange(i + 1, k as int));
    }
    assert(rest@ =~= bytes@.skip(i + 1));
    rest
}

/// A tail that starts at the beginning of the file or after a line feed is shown
/// whole.
pub proof fn aligned_tail_is_shown_whole(bytes: Seq<u8>, previous: Option<u8>)
    requires
        previous is None || previous == Some(10u8),
    ensures
        shown_tail(bytes, previous) == bytes,
{
}

} // verus!
