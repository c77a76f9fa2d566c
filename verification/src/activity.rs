//! The activity feed of the control window: activity events written to the log and
//! read back, newest first.
use vstd::prelude::*;
use crate::logging::{LevelFilter, LogLine, allows, level_of, verbosity, line_level, activity_level};
use crate::notices::{first_items, take_chars};
use crate::text::{str_equal, decimal, decimal_spec, concat5};

verus! {

/// The feed shows at most this many entries.
pub const ACTIVITY_LIMIT: usize = 100;

/// Details of an activity keep at most this many characters.
pub const DETAILS_LIMIT: usize = 500;

/// What an activity event says: who did what, and how it ended.
#[derive(Debug)]
pub struct ActivityEvent {
    pub source: String,
    pub action: String,
    pub result: String,
    pub details: Option<String>,
}

/// An entry of the activity feed.
#[derive(Debug)]
pub struct Activity {
    pub id: String,
    pub time: String,
    pub source: String,
    pub action: String,
    pub result: String,
    pub details: Option<String>,
    pub level: String,
}

/// The log letter under which an activity of level `level` is written: `warn`,
/// `error` and `debug` have their own, anything else is informational.
pub open spec fn activity_letter_spec(level: Seq<char>) -> char {
    if level == "warn"@ {
        'W'
    } else if level == "error"@ {
        'E'
    } else if level == "debug"@ {
        'D'
    } else {
        'I'
    }
}

/// The log letter under which an activity is written.
pub fn activity_letter(level: &str) -> (r: char)
    ensures
        r == activity_letter_spec(level@),
{
    if str_equal(level, "warn") {
        'W'
    } else if str_equal(level, "error") {
        'E'
    } else if str_equal(level, "debug") {
        'D'
    } else {
        'I'
    }
}

/// The details of an activity as they are written: at most the details limit of
/// characters.
pub fn written_details(details: Option<&str>) -> (r: Option<String>)
    ensures
        match details {
            Some(d) => r matches Some(w) && w@ == first_items(d@, DETAILS_LIMIT as nat),
            None => r is None,
        },
{
    match details {
        Some(d) => Some(take_chars(d, DETAILS_LIMIT)),
        None => None,
    }
}

/// A log line belongs to the feed when its level passes the log filter and it was
/// written under the source `activity`.
pub open spec fn feed_line(line: LogLine, filter: LevelFilter) -> bool {
    verbosity(level_of(line.level)) <= verbosity(filter) && line.source@ == "activity"@
}

/// Whether a log line belongs to the feed.
pub fn is_feed_line(line: &LogLine, filter: LevelFilter) -> (r: bool)
    ensures
        r == feed_line(*line, filter),
{
    allows(line.level, filter) && str_equal(line.source.as_str(), "activity")
}

/// The id of the entry read from line `index` (counted from zero) of the log.
pub open spec fn activity_id_spec(index: u64, time: Seq<char>, source: Seq<char>, action: Seq<char>) -> Seq<char> {
    decimal_spec(index as nat) + "-"@ + time + "-"@ + source + "-"@ + action
}

/// The entry of the feed read from line `index` of the log, whose message held
/// `event`; none for a line of a level the feed does not know.
pub fn activity_of(index: u64, line: LogLine, event: ActivityEvent) -> (r: Option<Activity>)
    ensures
        !line_level(line.level) ==> r is None,
        line_level(line.level) ==> (r matches Some(a) && {
            &&& a.id@ == activity_id_spec(index, line.time@, event.source@, event.action@)
            &&& a.time == line.time
            &&& a.source == event.source
            &&& a.action == event.action
            &&& a.result == event.result
            &&& a.details == event.details
            &&& a.level@ == if line.level == 'W' {
                "warn"@
            } else if line.level == 'E' {
                "error"@
            } else {
                "info"@
            }
        }),
{
    let level = match activity_level(line.level) {
        Some(l) => l,
        None => return None,
    };
    let number = decimal(index);
    let head = concat5(number.as_str(), "-", line.time.as_str(), "-", event.source.as_str());
    let id = concat5(head.as_str(), "-", event.action.as_str(), "", "");
    proof {
        reveal_strlit("");
    }
    assert(id@ =~= activity_id_spec(index, line.time@, event.source@, event.action@));
    Some(Activity {
        id,
        time: line.time,
        source: event.source,
        action: event.action,
        result: event.result,
        details: event.details,
        level: String::from_str(level),
    })
}

/// The feed as shown: the entries read last come first, at most the feed limit.
pub fn newest_activity(entries: Vec<Activity>) -> (r: Vec<Activity>)
    ensures
        r@ == first_items(entries@.reverse(), ACTIVITY_LIMIT as nat),
{
    let mut rest = entries;
    let ghost all = rest@;
    let mut r: Vec<Activity> = Vec::new();
    while rest.len() > 0 && r.len() < ACTIVITY_LIMIT
        invariant
            r@.len() <= ACTIVITY_LIMIT,
            rest@ == all.take(all.len() - r@.len()),
            r@ == all.reverse().take(r@.len() as int),
            r@.len() <= all.len(),
        decreases rest@.len(),
    {
        let item = rest.pop().unwrap();
        proof {
            assert(item == all[all.len() - r@.len() - 1]);
        }
        r.push(item);
        assert(rest@ =~= all.take(all.len() - r@.len()));
        assert(r@ =~= all.reverse().take(r@.len() as int));
    }
    proof {
        if all.len() <= ACTIVITY_LIMIT {
            assert(r@.len() == all.len());
            assert(all.reverse().take(all.len() as int) =~= all.reverse());
        }
    }
    r
}

} // verus!
