//! Configured news and the installation's read state.
//!
//! A news message may recur: once `repeatEveryDays` days have passed since the user
//! read it, it counts as unread again until it is acknowledged anew.
use vstd::prelude::*;
use crate::paths::{join, join_spec, config_dir};
use crate::text::str_equal;
use crate::listing::texts;
use crate::keyed::{distinct_keys, entries_map};
use crate::config::{overlay, check_document, document_verdict};

verus! {

/// `<root>/shroudforge/config/news`
pub fn directory(root: &str) -> (r: String)
    ensures
        r@ == join_spec(join_spec(join_spec(root@, "shroudforge"@), "config"@), "news"@),
{
    let config = config_dir(root);
    join(config.as_str(), "news")
}

/// `<root>/shroudforge/config/news/events`
pub fn events_directory(root: &str) -> (r: String)
    ensures
        r@ == join_spec(join_spec(join_spec(join_spec(root@, "shroudforge"@), "config"@), "news"@), "events"@),
{
    let news = directory(root);
    join(news.as_str(), "events")
}

/// A configured news message, as far as read tracking needs it.
#[derive(Debug)]
pub struct NewsMessage {
    pub id: String,
    /// After how many days a read message counts as unread again.
    pub repeat_every_days: Option<u64>,
}

/// The read state: the ids read, in the order they were first read, and when each
/// was last acknowledged (Unix seconds).
#[derive(Debug)]
pub struct NewsState {
    pub read: Vec<String>,
    pub read_at: Vec<(String, u64)>,
}

/// The first entry for `id` from position `k` on.
pub open spec fn entry_from(entries: Seq<(String, u64)>, id: Seq<char>, k: int) -> Option<int>
    decreases entries.len() - k,
{
    if k < 0 || k >= entries.len() {
        None
    } else if entries[k].0@ == id {
        Some(k)
    } else {
        entry_from(entries, id, k + 1)
    }
}

/// When `id` was last acknowledged; 0 when the state records no time.
pub open spec fn read_time(entries: Seq<(String, u64)>, id: Seq<char>) -> u64 {
    match entry_from(entries, id, 0) {
        Some(k) => entries[k].1,
        None => 0,
    }
}

/// The recurrence interval of the first configured message with `id`.
pub open spec fn message_interval_from(messages: Seq<NewsMessage>, id: Seq<char>, k: int) -> Option<u64>
    decreases messages.len() - k,
{
    if k < 0 || k >= messages.len() {
        None
    } else if messages[k].id@ == id {
        messages[k].repeat_every_days
    } else {
        message_interval_from(messages, id, k + 1)
    }
}

pub open spec fn saturating_sub(a: u64, b: u64) -> u64 {
    if a >= b { (a - b) as u64 } else { 0 }
}

pub open spec fn saturating_mul(a: u64, b: u64) -> u64 {
    if a * b > u64::MAX { u64::MAX } else { (a * b) as u64 }
}

/// A read id still counts as read at `now`: its message does not recur, or its
/// interval has not elapsed since it was acknowledged.
pub open spec fn still_read(state_read_at: Seq<(String, u64)>, messages: Seq<NewsMessage>, id: Seq<char>, now: u64) -> bool {
    match message_interval_from(messages, id, 0) {
        Some(days) => saturating_sub(now, read_time(state_read_at, id)) < saturating_mul(days, 86400),
        None => true,
    }
}

/// The read ids of `read` that still count as read, in order.
pub open spec fn read_ids_spec(read: Seq<String>, read_at: Seq<(String, u64)>, messages: Seq<NewsMessage>, now: u64) -> Seq<String>
    decreases read.len(),
{
    if read.len() == 0 {
        Seq::empty()
    } else {
        let rest = read_ids_spec(read.drop_last(), read_at, messages, now);
        if still_read(read_at, messages, read.last()@, now) {
            rest.push(read.last())
        } else {
            rest
        }
    }
}

fn read_time_exec(entries: &Vec<(String, u64)>, id: &str) -> (r: u64)
    ensures
        r == read_time(entries@, id@),
{
    for k in 0..entries.len()
        invariant
            entry_from(entries@, id@, 0) == entry_from(entries@, id@, k as int),
    {
        if str_equal(entries[k].0.as_str(), id) {
            return entries[k].1;
        }
    }
    0
}

fn message_interval(messages: &Vec<NewsMessage>, id: &str) -> (r: Option<u64>)
    ensures
        r == message_interval_from(messages@, id@, 0),
{
    for k in 0..messages.len()
        invariant
            message_interval_from(messages@, id@, 0) == message_interval_from(messages@, id@, k as int),
    {
        if str_equal(messages[k].id.as_str(), id) {
            return messages[k].repeat_every_days;
        }
    }
    None
}

fn interval_seconds(days: u64) -> (r: u64)
    ensures
        r == saturating_mul(days, 86400),
{
    if days > u64::MAX / 86400 {
        assert(days * 86400 > u64::MAX) by (nonlinear_arith)
            requires days > u64::MAX / 86400;
        u64::MAX
    } else {
        assert(days * 86400 <= u64::MAX) by (nonlinear_arith)
            requires days <= u64::MAX / 86400;
        days * 86400
    }
}

/// The ids that count as read at `now` (Unix seconds): a recurring message's id
/// drops out once its interval has elapsed since it was acknowledged.
pub fn read_ids(state: &NewsState, messages: &Vec<NewsMessage>, now: u64) -> (r: Vec<String>)
    ensures
        r@ == read_ids_spec(state.read@, state.read_at@, messages@, now),
{
    let mut r: Vec<String> = Vec::new();
    for i in 0..state.read.len()
        invariant
            r@ == read_ids_spec(state.read@.take(i as int), state.read_at@, messages@, now),
    {
        let id = state.read[i].as_str();
        proof {
            assert(state.read@.take(i + 1).drop_last() =~= state.read@.take(i as int));
        }
        let keep = match message_interval(messages, id) {
            Some(days) => now.saturating_sub(read_time_exec(&state.read_at, id)) < interval_seconds(days),
            None => true,
        };
        if keep {
            r.push(state.read[i].clone());
        }
    }
    assert(state.read@.take(state.read@.len() as int) =~= state.read@);
    r
}

/// `id` is among `read`.
pub open spec fn has_read(read: Seq<String>, id: Seq<char>) -> bool {
    exists|k: int| 0 <= k < read.len() && #[trigger] read[k]@ == id
}

proof fn lemma_entry_from_found(entries: Seq<(String, u64)>, id: Seq<char>, k: int, j: int)
    requires
        0 <= k <= j < entries.len(),
        entries[j].0@ == id,
    ensures
        entry_from(entries, id, k) is Some,
        entry_from(entries, id, k) matches Some(f) ==> k <= f <= j && entries[f].0@ == id,
    decreases j - k,
{
    if entries[k].0@ != id {
        lemma_entry_from_found(entries, id, k + 1, j);
    }
}

proof fn lemma_entry_from_none(entries: Seq<(String, u64)>, id: Seq<char>, k: int)
    requires
        0 <= k,
        entry_from(entries, id, k) is None,
    ensures
        forall|j: int| k <= j < entries.len() ==> #[trigger] entries[j].0@ != id,
    decreases entries.len() - k,
{
    if k < entries.len() {
        lemma_entry_from_none(entries, id, k + 1);
    }
}

proof fn lemma_entry_same_prefix(a: Seq<(String, u64)>, b: Seq<(String, u64)>, id: Seq<char>, k: int)
    requires
        0 <= k,
        a.len() <= b.len(),
        forall|j: int| k <= j < a.len() ==> #[trigger] a[j].0@ == b[j].0@,
        forall|j: int| a.len() <= j < b.len() ==> #[trigger] b[j].0@ != id,
    ensures
        entry_from(a, id, k) == entry_from(b, id, k),
    decreases b.len() - k,
{
    if k < b.len() {
        lemma_entry_same_prefix(a, b, id, k + 1);
    }
}

proof fn lemma_entry_from_bounds(entries: Seq<(String, u64)>, id: Seq<char>, k: int)
    requires
        0 <= k,
    ensures
        entry_from(entries, id, k) matches Some(f) ==> k <= f < entries.len() && entries[f].0@ == id,
    decreases entries.len() - k,
{
    if k < entries.len() && entries[k].0@ != id {
        lemma_entry_from_bounds(entries, id, k + 1);
    }
}

/// Sets the acknowledgement time of `id` to `now`.
fn set_read_time(entries: &mut Vec<(String, u64)>, id: &str, now: u64)
    ensures
        read_time(final(entries)@, id@) == now,
        forall|other: Seq<char>| other != id@ ==> #[trigger] read_time(final(entries)@, other) == read_time(old(entries)@, other),
{
    let ghost before = entries@;
    let n = entries.len();
    for k in 0..n
        invariant
            n == entries@.len(),
            entries@ == before,
            before == old(entries)@,
            entry_from(entries@, id@, 0) == entry_from(entries@, id@, k as int),
    {
        if str_equal(entries[k].0.as_str(), id) {
            let name = entries[k].0.clone();
            entries.set(k, (name, now));
            proof {
                assert forall|other: Seq<char>| other != id@ implies #[trigger] read_time(entries@, other) == read_time(before, other) by {
                    lemma_entry_same_prefix(before, entries@, other, 0);
                    lemma_entry_from_bounds(before, other, 0);
                    if let Some(f) = entry_from(before, other, 0) {
                        assert(f != k);
                        assert(entries@[f] == before[f]);
                    }
                }
                lemma_entry_same_prefix(before, entries@, id@, 0);
            }
            return;
        }
    }
    let ghost old_entries = entries@;
    proof { lemma_entry_from_none(old_entries, id@, 0); }
    entries.push((crate::text::concat3(id, "", ""), now));
    proof {
        reveal_strlit("");
        assert(entries@[old_entries.len() as int].0@ == id@);
        lemma_entry_from_found(entries@, id@, 0, old_entries.len() as int);
        lemma_entry_from_bounds(entries@, id@, 0);
        assert forall|other: Seq<char>| other != id@ implies #[trigger] read_time(entries@, other) == read_time(before, other) by {
            lemma_entry_same_prefix(before, entries@, other, 0);
            lemma_entry_from_bounds(before, other, 0);
            if let Some(f) = entry_from(before, other, 0) {
                assert(entries@[f] == before[f]);
            }
        }
    }
}

/// The read list after acknowledging `id`: unchanged when it is already read,
/// else with `id` appended.
pub open spec fn with_read(read: Seq<Seq<char>>, id: Seq<char>) -> Seq<Seq<char>> {
    if read.contains(id) { read } else { read.push(id) }
}

/// The read list after acknowledging `ids` in turn.
pub open spec fn reads_after(read: Seq<Seq<char>>, ids: Seq<Seq<char>>) -> Seq<Seq<char>>
    decreases ids.len(),
{
    if ids.len() == 0 {
        read
    } else {
        with_read(reads_after(read, ids.drop_last()), ids.last())
    }
}

/// Acknowledging never lists an id twice: a read list without repeats stays
/// without repeats, whatever ids are acknowledged.
pub proof fn marking_never_duplicates(read: Seq<Seq<char>>, ids: Seq<Seq<char>>)
    requires
        read.no_duplicates(),
    ensures
        reads_after(read, ids).no_duplicates(),
    decreases ids.len(),
{
    if ids.len() > 0 {
        marking_never_duplicates(read, ids.drop_last());
        let before = reads_after(read, ids.drop_last());
        if !before.contains(ids.last()) {
            let after = before.push(ids.last());
            assert forall|i: int, j: int| 0 <= i < after.len() && 0 <= j < after.len() && i != j
                implies after[i] != after[j] by {
                if i == before.len() as int {
                    assert(after[j] == before[j]);
                } else if j == before.len() as int {
                    assert(after[i] == before[i]);
                }
            }
        }
    }
}

/// Acknowledges `ids` at `now`: each becomes read (appended when new) with `now` as
/// its acknowledgement time.
pub fn mark_read(state: &mut NewsState, ids: &Vec<String>, now: u64)
    ensures
        texts(final(state).read@) == reads_after(texts(old(state).read@), texts(ids@)),
        forall|k: int| 0 <= k < ids@.len() ==> has_read(final(state).read@, #[trigger] ids@[k]@)
            && read_time(final(state).read_at@, ids@[k]@) == now,
        final(state).read@.take(old(state).read@.len() as int) == old(state).read@,
        forall|id: Seq<char>| (forall|k: int| 0 <= k < ids@.len() ==> #[trigger] ids@[k]@ != id)
            ==> #[trigger] read_time(final(state).read_at@, id) == read_time(old(state).read_at@, id),
        forall|id: Seq<char>| #[trigger] has_read(final(state).read@, id) <==> has_read(old(state).read@, id)
            || exists|k: int| 0 <= k < ids@.len() && #[trigger] ids@[k]@ == id,
{
    let ghost start = *state;
    assert(texts(ids@).take(0) =~= Seq::<Seq<char>>::empty());
    for i in 0..ids.len()
        invariant
            texts(state.read@) == reads_after(texts(start.read@), texts(ids@).take(i as int)),
            forall|k: int| 0 <= k < i ==> has_read(state.read@, #[trigger] ids@[k]@)
                && read_time(state.read_at@, ids@[k]@) == now,
            state.read@.take(start.read@.len() as int) == start.read@,
            state.read@.len() >= start.read@.len(),
            forall|id: Seq<char>| (forall|k: int| 0 <= k < i ==> #[trigger] ids@[k]@ != id)
                ==> #[trigger] read_time(state.read_at@, id) == read_time(start.read_at@, id),
            forall|id: Seq<char>| #[trigger] has_read(state.read@, id) <==> has_read(start.read@, id)
                || exists|k: int| 0 <= k < i && #[trigger] ids@[k]@ == id,
    {
        let id = ids[i].as_str();
        let mut known = false;
        for j in 0..state.read.len()
            invariant
                known <==> exists|m: int| 0 <= m < j && #[trigger] state.read@[m]@ == id@,
        {
            if str_equal(state.read[j].as_str(), id) {
                known = true;
            }
        }
        let ghost before = state.read@;
        proof {
            let prefix = texts(ids@).take(i + 1);
            assert(prefix.drop_last() =~= texts(ids@).take(i as int));
            assert(prefix.last() == id@);
            if known {
                let m = choose|m: int| 0 <= m < state.read@.len() && #[trigger] state.read@[m]@ == id@;
                assert(texts(before)[m] == id@);
            } else {
                assert forall|m: int| 0 <= m < texts(before).len() implies texts(before)[m] != id@ by {
                    assert(texts(before)[m] == before[m]@);
                }
            }
        }
        if !known {
            state.read.push(ids[i].clone());
            assert(texts(state.read@) =~= texts(before).push(id@));
            proof {
                assert(state.read@.take(start.read@.len() as int) =~= before.take(start.read@.len() as int));
                assert(state.read@[before.len() as int]@ == id@);
                assert forall|other: Seq<char>| #[trigger] has_read(state.read@, other) <==> has_read(before, other) || other == id@ by {
                    if has_read(state.read@, other) && other != id@ {
                        let m = choose|m: int| 0 <= m < state.read@.len() && #[trigger] state.read@[m]@ == other;
                        assert(m < before.len());
                        assert(before[m]@ == other);
                    }
                    if has_read(before, other) {
                        let m = choose|m: int| 0 <= m < before.len() && #[trigger] before[m]@ == other;
                        assert(state.read@[m] == before[m]);
                    }
                    if other == id@ {
                        assert(state.read@[before.len() as int]@ == other);
                    }
                }
            }
        }
        let ghost before_times = state.read_at@;
        set_read_time(&mut state.read_at, id, now);
        proof {
            assert forall|other: Seq<char>| #[trigger] has_read(state.read@, other) <==> has_read(start.read@, other)
                || exists|k: int| 0 <= k < i + 1 && #[trigger] ids@[k]@ == other by {
                if other == id@ {
                    assert(ids@[i as int]@ == other);
                    if known {
                        let m = choose|m: int| 0 <= m < state.read@.len() && #[trigger] state.read@[m]@ == id@;
                        assert(has_read(state.read@, other));
                    }
                } else {
                    if exists|k: int| 0 <= k < i + 1 && #[trigger] ids@[k]@ == other {
                        let k = choose|k: int| 0 <= k < i + 1 && #[trigger] ids@[k]@ == other;
                        assert(k < i);
                    }
                }
            }
            assert forall|k: int| 0 <= k < i + 1 implies has_read(state.read@, #[trigger] ids@[k]@)
                && read_time(state.read_at@, ids@[k]@) == now by {
                if k < i {
                    if ids@[k]@ != id@ {
                        assert(read_time(state.read_at@, ids@[k]@) == read_time(before_times, ids@[k]@));
                    }
                }
            }
            assert forall|other: Seq<char>| (forall|k: int| 0 <= k < i + 1 ==> #[trigger] ids@[k]@ != other)
                implies #[trigger] read_time(state.read_at@, other) == read_time(start.read_at@, other) by {
                assert(ids@[i as int]@ != other);
                assert forall|k: int| 0 <= k < i implies #[trigger] ids@[k]@ != other by {
                    assert(ids@[k]@ != other);
                }
            }
        }
    }
    assert(texts(ids@).take(ids@.len() as int) =~= texts(ids@));
}

/// A message acknowledged at `now` counts as read at that moment, unless it recurs
/// every zero days.
pub proof fn acknowledged_message_counts_as_read(read_at: Seq<(String, u64)>, messages: Seq<NewsMessage>, id: Seq<char>, now: u64)
    requires
        read_time(read_at, id) == now,
        message_interval_from(messages, id, 0) != Some(0u64),
    ensures
        still_read(read_at, messages, id, now),
{
    if let Some(days) = message_interval_from(messages, id, 0) {
        assert(days * 86400 >= 86400) by (nonlinear_arith)
            requires days >= 1;
    }
}

/// A recurring message counts as unread once its interval has elapsed since it
/// was acknowledged.
pub proof fn recurring_message_becomes_unread(read_at: Seq<(String, u64)>, messages: Seq<NewsMessage>, id: Seq<char>, now: u64, days: u64)
    requires
        message_interval_from(messages, id, 0) == Some(days),
        now >= read_time(read_at, id),
        now - read_time(read_at, id) >= days * 86400,
    ensures
        !still_read(read_at, messages, id, now),
{
}

/// How the `readAt` member of a stored read state looks.
#[derive(Debug)]
pub enum ReadAtShape {
    Missing,
    /// An object: each id with its time (a time that is not an unsigned integer
    /// reads as 0).
    Object(Vec<(String, u64)>),
    Other,
}

/// Reads a stored read state: it must be an object whose `readAt`, when present,
/// is an object and whose `read` is an array of strings (`None` for an entry that
/// is not a string). Each read id without a time gets time 0.
pub fn news_state(is_object: bool, read: Option<Vec<Option<String>>>, read_at: ReadAtShape) -> (r: Result<NewsState, String>)
    ensures
        !is_object ==> (r matches Err(m) && m@ == "news read state must be an object"@),
        is_object && read_at is Other ==> (r matches Err(m) && m@ == "news readAt must be an object"@),
        is_object && !(read_at is Other) && read is None
            ==> (r matches Err(m) && m@ == "news read state must contain a read array"@),
        is_object && !(read_at is Other) && (read matches Some(ids) && exists|k: int| 0 <= k < ids@.len() && (#[trigger] ids@[k]) is None)
            ==> (r matches Err(m) && m@ == "news read id must be a string"@),
        r matches Ok(state) ==> is_object && !(read_at is Other) && (read matches Some(ids) && {
            &&& state.read@.len() == ids@.len()
            &&& forall|k: int| 0 <= k < ids@.len() ==> ((#[trigger] ids@[k]) matches Some(id) && state.read@[k] == id)
            &&& forall|id: Seq<char>| #[trigger] read_time(state.read_at@, id) == match read_at {
                ReadAtShape::Object(times) => read_time(times@, id),
                _ => 0,
            }
        }),
        is_object && !(read_at is Other) && (read matches Some(ids) && forall|k: int| 0 <= k < ids@.len() ==> (#[trigger] ids@[k]) is Some)
            ==> r is Ok,
{
    if !is_object {
        return Err(String::from_str("news read state must be an object"));
    }
    let ghost read_v = read;
    let ghost at_v = read_at;
    let mut times: Vec<(String, u64)> = match read_at {
        ReadAtShape::Missing => Vec::new(),
        ReadAtShape::Object(times) => times,
        ReadAtShape::Other => return Err(String::from_str("news readAt must be an object")),
    };
    let ghost given = times@;
    let ids = match read {
        Some(ids) => ids,
        None => return Err(String::from_str("news read state must contain a read array")),
    };
    let mut out: Vec<String> = Vec::new();
    for k in 0..ids.len()
        invariant
            is_object,
            !(at_v is Other),
            read_v == Some(ids),
            read_v == read,
            at_v == read_at,
            given == match at_v { ReadAtShape::Object(t) => t@, _ => Seq::<(String, u64)>::empty() },
            out@.len() == k,
            forall|j: int| 0 <= j < k ==> ((#[trigger] ids@[j]) matches Some(id) && out@[j] == id),
            forall|id: Seq<char>| #[trigger] read_time(times@, id) == read_time(given, id),
    {
        match &ids[k] {
            Some(id) => {
                if read_time_exec(&times, id.as_str()) == 0 {
                    set_read_time(&mut times, id.as_str(), 0);
                }
                out.push(id.clone());
            },
            None => {
                assert(ids@[k as int] is None);
                return Err(String::from_str("news read id must be a string"));
            },
        }
    }
    Ok(NewsState { read: out, read_at: times })
}

/// The event notifications after copying legacy ones in: an event already stored
/// keeps its stored value, and each legacy event not yet stored is added.
pub fn migrate_events(stored: Vec<(String, String)>, legacy: Vec<(String, String)>) -> (r: Vec<(String, String)>)
    requires
        distinct_keys(stored@),
        distinct_keys(legacy@),
    ensures
        distinct_keys(r@),
        entries_map(r@) == entries_map(legacy@).union_prefer_right(entries_map(stored@)),
{
    overlay(legacy, stored)
}

/// Copying legacy events never replaces a stored event, and adds each legacy event
/// that was not stored.
pub proof fn stored_events_win(stored: Map<Seq<char>, String>, legacy: Map<Seq<char>, String>, name: Seq<char>)
    ensures
        stored.dom().contains(name) ==> legacy.union_prefer_right(stored)[name] == stored[name],
        !stored.dom().contains(name) && legacy.dom().contains(name) ==> legacy.union_prefer_right(stored)[name] == legacy[name],
        legacy.union_prefer_right(stored).dom() == legacy.dom().union(stored.dom()),
{
    assert(legacy.union_prefer_right(stored).dom() =~= legacy.dom().union(stored.dom()));
}

/// `<root>/shroudforge/config/news/event-schema.json`: the schema of an event
/// notification.
pub fn event_schema_path(root: &str) -> (r: String)
    ensures
        r@ == join_spec(join_spec(join_spec(join_spec(root@, "shroudforge"@), "config"@), "news"@), "event-schema.json"@),
{
    let news = directory(root);
    join(news.as_str(), "event-schema.json")
}

/// Checks an event notification (as JSON text) against the event schema: any
/// problem is reported in the words of the check.
pub fn validate_event(schema: &str, event: &str) -> (r: Result<(), String>)
    ensures
        match document_verdict(schema@, event@) {
            Ok(()) => r is Ok,
            Err((_, e)) => r matches Err(m) && m@ == e,
        },
{
    match check_document(schema, event) {
        Ok(()) => Ok(()),
        Err((_, e)) => Err(e),
    }
}

} // verus!
