//! The notices of the control window: event notifications and news messages,
//! trimmed to what the window shows and newest first.
use vstd::prelude::*;
use crate::text::{chars_of, string_of, starts_with, str_starts_with};

verus! {

/// A notice title keeps at most this many characters.
pub const TITLE_LIMIT: usize = 120;

/// A notice message keeps at most this many characters.
pub const MESSAGE_LIMIT: usize = 2000;

/// A notice lists at most this many changelog lines.
pub const NOTICE_CHANGELOG_LIMIT: usize = 50;

/// The window shows at most this many notices.
pub const NOTICE_LIMIT: usize = 100;

/// What an event or news message says, as read from its document.
#[derive(Debug)]
pub struct NoticeFields {
    pub id: String,
    pub mod_id: Option<String>,
    pub title: String,
    pub message: String,
    pub level: Option<String>,
    pub action_url: Option<String>,
    pub updated_at: Option<u64>,
    pub kind: Option<String>,
    /// The changelog lines that are strings, in their order.
    pub changelog: Vec<String>,
}

/// A notice as the window shows it.
#[derive(Debug)]
pub struct Notice {
    pub id: String,
    pub mod_id: String,
    pub title: String,
    pub message: String,
    pub level: String,
    pub action_url: Option<String>,
    pub updated_at: u64,
    pub kind: Option<String>,
    pub changelog: Vec<String>,
}

/// The first `n` items of `s`, or all of them.
pub open spec fn first_items<A>(s: Seq<A>, n: nat) -> Seq<A> {
    if s.len() <= n {
        s
    } else {
        s.take(n as int)
    }
}

/// The first `n` characters of a text.
pub fn take_chars(s: &str, n: usize) -> (r: String)
    ensures
        r@ == first_items(s@, n as nat),
{
    let cs = chars_of(s);
    let mut v: Vec<char> = Vec::new();
    let mut i: usize = 0;
    while i < cs.len() && i < n
        invariant
            cs@ == s@,
            i <= cs@.len(),
            i <= n,
            v@ == cs@.take(i as int),
        decreases cs@.len() - i,
    {
        v.push(cs[i]);
        i = i + 1;
        assert(v@ =~= cs@.take(i as int));
    }
    proof {
        if cs@.len() <= n {
            assert(v@ =~= cs@);
        }
    }
    string_of(&v)
}

/// The notice of an event or news message: the title and message are cut to their
/// limits, a notice without a mod belongs to ShroudForge, one without a level is
/// informational, an action URL other than `https://` is dropped and a missing time
/// counts as zero.
pub fn notice_of(fields: NoticeFields) -> (r: Notice)
    ensures
        r.id == fields.id,
        r.mod_id@ == match fields.mod_id {
            Some(m) => m@,
            None => "shroudforge"@,
        },
        r.title@ == first_items(fields.title@, TITLE_LIMIT as nat),
        r.message@ == first_items(fields.message@, MESSAGE_LIMIT as nat),
        r.level@ == match fields.level {
            Some(l) => l@,
            None => "info"@,
        },
        r.action_url == match fields.action_url {
            Some(u) => if starts_with(u@, "https://"@) {
                Some(u)
            } else {
                None
            },
            None => None,
        },
        r.updated_at == match fields.updated_at {
            Some(t) => t,
            None => 0,
        },
        r.kind == fields.kind,
        r.changelog@ == first_items(fields.changelog@, NOTICE_CHANGELOG_LIMIT as nat),
{
    let title = take_chars(fields.title.as_str(), TITLE_LIMIT);
    let message = take_chars(fields.message.as_str(), MESSAGE_LIMIT);
    let action_url = match fields.action_url {
        Some(u) => if str_starts_with(u.as_str(), "https://") {
            Some(u)
        } else {
            None
        },
        None => None,
    };
    let mod_id = match fields.mod_id {
        Some(m) => m,
        None => String::from_str("shroudforge"),
    };
    let level = match fields.level {
        Some(l) => l,
        None => String::from_str("info"),
    };
    let updated_at = match fields.updated_at {
        Some(t) => t,
        None => 0,
    };
    let mut changelog = fields.changelog;
    changelog.truncate(NOTICE_CHANGELOG_LIMIT);
    Notice {
        id: fields.id,
        mod_id,
        title,
        message,
        level,
        action_url,
        updated_at,
        kind: fields.kind,
        changelog,
    }
}

/// Position `j` is among those that `order` lists.
pub open spec fn lists_position(order: Seq<usize>, j: int) -> bool {
    exists|k: int| 0 <= k < order.len() && order[k] as int == j
}

/// Notice `i` is shown before notice `j`: it is newer, or as new and came first.
pub open spec fn shown_before(times: Seq<u64>, i: int, j: int) -> bool {
    times[i] > times[j] || (times[i] == times[j] && i < j)
}

/// `order` lists positions of `times` once each, newest first and equal times in
/// their first order, and every position it leaves out comes after all it lists.
pub open spec fn newest_first(times: Seq<u64>, order: Seq<usize>, limit: nat) -> bool {
    &&& order.len() == if times.len() <= limit { times.len() } else { limit }
    &&& forall|k: int| 0 <= k < order.len() ==> order[k] < times.len()
    &&& forall|a: int, b: int|
        #![trigger order[a], order[b]]
        0 <= a < b < order.len() ==> order[a] != order[b] && shown_before(times, order[a] as int, order[b] as int)
    &&& forall|i: int, k: int|
        0 <= i < times.len() && !lists_position(order, i) && 0 <= k < order.len()
            ==> #[trigger] shown_before(times, order[k] as int, i)
}

/// The positions of the notices that the window shows, in the order it shows
/// them: newest first, notices of the same time in their first order, at most
/// the notice limit of them.
pub fn notice_order(times: &Vec<u64>) -> (order: Vec<usize>)
    ensures
        newest_first(times@, order@, NOTICE_LIMIT as nat),
{
    let mut order: Vec<usize> = Vec::new();
    for i in 0..times.len()
        invariant
            order@.len() == i,
            forall|k: int| 0 <= k < order@.len() ==> order@[k] < i,
            forall|j: int| 0 <= j < i ==> #[trigger] lists_position(order@, j),
            forall|a: int, b: int|
                #![trigger order@[a], order@[b]]
                0 <= a < b < order@.len() ==> order@[a] != order@[b]
                    && shown_before(times@, order@[a] as int, order@[b] as int),
    {
        let mut pos: usize = 0;
        while pos < order.len() && times[order[pos]] >= times[i]
            invariant
                i < times@.len(),
                pos <= order@.len(),
                forall|k: int| 0 <= k < order@.len() ==> order@[k] < i,
                forall|k: int| 0 <= k < pos ==> times@[order@[k] as int] >= times@[i as int],
            decreases order@.len() - pos,
        {
            pos = pos + 1;
        }
        let ghost old_order = order@;
        order.insert(pos, i);
        proof {
            let n = order@;
            assert forall|k: int| 0 <= k < n.len() implies n[k] < i + 1 by {
                if k < pos {
                    assert(n[k] == old_order[k]);
                } else if k > pos {
                    assert(n[k] == old_order[k - 1]);
                }
            }
            assert forall|j: int| 0 <= j < i + 1 implies #[trigger] lists_position(n, j) by {
                if j == i {
                    assert(n[pos as int] == i);
                } else {
                    assert(lists_position(old_order, j));
                    let k = choose|k: int| 0 <= k < old_order.len() && old_order[k] as int == j;
                    if k < pos {
                        assert(n[k] == old_order[k]);
                    } else {
                        assert(n[k + 1] == old_order[k]);
                    }
                }
            }
            assert forall|a: int, b: int| #![trigger n[a], n[b]] 0 <= a < b < n.len() implies n[a] != n[b]
                && shown_before(times@, n[a] as int, n[b] as int) by {
                if a < pos && b < pos {
                    assert(n[a] == old_order[a] && n[b] == old_order[b]);
                } else if a < pos && b == pos {
                    assert(n[a] == old_order[a] && old_order[a] < i);
                } else if a < pos && b > pos {
                    assert(n[a] == old_order[a] && n[b] == old_order[b - 1]);
                } else if a == pos {
                    assert(n[b] == old_order[b - 1] && old_order[b - 1] < i);
                    let first = old_order[pos as int] as int;
                    if b - 1 > pos {
                        assert(shown_before(times@, first, old_order[b - 1] as int));
                    }
                } else {
                    assert(n[a] == old_order[a - 1] && n[b] == old_order[b - 1]);
                }
            }
        }
    }
    let ghost full = order@;
    order.truncate(NOTICE_LIMIT);
    proof {
        let o = order@;
        assert forall|i: int, k: int| 0 <= i < times@.len() && !lists_position(o, i) && 0 <= k < o.len()
            implies #[trigger] shown_before(times@, o[k] as int, i) by {
            assert(lists_position(full, i));
            let m = choose|m: int| 0 <= m < full.len() && full[m] as int == i;
            assert(o[k] == full[k]);
            if m <= k {
                assert(lists_position(o, i)) by {
                    assert(o[m] == full[m]);
                }
            }
            assert(full[k] != full[m] && shown_before(times@, full[k] as int, full[m] as int));
        }
    }
    order
}

} // verus!
