//! Small keyed tables: a list of entries, each a text key with a value, read as a
//! map. With distinct keys, an entry can be found and replaced by its key.
use vstd::prelude::*;
use crate::text::str_equal;

verus! {

/// Whether a key occurs among the entries.
pub open spec fn key_in<V>(entries: Seq<(String, V)>, key: Seq<char>) -> bool {
    exists|i: int| 0 <= i < entries.len() && #[trigger] entries[i].0@ == key
}

/// The entries as a map from key to value; a later entry under a key replaces an
/// earlier one.
pub open spec fn entries_map<V>(entries: Seq<(String, V)>) -> Map<Seq<char>, V>
    decreases entries.len(),
{
    if entries.len() == 0 {
        Map::empty()
    } else {
        entries_map(entries.drop_last()).insert(entries.last().0@, entries.last().1)
    }
}

pub proof fn lemma_entries_map_dom<V>(entries: Seq<(String, V)>, key: Seq<char>)
    ensures
        entries_map(entries).dom().contains(key) == key_in(entries, key),
    decreases entries.len(),
{
    if entries.len() > 0 {
        let init = entries.drop_last();
        lemma_entries_map_dom(init, key);
        if key_in(init, key) {
            let i = choose|i: int| 0 <= i < init.len() && #[trigger] init[i].0@ == key;
            assert(entries[i].0@ == key);
        }
        if key_in(entries, key) && entries.last().0@ != key {
            let i = choose|i: int| 0 <= i < entries.len() && #[trigger] entries[i].0@ == key;
            assert(init[i].0@ == key);
        }
    }
}

pub proof fn lemma_entries_map_value<V>(entries: Seq<(String, V)>, i: int)
    requires
        0 <= i < entries.len(),
        forall|j: int| 0 <= j < entries.len() && j != i ==> #[trigger] entries[j].0@ != entries[i].0@,
    ensures
        entries_map(entries).dom().contains(entries[i].0@),
        entries_map(entries)[entries[i].0@] == entries[i].1,
    decreases entries.len(),
{
    lemma_entries_map_dom(entries, entries[i].0@);
    assert(key_in(entries, entries[i].0@));
    if i < entries.len() - 1 {
        let init = entries.drop_last();
        assert forall|j: int| 0 <= j < init.len() && j != i implies #[trigger] init[j].0@ != init[i].0@ by {
            assert(init[j] == entries[j]);
        }
        lemma_entries_map_value(init, i);
    }
}

pub proof fn lemma_set_entry<V>(before: Seq<(String, V)>, i: int, entry: (String, V))
    requires
        0 <= i < before.len(),
        before[i].0@ == entry.0@,
        forall|a: int, b: int| 0 <= a < b < before.len() ==> #[trigger] before[a].0@ != #[trigger] before[b].0@,
    ensures
        entries_map(before.update(i, entry)) == entries_map(before).insert(entry.0@, entry.1),
{
    let after = before.update(i, entry);
    let key = entry.0@;
    assert forall|a: int, b: int| 0 <= a < b < after.len() implies #[trigger] after[a].0@ != #[trigger] after[b].0@ by {
        assert(after[a].0@ == before[a].0@);
        assert(after[b].0@ == before[b].0@);
    }
    assert forall|k: Seq<char>| #[trigger] entries_map(after).dom().contains(k) == entries_map(before).insert(key, entry.1).dom().contains(k) by {
        lemma_entries_map_dom(after, k);
        lemma_entries_map_dom(before, k);
        if key_in(before, k) {
            let j = choose|j: int| 0 <= j < before.len() && #[trigger] before[j].0@ == k;
            assert(after[j].0@ == k);
        }
        if key_in(after, k) {
            let j = choose|j: int| 0 <= j < after.len() && #[trigger] after[j].0@ == k;
            assert(before[j].0@ == k);
        }
        if k == key {
            assert(after[i].0@ == k);
        }
    }
    assert forall|k: Seq<char>| entries_map(after).dom().contains(k) implies #[trigger] entries_map(after)[k] == entries_map(before).insert(key, entry.1)[k] by {
        lemma_entries_map_dom(after, k);
        let j = choose|j: int| 0 <= j < after.len() && #[trigger] after[j].0@ == k;
        assert forall|m: int| 0 <= m < after.len() && m != j implies #[trigger] after[m].0@ != after[j].0@ by {
            if m < j { assert(after[m].0@ != after[j].0@); } else { assert(after[j].0@ != after[m].0@); }
        }
        lemma_entries_map_value(after, j);
        if j != i {
            assert(before[j] == after[j]);
            assert forall|m: int| 0 <= m < before.len() && m != j implies #[trigger] before[m].0@ != before[j].0@ by {
                if m < j { assert(before[m].0@ != before[j].0@); } else { assert(before[j].0@ != before[m].0@); }
            }
            lemma_entries_map_value(before, j);
            assert(k != key);
        } else {
            assert(after[j] == entry);
        }
    }
    assert(entries_map(after) =~= entries_map(before).insert(key, entry.1));
}

/// The keys of the entries are distinct.
pub open spec fn distinct_keys<V>(entries: Seq<(String, V)>) -> bool {
    forall|i: int, j: int| 0 <= i < j < entries.len() ==> #[trigger] entries[i].0@ != #[trigger] entries[j].0@
}

/// The position of the entry under `key`.
pub fn find_key<V>(entries: &Vec<(String, V)>, key: &str) -> (r: Option<usize>)
    ensures
        r.is_none() ==> !key_in(entries@, key@),
        r matches Some(i) ==> i < entries@.len() && entries@[i as int].0@ == key@,
{
    for i in 0..entries.len()
        invariant
            forall|j: int| 0 <= j < i ==> #[trigger] entries@[j].0@ != key@,
    {
        if str_equal(entries[i].0.as_str(), key) {
            return Some(i);
        }
    }
    None
}

/// The value under `key`.
pub fn get_key<'a, V>(entries: &'a Vec<(String, V)>, key: &str) -> (r: Option<&'a V>)
    requires
        distinct_keys(entries@),
    ensures
        r.is_some() == entries_map(entries@).dom().contains(key@),
        r matches Some(v) ==> *v == entries_map(entries@)[key@],
{
    proof { lemma_entries_map_dom(entries@, key@); }
    match find_key(entries, key) {
        Some(i) => {
            proof {
                assert forall|j: int| 0 <= j < entries@.len() && j != i implies #[trigger] entries@[j].0@ != entries@[i as int].0@ by {
                    if j < i { assert(entries@[j].0@ != entries@[i as int].0@); }
                }
                lemma_entries_map_value(entries@, i as int);
            }
            Some(&entries[i].1)
        },
        None => None,
    }
}

/// Sets the value under `key`, replacing the entry that holds it or adding one.
pub fn set_key<V>(entries: &mut Vec<(String, V)>, key: &str, value: V)
    requires
        distinct_keys(old(entries)@),
    ensures
        distinct_keys(final(entries)@),
        entries_map(final(entries)@) == entries_map(old(entries)@).insert(key@, value),
{
    let ghost before = entries@;
    proof { lemma_entries_map_dom(before, key@); }
    match find_key(entries, key) {
        Some(i) => {
            let owned = key.to_string();
            let ghost entry = (owned, value);
            proof { lemma_set_entry(before, i as int, entry); }
            let _ = entries.set(i, (owned, value));
            proof {
                assert(entries@ == before.update(i as int, entry));
                assert forall|a: int, b: int| 0 <= a < b < entries@.len() implies #[trigger] entries@[a].0@ != #[trigger] entries@[b].0@ by {
                    assert(entries@[a].0@ == before[a].0@);
                    assert(entries@[b].0@ == before[b].0@);
                }
            }
        },
        None => {
            let owned = key.to_string();
            entries.push((owned, value));
            proof {
                assert(entries@.drop_last() =~= before);
                assert forall|a: int, b: int| 0 <= a < b < entries@.len() implies #[trigger] entries@[a].0@ != #[trigger] entries@[b].0@ by {
                    if b == before.len() {
                        assert(entries@[a] == before[a]);
                    } else {
                        assert(entries@[a] == before[a] && entries@[b] == before[b]);
                    }
                }
            }
        },
    }
}

} // verus!
