//! Recoverable publication of one parsed KFC file set.
//!
//! Mods only write into a private staging directory. Publishing copies the staged
//! files over the game's files, the index (`.kfc`) last; recovery restores the
//! previous complete set after an interrupted publication. This module decides
//! which names a transaction may touch, in which order they are published, and what
//! recovery does; the caller performs the file operations.
use vstd::prelude::*;
use crate::text::{chars_of, string_of, extend_chars, chars_equal, chars_less, seq_less, lemma_seq_less_total, lemma_seq_less_transitive, lemma_seq_less_irreflexive};
use crate::paths::{join, join_spec};

verus! {

/// The staging directory of the set `stem`: `<root>/.<stem>.shroudforge-stage`.
pub fn directory(root: &str, stem: &str) -> (r: String)
    ensures
        r@ == join_spec(root@, seq!['.'] + stem@ + ".shroudforge-stage"@),
{
    let mut v: Vec<char> = Vec::new();
    v.push('.');
    extend_chars(&mut v, stem);
    extend_chars(&mut v, ".shroudforge-stage");
    let name = string_of(&v);
    assert(v@ =~= seq!['.'] + stem@ + ".shroudforge-stage"@);
    join(root, name.as_str())
}

pub open spec fn is_ascii_digit(c: char) -> bool {
    '0' <= c <= '9'
}

/// A file of the set `stem`: `<stem>.kfc`, `<stem>.kfc_resources`, or a data file
/// `<stem>_<digits>.dat` with at least one digit.
pub open spec fn valid_name_spec(stem: Seq<char>, name: Seq<char>) -> bool {
    ||| name == stem + seq!['.', 'k', 'f', 'c']
    ||| name == stem + seq!['.', 'k', 'f', 'c', '_', 'r', 'e', 's', 'o', 'u', 'r', 'c', 'e', 's']
    ||| {
        &&& name.len() >= stem.len() + 6
        &&& name.take(stem.len() as int) == stem
        &&& name[stem.len() as int] == '_'
        &&& name.skip(name.len() - 4) == seq!['.', 'd', 'a', 't']
        &&& forall|i: int| stem.len() + 1 <= i < name.len() - 4 ==> is_ascii_digit(#[trigger] name[i])
    }
}

fn with_suffix(stem: &Vec<char>, suffix: &[char]) -> (r: Vec<char>)
    ensures
        r@ == stem@ + suffix@,
{
    let mut r: Vec<char> = Vec::new();
    for i in 0..stem.len()
        invariant
            r@ == stem@.take(i as int),
    {
        r.push(stem[i]);
        assert(stem@.take(i + 1) == stem@.take(i as int).push(stem@[i as int]));
    }
    assert(stem@.take(stem@.len() as int) == stem@);
    for i in 0..suffix.len()
        invariant
            r@ == stem@ + suffix@.take(i as int),
    {
        r.push(suffix[i]);
        assert(suffix@.take(i + 1) == suffix@.take(i as int).push(suffix@[i as int]));
    }
    assert(suffix@.take(suffix@.len() as int) == suffix@);
    r
}

fn valid_name_chars(stem: &Vec<char>, name: &Vec<char>) -> (r: bool)
    ensures
        r == valid_name_spec(stem@, name@),
{
    let index = with_suffix(stem, &['.', 'k', 'f', 'c']);
    assert(['.', 'k', 'f', 'c']@ == seq!['.', 'k', 'f', 'c']);
    if chars_equal(name, &index) {
        return true;
    }
    let resources = with_suffix(stem, &['.', 'k', 'f', 'c', '_', 'r', 'e', 's', 'o', 'u', 'r', 'c', 'e', 's']);
    assert(['.', 'k', 'f', 'c', '_', 'r', 'e', 's', 'o', 'u', 'r', 'c', 'e', 's']@
        == seq!['.', 'k', 'f', 'c', '_', 'r', 'e', 's', 'o', 'u', 'r', 'c', 'e', 's']);
    if chars_equal(name, &resources) {
        return true;
    }
    let s = stem.len();
    let n = name.len();
    if n < 6 || s > n - 6 {
        return false;
    }
    for i in 0..s
        invariant
            s == stem@.len(),
            n == name@.len(),
            s + 6 <= n,
            forall|j: int| 0 <= j < i ==> name@[j] == stem@[j],
    {
        if name[i] != stem[i] {
            assert(name@.take(s as int)[i as int] != stem@[i as int]);
            return false;
        }
    }
    assert(name@.take(s as int) =~= stem@);
    if name[s] != '_' || name[n - 4] != '.' || name[n - 3] != 'd' || name[n - 2] != 'a' || name[n - 1] != 't' {
        proof {
            if name@.skip(n - 4) == seq!['.', 'd', 'a', 't'] {
                assert(name@.skip(n - 4)[0] == name@[n - 4]);
                assert(name@.skip(n - 4)[1] == name@[n - 3]);
                assert(name@.skip(n - 4)[2] == name@[n - 2]);
                assert(name@.skip(n - 4)[3] == name@[n - 1]);
            }
        }
        return false;
    }
    assert(name@.skip(n - 4) =~= seq!['.', 'd', 'a', 't']);
    let first = s + 1;
    let end = n - 4;
    for i in first..end
        invariant
            end == n - 4,
            first == s + 1,
            n == name@.len(),
            name@ != stem@ + seq!['.', 'k', 'f', 'c'],
            name@ != stem@ + seq!['.', 'k', 'f', 'c', '_', 'r', 'e', 's', 'o', 'u', 'r', 'c', 'e', 's'],
            s == stem@.len(),
            forall|j: int| s + 1 <= j < i ==> is_ascii_digit(#[trigger] name@[j]),
    {
        if !('0' <= name[i] && name[i] <= '9') {
            assert(!is_ascii_digit(name@[i as int]));
            return false;
        }
    }
    true
}

/// Decides whether `name` belongs to the file set `stem`.
pub fn valid_name(stem: &str, name: &str) -> (r: bool)
    ensures
        r == valid_name_spec(stem@, name@),
{
    let s = chars_of(stem);
    let n = chars_of(name);
    valid_name_chars(&s, &n)
}

} // verus!

verus! {

/// The name ends with `.kfc`: the index, published last.
pub open spec fn is_index(name: Seq<char>) -> bool {
    name.len() >= 4 && name.skip(name.len() - 4) == seq!['.', 'k', 'f', 'c']
}

/// Publication order: data files before the index, then by name.
pub open spec fn publish_before(a: Seq<char>, b: Seq<char>) -> bool {
    (!is_index(a) && is_index(b)) || (is_index(a) == is_index(b) && seq_less(a, b))
}

pub open spec fn publish_leq(a: Seq<char>, b: Seq<char>) -> bool {
    a == b || publish_before(a, b)
}

proof fn lemma_publish_total(a: Seq<char>, b: Seq<char>)
    ensures
        a == b || publish_before(a, b) || publish_before(b, a),
        !(publish_before(a, b) && publish_before(b, a)),
        !publish_before(a, a),
{
    lemma_seq_less_total(a, b);
    lemma_seq_less_irreflexive(a);
}

proof fn lemma_publish_transitive(a: Seq<char>, b: Seq<char>, c: Seq<char>)
    requires
        publish_before(a, b),
        publish_before(b, c),
    ensures
        publish_before(a, c),
{
    if is_index(a) == is_index(b) && is_index(b) == is_index(c) {
        lemma_seq_less_transitive(a, b, c);
    }
}

fn is_index_chars(name: &Vec<char>) -> (r: bool)
    ensures
        r == is_index(name@),
{
    let n = name.len();
    if n < 4 {
        return false;
    }
    let r = name[n - 4] == '.' && name[n - 3] == 'k' && name[n - 2] == 'f' && name[n - 1] == 'c';
    proof {
        let t = name@.skip(n - 4);
        assert(t[0] == name@[n - 4] && t[1] == name@[n - 3] && t[2] == name@[n - 2] && t[3] == name@[n - 1]);
        if r {
            assert(t =~= seq!['.', 'k', 'f', 'c']);
        }
    }
    r
}

fn publish_before_exec(a: &String, b: &String) -> (r: bool)
    ensures
        r == publish_before(a@, b@),
{
    let x = chars_of(a.as_str());
    let y = chars_of(b.as_str());
    let ix = is_index_chars(&x);
    let iy = is_index_chars(&y);
    (!ix && iy) || (ix == iy && chars_less(&x, &y))
}

/// An entry of the staging directory.
#[derive(Debug)]
pub struct StageEntry {
    pub name: String,
    pub is_file: bool,
}

/// A staged file and whether the game directory held a file of that name, whose
/// copy the transaction keeps for recovery.
#[derive(Debug)]
pub struct PublishRecord {
    pub name: String,
    pub existed: bool,
}

/// A transaction or its journal names something outside its file set.
#[derive(Debug, PartialEq, Eq, Structural)]
pub enum TransactionError {
    Invalid,
}

/// The names of the staged entries.
pub open spec fn entry_names(entries: Seq<StageEntry>) -> Seq<String> {
    entries.map_values(|e: StageEntry| e.name)
}

/// A staged entry is a file of the set `stem`.
pub open spec fn entry_valid(stem: Seq<char>, entry: StageEntry) -> bool {
    entry.is_file && valid_name_spec(stem, entry.name@)
}

/// Every staged entry is a file of the set `stem`.
pub open spec fn stage_valid(stem: Seq<char>, entries: Seq<StageEntry>) -> bool {
    forall|k: int| 0 <= k < entries.len() ==> entry_valid(stem, #[trigger] entries[k])
}

/// Each name is published no earlier than the names before it.
pub open spec fn publication_sorted(order: Seq<String>) -> bool {
    forall|a: int, b: int| 0 <= a < b < order.len() ==> publish_leq(#[trigger] order[a]@, #[trigger] order[b]@)
}

/// The order in which the staged files are published: every staged entry must be a
/// file of the set (otherwise the transaction is invalid); data files come first and
/// the index last, each group by name.
pub fn publication_order(stem: &str, entries: &Vec<StageEntry>) -> (r: Result<Vec<String>, TransactionError>)
    ensures
        r is Err <==> !stage_valid(stem@, entries@),
        r matches Ok(order) ==> order@.to_multiset() == entry_names(entries@).to_multiset()
            && publication_sorted(order@),
{
    let st = chars_of(stem);
    let mut order: Vec<String> = Vec::new();
    let ghost names = entry_names(entries@);
    assert(order@ =~= names.take(0));
    for k in 0..entries.len()
        invariant
            st@ == stem@,
            names == entry_names(entries@),
            forall|j: int| 0 <= j < k ==> entry_valid(stem@, #[trigger] entries@[j]),
            order@.to_multiset() == names.take(k as int).to_multiset(),
            forall|a: int, b: int| 0 <= a < b < order@.len() ==> publish_leq(#[trigger] order@[a]@, #[trigger] order@[b]@),
    {
        let entry = &entries[k];
        let nm = chars_of(entry.name.as_str());
        if !entry.is_file || !valid_name_chars(&st, &nm) {
            return Err(TransactionError::Invalid);
        }
        let name = entry.name.clone();
        let mut pos: usize = 0;
        while pos < order.len() && !publish_before_exec(&name, &order[pos])
            invariant
                pos <= order@.len(),
                forall|a: int| 0 <= a < pos ==> !publish_before(name@, #[trigger] order@[a]@),
            decreases order.len() - pos,
        {
            pos = pos + 1;
        }
        let ghost old_order = order@;
        let ghost name_value = name;
        order.insert(pos, name);
        proof {
            assert(names.take(k + 1) == names.take(k as int).push(names[k as int]));
            assert(names[k as int] == entry.name);
            assert(name_value == entry.name);
            assert(order@ == old_order.insert(pos as int, name_value));
            vstd::seq_lib::to_multiset_insert(old_order, pos as int, name_value);
            vstd::seq_lib::to_multiset_build(names.take(k as int), name_value);
            lemma_insert_sorted(old_order, pos as int, name_value);
        }
        assert(entry_valid(stem@, entries@[k as int]));
    }
    assert(names.take(entries@.len() as int) == names);
    Ok(order)
}

proof fn lemma_insert_sorted(order: Seq<String>, pos: int, name: String)
    requires
        0 <= pos <= order.len(),
        publication_sorted(order),
        forall|a: int| 0 <= a < pos ==> !publish_before(name@, #[trigger] order[a]@),
        pos < order.len() ==> publish_before(name@, order[pos]@),
    ensures
        publication_sorted(order.insert(pos, name)),
{
    let r = order.insert(pos, name);
    assert forall|a: int| 0 <= a < pos implies publish_leq(#[trigger] order[a]@, name@) by {
        lemma_publish_total(order[a]@, name@);
    }
    assert forall|a: int| pos <= a < order.len() implies publish_leq(name@, #[trigger] order[a]@) by {
        if a > pos {
            lemma_publish_total(order[pos]@, order[a]@);
            if publish_before(order[pos]@, order[a]@) {
                lemma_publish_transitive(name@, order[pos]@, order[a]@);
            }
        }
    }
    assert forall|a: int, b: int| 0 <= a < b < r.len() implies publish_leq(#[trigger] r[a]@, #[trigger] r[b]@) by {
        if a < pos && b < pos {
            assert(r[a] == order[a] && r[b] == order[b]);
        } else if a < pos && b == pos {
            assert(r[a] == order[a]);
        } else if a < pos {
            assert(r[a] == order[a] && r[b] == order[b - 1]);
            lemma_publish_total(order[a]@, name@);
            lemma_publish_total(name@, order[b - 1]@);
            if publish_before(order[a]@, name@) && publish_before(name@, order[b - 1]@) {
                lemma_publish_transitive(order[a]@, name@, order[b - 1]@);
            }
        } else if a == pos {
            assert(r[b] == order[b - 1]);
        } else {
            assert(r[a] == order[a - 1] && r[b] == order[b - 1]);
        }
    }
}

/// Every journal record names a file of the set `stem`.
pub open spec fn records_valid(stem: Seq<char>, records: Seq<PublishRecord>) -> bool {
    forall|k: int| 0 <= k < records.len() ==> valid_name_spec(stem, #[trigger] records[k].name@)
}

/// Checks a journal read back for recovery: a record naming anything outside the
/// set makes the transaction invalid.
pub fn check_records(stem: &str, records: &Vec<PublishRecord>) -> (r: Result<(), TransactionError>)
    ensures
        r is Ok <==> records_valid(stem@, records@),
{
    let st = chars_of(stem);
    for k in 0..records.len()
        invariant
            st@ == stem@,
            forall|j: int| 0 <= j < k ==> valid_name_spec(stem@, #[trigger] records@[j].name@),
    {
        let nm = chars_of(records[k].name.as_str());
        if !valid_name_chars(&st, &nm) {
            return Err(TransactionError::Invalid);
        }
    }
    Ok(())
}

/// One step of recovery.
#[derive(Debug)]
pub enum RecoveryAction {
    /// Put the kept copy of the original file back.
    Restore { name: String },
    /// Delete the published file; the game directory had none before.
    Remove { name: String },
}

pub open spec fn recovery_action(record: PublishRecord) -> RecoveryAction {
    if record.existed {
        RecoveryAction::Restore { name: record.name }
    } else {
        RecoveryAction::Remove { name: record.name }
    }
}

/// The recovery steps for a journal, one per record, in journal order.
pub open spec fn recovery_actions(records: Seq<PublishRecord>) -> Seq<RecoveryAction> {
    records.map_values(|r: PublishRecord| recovery_action(r))
}

/// Recovery after an interrupted publication: restore each file that existed and
/// remove each file that did not.
pub fn recover(records: &Vec<PublishRecord>) -> (r: Vec<RecoveryAction>)
    ensures
        r@ == recovery_actions(records@),
{
    let mut r: Vec<RecoveryAction> = Vec::new();
    for k in 0..records.len()
        invariant
            r@ == recovery_actions(records@.take(k as int)),
    {
        let record = &records[k];
        let action = if record.existed {
            RecoveryAction::Restore { name: record.name.clone() }
        } else {
            RecoveryAction::Remove { name: record.name.clone() }
        };
        r.push(action);
        assert(recovery_actions(records@.take(k + 1)) =~= recovery_actions(records@.take(k as int)).push(recovery_action(records@[k as int])));
    }
    assert(records@.take(records@.len() as int) =~= records@);
    r
}

/// Aborting a transaction is recovering it.
pub fn abort(records: &Vec<PublishRecord>) -> (r: Vec<RecoveryAction>)
    ensures
        r@ == recovery_actions(records@),
{
    recover(records)
}

} // verus!

verus! {

/// The regular files of a directory: each name with its contents.
pub open spec fn has_name(records: Seq<PublishRecord>, name: Seq<char>) -> bool {
    exists|i: int| 0 <= i < records.len() && #[trigger] records[i].name@ == name
}

/// No two journal records name the same file.
pub open spec fn distinct_names(records: Seq<PublishRecord>) -> bool {
    forall|i: int, j: int| 0 <= i < j < records.len() ==> #[trigger] records[i].name@ != #[trigger] records[j].name@
}

/// Each record says truly whether the game directory held a file of its name.
pub open spec fn journal_matches(records: Seq<PublishRecord>, game: Map<Seq<char>, Seq<u8>>) -> bool {
    forall|i: int| 0 <= i < records.len() ==> #[trigger] records[i].existed == game.dom().contains(records[i].name@)
}

/// The kept copies hold the game's contents of every file that existed.
pub open spec fn copies_kept(rollback: Map<Seq<char>, Seq<u8>>, records: Seq<PublishRecord>, game: Map<Seq<char>, Seq<u8>>) -> bool {
    forall|i: int| 0 <= i < records.len() && #[trigger] records[i].existed ==>
        rollback.dom().contains(records[i].name@) && rollback[records[i].name@] == game[records[i].name@]
}

/// `dir` equals `game` at every name that no record names.
pub open spec fn agrees_outside(dir: Map<Seq<char>, Seq<u8>>, game: Map<Seq<char>, Seq<u8>>, records: Seq<PublishRecord>) -> bool {
    forall|n: Seq<char>| !has_name(records, n) ==>
        (#[trigger] dir.dom().contains(n) == game.dom().contains(n) && (game.dom().contains(n) ==> dir[n] == game[n]))
}

/// The directory after the first `k` journal records were published from the stage.
pub open spec fn publish_prefix(dir: Map<Seq<char>, Seq<u8>>, staged: Map<Seq<char>, Seq<u8>>, records: Seq<PublishRecord>, k: nat) -> Map<Seq<char>, Seq<u8>>
    decreases k,
{
    if k == 0 || k > records.len() {
        dir
    } else {
        publish_prefix(dir, staged, records, (k - 1) as nat).insert(records[k - 1].name@, staged[records[k - 1].name@])
    }
}

/// The directory after one recovery step, with `rollback` the kept copies.
pub open spec fn apply_recovery_action(dir: Map<Seq<char>, Seq<u8>>, rollback: Map<Seq<char>, Seq<u8>>, action: RecoveryAction) -> Map<Seq<char>, Seq<u8>> {
    match action {
        RecoveryAction::Restore { name } => dir.insert(name@, rollback[name@]),
        RecoveryAction::Remove { name } => dir.remove(name@),
    }
}

/// The directory after the recovery steps, in order.
pub open spec fn apply_recovery(dir: Map<Seq<char>, Seq<u8>>, rollback: Map<Seq<char>, Seq<u8>>, actions: Seq<RecoveryAction>) -> Map<Seq<char>, Seq<u8>>
    decreases actions.len(),
{
    if actions.len() == 0 {
        dir
    } else {
        apply_recovery(apply_recovery_action(dir, rollback, actions[0]), rollback, actions.drop_first())
    }
}

#[verifier::spinoff_prover]
proof fn lemma_recovery_from(dir: Map<Seq<char>, Seq<u8>>, rollback: Map<Seq<char>, Seq<u8>>, records: Seq<PublishRecord>, game: Map<Seq<char>, Seq<u8>>)
    requires
        journal_matches(records, game),
        copies_kept(rollback, records, game),
        distinct_names(records),
        agrees_outside(dir, game, records),
    ensures
        apply_recovery(dir, rollback, recovery_actions(records)) == game,
    decreases records.len(),
{
    if records.len() == 0 {
        assert forall|n: Seq<char>| #[trigger] dir.dom().contains(n) == game.dom().contains(n) by {
            assert(!has_name(records, n));
        }
        assert forall|n: Seq<char>| game.dom().contains(n) implies #[trigger] dir[n] == game[n] by {
            assert(!has_name(records, n));
            assert(dir.dom().contains(n) == game.dom().contains(n));
        }
        assert(dir =~= game);
    } else {
        let r0 = records[0];
        let rest = records.drop_first();
        let actions = recovery_actions(records);
        assert(actions[0] == recovery_action(r0));
        assert(actions.drop_first() =~= recovery_actions(rest));
        let d1 = apply_recovery_action(dir, rollback, actions[0]);
        assert(r0.existed == game.dom().contains(r0.name@));
        assert forall|i: int| 0 <= i < rest.len() implies #[trigger] rest[i].existed == game.dom().contains(rest[i].name@) by {
            assert(rest[i] == records[i + 1]);
        }
        assert forall|i: int| 0 <= i < rest.len() && #[trigger] rest[i].existed implies
            rollback.dom().contains(rest[i].name@) && rollback[rest[i].name@] == game[rest[i].name@] by {
            assert(rest[i] == records[i + 1]);
        }
        assert forall|i: int, j: int| 0 <= i < j < rest.len() implies #[trigger] rest[i].name@ != #[trigger] rest[j].name@ by {
            assert(rest[i] == records[i + 1] && rest[j] == records[j + 1]);
        }
        assert forall|n: Seq<char>| !has_name(rest, n) implies
            (#[trigger] d1.dom().contains(n) == game.dom().contains(n) && (game.dom().contains(n) ==> d1[n] == game[n])) by {
            if n == r0.name@ {
                if r0.existed {
                    assert(records[0].existed);
                }
            } else {
                if has_name(records, n) {
                    let i = choose|i: int| 0 <= i < records.len() && #[trigger] records[i].name@ == n;
                    assert(i != 0);
                    assert(rest[i - 1] == records[i]);
                    assert(rest[i - 1].name@ == n);
                }
            }
        }
        lemma_recovery_from(d1, rollback, rest, game);
    }
}

proof fn lemma_publish_prefix_agrees(game: Map<Seq<char>, Seq<u8>>, staged: Map<Seq<char>, Seq<u8>>, records: Seq<PublishRecord>, k: nat)
    requires
        k <= records.len(),
    ensures
        agrees_outside(publish_prefix(game, staged, records, k), game, records),
    decreases k,
{
    if k > 0 {
        lemma_publish_prefix_agrees(game, staged, records, (k - 1) as nat);
        let name = records[k - 1].name@;
        assert forall|n: Seq<char>| !has_name(records, n) implies n != name by {
            assert(records[k - 1].name@ == name);
        }
    }
}

/// Recovery after a publication interrupted after any number of files brings the
/// game directory back to the file set it held before the transaction began.
pub proof fn recovery_restores_previous_set(
    game: Map<Seq<char>, Seq<u8>>,
    staged: Map<Seq<char>, Seq<u8>>,
    rollback: Map<Seq<char>, Seq<u8>>,
    records: Seq<PublishRecord>,
    k: nat,
)
    requires
        k <= records.len(),
        journal_matches(records, game),
        copies_kept(rollback, records, game),
        distinct_names(records),
    ensures
        apply_recovery(publish_prefix(game, staged, records, k), rollback, recovery_actions(records)) == game,
{
    lemma_publish_prefix_agrees(game, staged, records, k);
    lemma_recovery_from(publish_prefix(game, staged, records, k), rollback, records, game);
}

/// A completed publication holds the staged contents at every name of the journal
/// and leaves every other file of the game directory as it was.
pub proof fn commit_publishes_staged_set(
    game: Map<Seq<char>, Seq<u8>>,
    staged: Map<Seq<char>, Seq<u8>>,
    records: Seq<PublishRecord>,
    name: Seq<char>,
)
    ensures
        has_name(records, name) ==> publish_prefix(game, staged, records, records.len()).dom().contains(name)
            && publish_prefix(game, staged, records, records.len())[name] == staged[name],
        !has_name(records, name) ==> publish_prefix(game, staged, records, records.len()).dom().contains(name)
            == game.dom().contains(name) && (game.dom().contains(name) ==>
            publish_prefix(game, staged, records, records.len())[name] == game[name]),
{
    lemma_publish_prefix_agrees(game, staged, records, records.len());
    lemma_publish_prefix_holds(game, staged, records, records.len(), name);
    assert(records.take(records.len() as int) =~= records);
}

proof fn lemma_publish_prefix_holds(game: Map<Seq<char>, Seq<u8>>, staged: Map<Seq<char>, Seq<u8>>, records: Seq<PublishRecord>, k: nat, name: Seq<char>)
    requires
        k <= records.len(),
    ensures
        has_name(records.take(k as int), name) ==> publish_prefix(game, staged, records, k).dom().contains(name)
            && publish_prefix(game, staged, records, k)[name] == staged[name],
    decreases k,
{
    if k > 0 {
        lemma_publish_prefix_holds(game, staged, records, (k - 1) as nat, name);
        if has_name(records.take(k as int), name) && name != records[k - 1].name@ {
            let i = choose|i: int| 0 <= i < records.take(k as int).len() && #[trigger] records.take(k as int)[i].name@ == name;
            assert(records.take(k - 1)[i] == records.take(k as int)[i]);
            assert(has_name(records.take(k - 1), name));
        }
    }
    if has_name(records.take(k as int), name) {
        let i = choose|i: int| 0 <= i < records.take(k as int).len() && #[trigger] records.take(k as int)[i].name@ == name;
        assert(i < k);
    }
}

/// In a publication order of distinct names of the set, the index comes last.
pub proof fn index_published_last(stem: Seq<char>, order: Seq<String>, i: int)
    requires
        publication_sorted(order),
        forall|k: int| 0 <= k < order.len() ==> valid_name_spec(stem, #[trigger] order[k]@),
        forall|a: int, b: int| 0 <= a < b < order.len() ==> #[trigger] order[a]@ != #[trigger] order[b]@,
        0 <= i < order.len(),
        is_index(order[i]@),
    ensures
        i == order.len() - 1,
{
    if i < order.len() - 1 {
        let j = i + 1;
        assert(publish_leq(order[i]@, order[j]@));
        assert(order[i]@ != order[j]@);
        lemma_index_name(stem, order[i]@);
        lemma_index_name(stem, order[j]@);
    }
}

proof fn lemma_index_name(stem: Seq<char>, name: Seq<char>)
    requires
        valid_name_spec(stem, name),
    ensures
        is_index(name) <==> name == stem + seq!['.', 'k', 'f', 'c'],
{
    let r = stem + seq!['.', 'k', 'f', 'c', '_', 'r', 'e', 's', 'o', 'u', 'r', 'c', 'e', 's'];
    if name == r {
        assert(name.skip(name.len() - 4)[3] == 's');
    } else if name != stem + seq!['.', 'k', 'f', 'c'] {
        assert(name.skip(name.len() - 4) == seq!['.', 'd', 'a', 't']);
        if is_index(name) {
            assert(name.skip(name.len() - 4)[1] == 'k');
        }
    } else {
        assert(name.skip(name.len() - 4) =~= seq!['.', 'k', 'f', 'c']);
    }
}


/// The file that a recovery step acts on.
pub open spec fn action_name(action: RecoveryAction) -> Seq<char> {
    match action {
        RecoveryAction::Restore { name } => name@,
        RecoveryAction::Remove { name } => name@,
    }
}

/// Some step of `actions` acts on the file `name`.
pub open spec fn acts_on(actions: Seq<RecoveryAction>, name: Seq<char>) -> bool {
    exists|i: int| 0 <= i < actions.len() && action_name(#[trigger] actions[i]) == name
}

proof fn lemma_recovery_outside(dir: Map<Seq<char>, Seq<u8>>, rollback: Map<Seq<char>, Seq<u8>>, actions: Seq<RecoveryAction>, n: Seq<char>)
    requires
        !acts_on(actions, n),
    ensures
        apply_recovery(dir, rollback, actions).dom().contains(n) == dir.dom().contains(n),
        dir.dom().contains(n) ==> apply_recovery(dir, rollback, actions)[n] == dir[n],
    decreases actions.len(),
{
    if actions.len() > 0 {
        let rest = actions.drop_first();
        assert(action_name(actions[0]) != n);
        assert forall|i: int| 0 <= i < rest.len() implies action_name(#[trigger] rest[i]) != n by {
            assert(rest[i] == actions[i + 1]);
        }
        lemma_recovery_outside(apply_recovery_action(dir, rollback, actions[0]), rollback, rest, n);
    }
}

proof fn lemma_recovery_inside(d1: Map<Seq<char>, Seq<u8>>, d2: Map<Seq<char>, Seq<u8>>, rollback: Map<Seq<char>, Seq<u8>>, actions: Seq<RecoveryAction>, n: Seq<char>)
    requires
        acts_on(actions, n),
    ensures
        apply_recovery(d1, rollback, actions).dom().contains(n) == apply_recovery(d2, rollback, actions).dom().contains(n),
        apply_recovery(d1, rollback, actions).dom().contains(n) ==>
            apply_recovery(d1, rollback, actions)[n] == apply_recovery(d2, rollback, actions)[n],
    decreases actions.len(),
{
    let rest = actions.drop_first();
    let e1 = apply_recovery_action(d1, rollback, actions[0]);
    let e2 = apply_recovery_action(d2, rollback, actions[0]);
    if acts_on(rest, n) {
        lemma_recovery_inside(e1, e2, rollback, rest, n);
    } else {
        let i = choose|i: int| 0 <= i < actions.len() && action_name(#[trigger] actions[i]) == n;
        if i > 0 {
            assert(rest[i - 1] == actions[i]);
        }
        assert(action_name(actions[0]) == n);
        lemma_recovery_outside(e1, rollback, rest, n);
        lemma_recovery_outside(e2, rollback, rest, n);
    }
}

/// Recovering a second time from the same journal leaves the game directory as the
/// first recovery left it.
pub proof fn recovery_is_idempotent(
    dir: Map<Seq<char>, Seq<u8>>,
    rollback: Map<Seq<char>, Seq<u8>>,
    records: Seq<PublishRecord>,
)
    ensures
        apply_recovery(apply_recovery(dir, rollback, recovery_actions(records)), rollback, recovery_actions(records))
            == apply_recovery(dir, rollback, recovery_actions(records)),
{
    let actions = recovery_actions(records);
    let once = apply_recovery(dir, rollback, actions);
    let twice = apply_recovery(once, rollback, actions);
    assert forall|n: Seq<char>| #[trigger] twice.dom().contains(n) == once.dom().contains(n)
        && (once.dom().contains(n) ==> twice[n] == once[n]) by {
        if acts_on(actions, n) {
            lemma_recovery_inside(once, dir, rollback, actions, n);
        } else {
            lemma_recovery_outside(once, rollback, actions, n);
        }
    }
    assert(twice =~= once);
}

/// Recovering when no journal was left (every transaction ended) changes nothing.
pub proof fn recovery_without_journal_changes_nothing(
    dir: Map<Seq<char>, Seq<u8>>,
    rollback: Map<Seq<char>, Seq<u8>>,
)
    ensures
        apply_recovery(dir, rollback, recovery_actions(Seq::<PublishRecord>::empty())) == dir,
{
    assert(recovery_actions(Seq::<PublishRecord>::empty()).len() == 0);
}

} // verus!
