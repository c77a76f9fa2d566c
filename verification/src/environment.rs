//! The installed mods of a game directory and the execution plan derived from them.
use vstd::prelude::*;
use crate::manifest::{Dependency, ModManifest, ModTarget};
use crate::versions::{requirement_matches, parse_requirement, semver_requirement_display, semver_requirement_error, semver_requirement_matches, semver_requirement_parses, semver_version_parses, version_parses};
use crate::text::{concat3, str_equal, str_less, seq_less, lemma_seq_less_total, lemma_seq_less_transitive};

verus! {

/// Whether the ids of `mods` are pairwise distinct.
pub open spec fn unique_ids(mods: Seq<ModManifest>) -> bool {
    forall|i: int, j: int|
        0 <= i < mods.len() && 0 <= j < mods.len() && i != j ==> #[trigger] mods[i].id@ != #[trigger] mods[j].id@
}

/// The first position at or after `k` whose manifest has the id `id`.
pub open spec fn lookup_from(mods: Seq<ModManifest>, id: Seq<char>, k: int) -> Option<int>
    decreases mods.len() - k,
{
    if k < 0 || k >= mods.len() {
        None
    } else if mods[k].id@ == id {
        Some(k)
    } else {
        lookup_from(mods, id, k + 1)
    }
}

/// The position of the manifest with id `id`.
pub open spec fn lookup(mods: Seq<ModManifest>, id: Seq<char>) -> Option<int> {
    lookup_from(mods, id, 0)
}

pub proof fn lemma_lookup_from(mods: Seq<ModManifest>, id: Seq<char>, k: int)
    requires
        0 <= k,
    ensures
        lookup_from(mods, id, k) matches Some(i) ==> k <= i < mods.len() && mods[i].id@ == id
            && forall|j: int| k <= j < i ==> mods[j].id@ != id,
        lookup_from(mods, id, k) is None ==> forall|j: int| k <= j < mods.len() ==> mods[j].id@ != id,
    decreases mods.len() - k,
{
    if k < mods.len() && mods[k].id@ != id {
        lemma_lookup_from(mods, id, k + 1);
    }
}

pub proof fn lemma_lookup(mods: Seq<ModManifest>, id: Seq<char>)
    ensures
        lookup(mods, id) matches Some(i) ==> 0 <= i < mods.len() && mods[i].id@ == id,
        lookup(mods, id) is None <==> forall|j: int| 0 <= j < mods.len() ==> mods[j].id@ != id,
{
    lemma_lookup_from(mods, id, 0);
}

/// The ids of the mods, as a set.
pub open spec fn id_set(mods: Seq<ModManifest>) -> Set<Seq<char>> {
    mods.map_values(|m: ModManifest| m.id@).to_set()
}

pub proof fn lemma_id_set(mods: Seq<ModManifest>, id: Seq<char>)
    ensures
        id_set(mods).finite(),
        id_set(mods).contains(id) <==> lookup(mods, id) is Some,
{
    lemma_lookup(mods, id);
    let ids = mods.map_values(|m: ModManifest| m.id@);
    vstd::seq_lib::seq_to_set_is_finite(ids);
    if lookup(mods, id) is Some {
        let i = lookup(mods, id)->0;
        assert(ids[i] == id);
    }
    if id_set(mods).contains(id) {
        let i = choose|i: int| 0 <= i < ids.len() && ids[i] == id;
        assert(mods[i].id@ == id);
    }
}

/// Whether an earlier manifest than the one at `t` carries its id.
pub open spec fn copy_before(mods: Seq<ModManifest>, t: int) -> bool {
    exists|j: int| 0 <= j < t && #[trigger] mods[j].id@ == mods[t].id@
}

/// The ids reported as duplicates: one for each manifest that repeats the id of an
/// earlier one, in discovery order.
pub open spec fn repeated_ids(mods: Seq<ModManifest>) -> Seq<Seq<char>>
    decreases mods.len(),
{
    if mods.len() == 0 {
        Seq::empty()
    } else if copy_before(mods, mods.len() - 1) {
        repeated_ids(mods.drop_last()).push(mods.last().id@)
    } else {
        repeated_ids(mods.drop_last())
    }
}

fn has_copy_before(mods: &Vec<ModManifest>, t: usize) -> (r: bool)
    requires
        t < mods@.len(),
    ensures
        r == copy_before(mods@, t as int),
{
    for j in 0..t
        invariant
            t < mods@.len(),
            forall|k: int| 0 <= k < j ==> #[trigger] mods@[k].id@ != mods@[t as int].id@,
    {
        if str_equal(mods[j].id.as_str(), mods[t].id.as_str()) {
            return true;
        }
    }
    false
}

/// The installed mods, keyed by their distinct ids.
#[derive(Debug)]
pub struct ModRegistry {
    mods: Vec<ModManifest>,
}

impl ModRegistry {
    pub closed spec fn view(&self) -> Seq<ModManifest> {
        self.mods@
    }

    pub closed spec fn wf(&self) -> bool {
        unique_ids(self.mods@)
    }

    /// Builds the registry from the manifests that discovery read. A manifest whose
    /// id occurs more than once is rejected together with every other copy; each
    /// copy after the first is reported as a duplicate, by its id, in discovery
    /// order.
    pub fn from_manifests(manifests: Vec<ModManifest>) -> (r: (ModRegistry, Vec<String>))
        ensures
            r.0.wf(),
            r.0.view() == manifests@.filter(|m: ModManifest| id_count(manifests@, m.id@) == 1),
            r.1@.map_values(|s: String| s@) == repeated_ids(manifests@),
    {
        let n = manifests.len();
        let mut counts: Vec<usize> = Vec::new();
        let mut earlier: Vec<bool> = Vec::new();
        for i in 0..n
            invariant
                n == manifests@.len(),
                counts@.len() == i,
                earlier@.len() == i,
                forall|k: int| 0 <= k < i ==> counts@[k] == id_count(manifests@, #[trigger] manifests@[k].id@),
                forall|k: int| 0 <= k < i ==> #[trigger] earlier@[k] == copy_before(manifests@, k),
        {
            let c = count_id(&manifests, &manifests[i].id);
            counts.push(c);
            let e = has_copy_before(&manifests, i);
            earlier.push(e);
        }
        let ghost original = manifests@;
        let ghost pred = |m: ModManifest| id_count(original, m.id@) == 1;
        let mut kept: Vec<ModManifest> = Vec::new();
        let mut rejected: Vec<String> = Vec::new();
        let mut rest = manifests;
        let mut t: usize = 0;
        while rest.len() > 0
            invariant
                original.len() == n,
                counts@.len() == n,
                forall|k: int| 0 <= k < n ==> counts@[k] == id_count(original, #[trigger] original[k].id@),
                t + rest@.len() == n,
                pred == (|m: ModManifest| id_count(original, m.id@) == 1),
                rest@ == original.skip(t as int),
                kept@ == original.take(t as int).filter(pred),
                unique_ids(kept@),
                forall|a: int| 0 <= a < kept@.len() ==> exists|q: int| 0 <= q < t && #[trigger] original[q] == #[trigger] kept@[a],
                earlier@.len() == n,
                forall|k: int| 0 <= k < n ==> #[trigger] earlier@[k] == copy_before(original, k),
                rejected@.map_values(|s: String| s@) == repeated_ids(original.take(t as int)),
            decreases rest.len(),
        {
            let item = rest.remove(0);
            let ghost it = item;
            proof {
                assert(original[t as int] == item);
                assert(original.take(t + 1) == original.take(t as int).push(item));
                original.take(t as int).lemma_filter_push(item, pred);
                assert(rest@ =~= original.skip(t + 1));
            }
            proof {
                lemma_count_positions(original, t as int, t as int);
            }
            if counts[t] == 1 {
                proof {
                    assert forall|a: int| 0 <= a < kept@.len() implies #[trigger] kept@[a].id@ != item.id@ by {
                        let q = choose|q: int| 0 <= q < t && original[q] == kept@[a];
                        if kept@[a].id@ == item.id@ {
                            lemma_count_positions(original, q, t as int);
                        }
                    }
                }
                kept.push(item);
            } else if earlier[t] {
                let id = item.id.clone();
                rejected.push(id);
            }
            proof {
                assert(counts@[t as int] == id_count(original, original[t as int].id@));
                assert(pred(it) == (counts@[t as int] == 1));
                assert(original.take(t + 1) == original.take(t as int).push(it));
                original.take(t as int).lemma_filter_push(it, pred);
                assert(kept@ == original.take(t + 1).filter(pred));
                let prefix = original.take(t + 1);
                assert(prefix.drop_last() =~= original.take(t as int));
                assert(copy_before(prefix, t as int) == copy_before(original, t as int)) by {
                    if copy_before(original, t as int) {
                        let j = choose|j: int| 0 <= j < t && #[trigger] original[j].id@ == original[t as int].id@;
                        assert(prefix[j] == original[j]);
                    }
                    if copy_before(prefix, t as int) {
                        let j = choose|j: int| 0 <= j < t && #[trigger] prefix[j].id@ == prefix[t as int].id@;
                        assert(prefix[j] == original[j]);
                    }
                }
                if copy_before(original, t as int) {
                    lemma_count_positions(original, choose|j: int| 0 <= j < t && #[trigger] original[j].id@ == original[t as int].id@, t as int);
                }
                assert(rejected@.map_values(|s: String| s@) =~= repeated_ids(original.take(t + 1)));
            }
            t = t + 1;
        }
        assert(original.take(n as int) == original);
        assert(t == n);

        (ModRegistry { mods: kept }, rejected)
    }
}

/// Whether one of the strings of `list` is `id`.
pub open spec fn lists_id(list: Seq<String>, id: Seq<char>) -> bool {
    exists|k: int| 0 <= k < list.len() && #[trigger] list[k]@ == id
}

/// How many manifests carry the id `id`.
pub open spec fn id_count(mods: Seq<ModManifest>, id: Seq<char>) -> nat
    decreases mods.len(),
{
    if mods.len() == 0 {
        0
    } else {
        id_count(mods.drop_last(), id) + if mods.last().id@ == id { 1nat } else { 0nat }
    }
}

pub proof fn lemma_count_positions(mods: Seq<ModManifest>, i: int, j: int)
    requires
        0 <= i < mods.len(),
        0 <= j < mods.len(),
        mods[i].id@ == mods[j].id@,
    ensures
        id_count(mods, mods[i].id@) >= 1,
        i != j ==> id_count(mods, mods[i].id@) >= 2,
    decreases mods.len(),
{
    let n = mods.len() - 1;
    if i < n && j < n {
        lemma_count_positions(mods.drop_last(), i, j);
    } else if i < n {
        lemma_count_positions(mods.drop_last(), i, i);
    } else if j < n {
        lemma_count_positions(mods.drop_last(), j, j);
    }
}

fn count_id(mods: &Vec<ModManifest>, id: &String) -> (c: usize)
    ensures
        c == id_count(mods@, id@),
{
    let mut c: usize = 0;
    for i in 0..mods.len()
        invariant
            c == id_count(mods@.take(i as int), id@),
            c <= i,
    {
        proof {
            assert(mods@.take(i + 1).drop_last() == mods@.take(i as int));
        }
        if mods[i].id == *id {
            c = c + 1;
        }
    }
    assert(mods@.take(mods@.len() as int) == mods@);
    c
}


impl ModRegistry {
    /// Position of the mod with id `id`.
    pub fn position(&self, id: &str) -> (r: Option<usize>)
        ensures
            r matches Some(i) ==> lookup(self.view(), id@) == Some(i as int),
            r is None ==> lookup(self.view(), id@) is None,
    {
        for i in 0..self.mods.len()
            invariant
                lookup(self.mods@, id@) == lookup_from(self.mods@, id@, i as int),
        {
            if str_equal(self.mods[i].id.as_str(), id) {
                return Some(i);
            }
        }
        None
    }

    /// The manifest of the mod with id `id`.
    pub fn get(&self, id: &str) -> (r: Option<&ModManifest>)
        ensures
            r matches Some(m) ==> lookup(self.view(), id@) matches Some(i) && *m == self.view()[i],
            r is None ==> lookup(self.view(), id@) is None,
    {
        proof { lemma_lookup(self.mods@, id@); }
        match self.position(id) {
            Some(i) => Some(&self.mods[i]),
            None => None,
        }
    }

    /// Whether a mod with id `id` is installed.
    pub fn contains_key(&self, id: &str) -> (r: bool)
        ensures
            r == (lookup(self.view(), id@) is Some),
    {
        self.position(id).is_some()
    }

    /// Number of installed mods.
    pub fn len(&self) -> (n: usize)
        ensures
            n == self.view().len(),
    {
        self.mods.len()
    }

    /// The manifest at position `i`.
    pub fn at(&self, i: usize) -> (m: &ModManifest)
        requires
            i < self.view().len(),
        ensures
            *m == self.view()[i as int],
    {
        &self.mods[i]
    }
}

/// A mod is enabled when it is installed and its manifest activates it.
pub open spec fn is_enabled(mods: Seq<ModManifest>, id: Seq<char>) -> bool {
    lookup(mods, id) matches Some(i) && mods[i].enabled
}

/// A mod that a compatibility rule blocks, with the rule's reason.
#[derive(Debug)]
pub struct BlockedMod {
    pub id: String,
    pub reason: String,
}

/// The reason recorded last for `id`; a later rule overrides an earlier one.
pub open spec fn blocked_reason(blocked: Seq<BlockedMod>, id: Seq<char>) -> Option<String>
    decreases blocked.len(),
{
    if blocked.len() == 0 {
        None
    } else if blocked.last().id@ == id {
        Some(blocked.last().reason)
    } else {
        blocked_reason(blocked.drop_last(), id)
    }
}

fn blocked_lookup(blocked: &Vec<BlockedMod>, id: &str) -> (r: Option<String>)
    ensures
        r == blocked_reason(blocked@, id@),
{
    let mut k = blocked.len();
    assert(blocked@.take(k as int) =~= blocked@);
    while k > 0
        invariant
            k <= blocked@.len(),
            blocked_reason(blocked@, id@) == blocked_reason(blocked@.take(k as int), id@),
        decreases k,
    {
        proof {
            assert(blocked@.take(k as int).drop_last() =~= blocked@.take(k - 1));
        }
        if str_equal(blocked[k - 1].id.as_str(), id) {
            return Some(blocked[k - 1].reason.clone());
        }
        k = k - 1;
    }
    None
}

/// Why a mod is left out of the execution plan.
#[derive(Debug)]
pub enum PlanError {
    /// A compatibility rule blocks the mod.
    Blocked { id: String, reason: String },
    /// The mod depends on itself through a chain of dependencies.
    DependencyCycle { id: String },
    /// A required mod is not installed.
    MissingDependency { id: String },
    /// A required mod is installed but disabled.
    DisabledDependency { id: String },
    /// The mod does not run in this process.
    WrongTarget { id: String },
    /// The mod's API requirement does not parse.
    InvalidApiRequirement { id: String, requirement: String },
    /// The mod requires another API version.
    ApiRequired { id: String, requirement: String },
    /// The mod's `shroudforge-api` dependency does not accept this API version.
    IncompatibleApiDependency { id: String },
    /// A non-optional dependency of the mod is not installed.
    Missing { id: String, dependency: String },
    /// An installed dependency of the mod has a version its requirement rejects.
    Incompatible { id: String, dependency: String },
    /// A compatibility rule holds a version range that does not parse; no mod is planned.
    InvalidRule { requirement: String },
}

/// A requirement as a message shows it: written back by `semver` when it parses,
/// else `semver`'s error.
pub open spec fn requirement_text(requirement: Seq<char>) -> Seq<char> {
    if semver_requirement_parses(requirement) {
        semver_requirement_display(requirement)
    } else {
        semver_requirement_error(requirement)
    }
}

fn requirement_text_exec(requirement: &str) -> (r: String)
    ensures
        r@ == requirement_text(requirement@),
{
    match parse_requirement(requirement) {
        Ok(text) => text,
        Err(error) => error,
    }
}

impl PlanError {
    pub open spec fn message_spec(&self) -> Seq<char> {
        match self {
            PlanError::Blocked { id, reason } => id@ + ": "@ + reason@,
            PlanError::DependencyCycle { id } => "dependency cycle: "@ + id@,
            PlanError::MissingDependency { id } => "missing dependency: "@ + id@,
            PlanError::DisabledDependency { id } => "disabled dependency: "@ + id@,
            PlanError::WrongTarget { id } => id@ + ": wrong process target"@,
            PlanError::InvalidApiRequirement { id, requirement } => requirement_text(requirement@),
            PlanError::ApiRequired { id, requirement } => id@ + ": API "@ + requirement_text(requirement@) + " required"@,
            PlanError::IncompatibleApiDependency { id } => id@ + ": incompatible API dependency"@,
            PlanError::Missing { id, dependency } => id@ + ": missing "@ + dependency@,
            PlanError::Incompatible { id, dependency } => id@ + ": incompatible "@ + dependency@,
            PlanError::InvalidRule { requirement } => "compatibility rules: "@ + requirement_text(requirement@),
        }
    }

    /// The reason as the plan report words it.
    pub fn message(&self) -> (r: String)
        ensures
            r@ == self.message_spec(),
    {
        proof { reveal_strlit(""); }
        let r = match self {
            PlanError::Blocked { id, reason } => concat3(id.as_str(), ": ", reason.as_str()),
            PlanError::DependencyCycle { id } => concat3("dependency cycle: ", id.as_str(), ""),
            PlanError::MissingDependency { id } => concat3("missing dependency: ", id.as_str(), ""),
            PlanError::DisabledDependency { id } => concat3("disabled dependency: ", id.as_str(), ""),
            PlanError::WrongTarget { id } => concat3(id.as_str(), ": wrong process target", ""),
            PlanError::InvalidApiRequirement { id, requirement } => requirement_text_exec(requirement.as_str()),
            PlanError::ApiRequired { id, requirement } => {
                let text = requirement_text_exec(requirement.as_str());
                let head = concat3(id.as_str(), ": API ", text.as_str());
                concat3(head.as_str(), " required", "")
            },
            PlanError::IncompatibleApiDependency { id } => concat3(id.as_str(), ": incompatible API dependency", ""),
            PlanError::Missing { id, dependency } => concat3(id.as_str(), ": missing ", dependency.as_str()),
            PlanError::Incompatible { id, dependency } => concat3(id.as_str(), ": incompatible ", dependency.as_str()),
            PlanError::InvalidRule { requirement } => {
                let text = requirement_text_exec(requirement.as_str());
                concat3("compatibility rules: ", text.as_str(), "")
            },
        };
        assert(r@ =~= self.message_spec());
        r
    }
}

/// A mod targeted at the other process kind.
pub open spec fn wrong_target(target: ModTarget, server: bool) -> bool {
    (target == ModTarget::Client && server) || (target == ModTarget::Server && !server)
}

/// The set of the texts of some strings.
pub open spec fn text_set(list: Seq<String>) -> Set<Seq<char>> {
    list.map_values(|s: String| s@).to_set()
}

pub proof fn lemma_visit_decreases(mods: Seq<ModManifest>, visiting: Set<Seq<char>>, id: Seq<char>)
    requires
        lookup(mods, id) is Some,
        !visiting.contains(id),
    ensures
        id_set(mods).difference(visiting.insert(id)).len() < id_set(mods).difference(visiting).len(),
{
    lemma_id_set(mods, id);
    let a = id_set(mods).difference(visiting);
    assert(id_set(mods).difference(visiting.insert(id)) =~= a.remove(id));
    vstd::set_lib::lemma_set_subset_finite(id_set(mods), a);
    assert(a.contains(id));
}

/// Visits the mod `id` depth-first, as the execution plan does: its dependencies
/// are planned first, then the mod itself. `visiting` holds the mods on the current
/// dependency path; `done` and `order` are the mods planned so far. Answers the new
/// `done` and `order` and the reason the mod is left out, if it is.
pub open spec fn visit(
    mods: Seq<ModManifest>,
    blocked: Seq<BlockedMod>,
    id: String,
    server: bool,
    api: Seq<char>,
    visiting: Set<Seq<char>>,
    done: Set<Seq<char>>,
    order: Seq<int>,
) -> (Set<Seq<char>>, Seq<int>, Option<PlanError>)
    decreases id_set(mods).difference(visiting).len(), 0nat, 0int,
{
    if let Some(reason) = blocked_reason(blocked, id@) {
        (done, order, Some(PlanError::Blocked { id, reason }))
    } else if done.contains(id@) {
        (done, order, None)
    } else if visiting.contains(id@) {
        (done, order, Some(PlanError::DependencyCycle { id }))
    } else if let Some(i) = lookup(mods, id@) {
        let item = mods[i];
        if !item.enabled {
            (done, order, Some(PlanError::DisabledDependency { id }))
        } else if wrong_target(item.target, server) {
            (done, order, Some(PlanError::WrongTarget { id }))
        } else if item.api is Some && semver_requirement_matches(item.api->0@, api) is None {
            (done, order, Some(PlanError::InvalidApiRequirement { id, requirement: item.api->0 }))
        } else if item.api is Some && semver_requirement_matches(item.api->0@, api) == Some(false) {
            (done, order, Some(PlanError::ApiRequired { id, requirement: item.api->0 }))
        } else {
            proof {
                lemma_visit_decreases(mods, visiting, id@);
            }
            let r = visit_deps(mods, blocked, i, 0, server, api, visiting.insert(id@), done, order);
            if r.2 is Some {
                r
            } else {
                (r.0.insert(id@), r.1.push(i), None)
            }
        }
    } else {
        (done, order, Some(PlanError::MissingDependency { id }))
    }
}

/// Plans the dependencies of `mods[i]` from the `k`-th on, stopping at the first
/// dependency that cannot be satisfied.
pub open spec fn visit_deps(
    mods: Seq<ModManifest>,
    blocked: Seq<BlockedMod>,
    i: int,
    k: int,
    server: bool,
    api: Seq<char>,
    visiting: Set<Seq<char>>,
    done: Set<Seq<char>>,
    order: Seq<int>,
) -> (Set<Seq<char>>, Seq<int>, Option<PlanError>)
    decreases id_set(mods).difference(visiting).len(), 1nat,
        if 0 <= i < mods.len() && 0 <= k <= mods[i].dependencies@.len() { mods[i].dependencies@.len() - k } else { 0 },
{
    if i < 0 || i >= mods.len() || k < 0 || k >= mods[i].dependencies@.len() {
        (done, order, None)
    } else {
        let item = mods[i];
        let d = item.dependencies@[k];
        if d.id@ == "shroudforge-api"@ {
            if semver_requirement_matches(d.version@, api) == Some(true) {
                visit_deps(mods, blocked, i, k + 1, server, api, visiting, done, order)
            } else {
                (done, order, Some(PlanError::IncompatibleApiDependency { id: item.id }))
            }
        } else if d.optional == Some(true) && !is_enabled(mods, d.id@) {
            visit_deps(mods, blocked, i, k + 1, server, api, visiting, done, order)
        } else if let Some(j) = lookup(mods, d.id@) {
            if semver_requirement_matches(d.version@, mods[j].version@) != Some(true) {
                (done, order, Some(PlanError::Incompatible { id: item.id, dependency: d.id }))
            } else {
                let r = visit(mods, blocked, d.id, server, api, visiting, done, order);
                if r.2 is Some {
                    r
                } else {
                    visit_deps(mods, blocked, i, k + 1, server, api, visiting, r.0, r.1)
                }
            }
        } else {
            (done, order, Some(PlanError::Missing { id: item.id, dependency: d.id }))
        }
    }
}


/// The indices of an execution order, as integers.
pub open spec fn index_seq(order: Seq<usize>) -> Seq<int> {
    order.map_values(|x: usize| x as int)
}

proof fn lemma_text_set_push(list: Seq<String>, s: String)
    ensures
        text_set(list.push(s)) == text_set(list).insert(s@),
{
    assert(list.push(s).map_values(|t: String| t@) =~= list.map_values(|t: String| t@).push(s@));
    list.map_values(|t: String| t@).lemma_push_to_set_commute(s@);
}

proof fn lemma_index_seq_push(order: Seq<usize>, i: usize)
    ensures
        index_seq(order.push(i)) == index_seq(order).push(i as int),
{
    assert(index_seq(order.push(i)) =~= index_seq(order).push(i as int));
}

fn contains_text(list: &Vec<String>, id: &str) -> (r: bool)
    ensures
        r == text_set(list@).contains(id@),
{
    for k in 0..list.len()
        invariant
            forall|j: int| 0 <= j < k ==> list@[j]@ != id@,
    {
        if str_equal(list[k].as_str(), id) {
            proof {
                assert(list@.map_values(|t: String| t@)[k as int] == id@);
            }
            return true;
        }
    }
    proof {
        if text_set(list@).contains(id@) {
            let m = list@.map_values(|t: String| t@);
            let j = choose|j: int| 0 <= j < m.len() && #[trigger] m[j] == id@;
            assert(list@[j]@ == id@);
        }
    }
    false
}

fn with_text(list: &Vec<String>, id: &String) -> (r: Vec<String>)
    ensures
        text_set(r@) == text_set(list@).insert(id@),
{
    let mut r: Vec<String> = Vec::new();
    for k in 0..list.len()
        invariant
            r@ == list@.take(k as int),
    {
        let s = list[k].clone();
        r.push(s);
        assert(list@.take(k + 1) == list@.take(k as int).push(list@[k as int]));
    }
    assert(list@.take(list@.len() as int) == list@);
    proof {
        lemma_text_set_push(r@, *id);
    }
    r.push(id.clone());
    r
}

impl ModRegistry {
    fn visit_exec(
        &self,
        blocked: &Vec<BlockedMod>,
        id: &String,
        server: bool,
        api: &str,
        visiting: &Vec<String>,
        done: &mut Vec<String>,
        order: &mut Vec<usize>,
    ) -> (e: Option<PlanError>)
        ensures
            ({
                let r = visit(self@, blocked@, *id, server, api@, text_set(visiting@), text_set(old(done)@), index_seq(old(order)@));
                &&& text_set(final(done)@) == r.0
                &&& index_seq(final(order)@) == r.1
                &&& e == r.2
            }),
        decreases id_set(self@).difference(text_set(visiting@)).len(), 0nat, 0int,
    {
        if let Some(reason) = blocked_lookup(blocked, id.as_str()) {
            return Some(PlanError::Blocked { id: id.clone(), reason });
        }
        if contains_text(done, id.as_str()) {
            return None;
        }
        if contains_text(visiting, id.as_str()) {
            return Some(PlanError::DependencyCycle { id: id.clone() });
        }
        proof {
            lemma_lookup(self.mods@, id@);
        }
        match self.position(id.as_str()) {
            None => Some(PlanError::MissingDependency { id: id.clone() }),
            Some(i) => {
                let item = &self.mods[i];
                if !item.enabled {
                    return Some(PlanError::DisabledDependency { id: id.clone() });
                }
                let wrong = match item.target {
                    ModTarget::Client => server,
                    ModTarget::Server => !server,
                    ModTarget::Both => false,
                };
                if wrong {
                    return Some(PlanError::WrongTarget { id: id.clone() });
                }
                if let Some(required) = &item.api {
                    match requirement_matches(required.as_str(), api) {
                        None => {
                            return Some(PlanError::InvalidApiRequirement { id: id.clone(), requirement: required.clone() });
                        },
                        Some(false) => {
                            return Some(PlanError::ApiRequired { id: id.clone(), requirement: required.clone() });
                        },
                        Some(true) => {},
                    }
                }
                let next = with_text(visiting, id);
                proof {
                    lemma_visit_decreases(self.mods@, text_set(visiting@), id@);
                }
                let e = self.visit_deps_exec(blocked, i, server, api, &next, done, order);
                if e.is_some() {
                    return e;
                }
                proof {
                    lemma_text_set_push(done@, *id);
                    lemma_index_seq_push(order@, i);
                }
                done.push(id.clone());
                order.push(i);
                None
            },
        }
    }

    fn visit_deps_exec(
        &self,
        blocked: &Vec<BlockedMod>,
        i: usize,
        server: bool,
        api: &str,
        visiting: &Vec<String>,
        done: &mut Vec<String>,
        order: &mut Vec<usize>,
    ) -> (e: Option<PlanError>)
        requires
            i < self@.len(),
        ensures
            ({
                let r = visit_deps(self@, blocked@, i as int, 0, server, api@, text_set(visiting@), text_set(old(done)@), index_seq(old(order)@));
                &&& text_set(final(done)@) == r.0
                &&& index_seq(final(order)@) == r.1
                &&& e == r.2
            }),
        decreases id_set(self@).difference(text_set(visiting@)).len(), 1nat, 0int,
    {
        let item = &self.mods[i];
        let n = item.dependencies.len();
        let ghost mods = self.mods@;
        let ghost vis = text_set(visiting@);
        let ghost goal = visit_deps(mods, blocked@, i as int, 0, server, api@, vis, text_set(done@), index_seq(order@));
        let mut k: usize = 0;
        while k < n
            invariant
                mods == self.mods@,
                i < mods.len(),
                *item == mods[i as int],
                n == item.dependencies@.len(),
                k <= n,
                vis == text_set(visiting@),
                goal == visit_deps(mods, blocked@, i as int, k as int, server, api@, vis, text_set(done@), index_seq(order@)),
                goal == visit_deps(self@, blocked@, i as int, 0, server, api@, text_set(visiting@), text_set(old(done)@), index_seq(old(order)@)),
            decreases n - k,
        {
            let d = &item.dependencies[k];
            if str_equal(d.id.as_str(), "shroudforge-api") {
                let accepted = match requirement_matches(d.version.as_str(), api) {
                    Some(value) => value,
                    None => false,
                };
                if !accepted {
                    return Some(PlanError::IncompatibleApiDependency { id: item.id.clone() });
                }
            } else {
                let optional = match d.optional {
                    Some(value) => value,
                    None => false,
                };
                proof {
                    lemma_lookup(mods, d.id@);
                }
                let candidate = self.position(d.id.as_str());
                let candidate_enabled = match candidate {
                    Some(j) => self.mods[j].enabled,
                    None => false,
                };
                if !(optional && !candidate_enabled) {
                    match candidate {
                        None => {
                            return Some(PlanError::Missing { id: item.id.clone(), dependency: d.id.clone() });
                        },
                        Some(j) => {
                            let accepted = match requirement_matches(d.version.as_str(), self.mods[j].version.as_str()) {
                                Some(value) => value,
                                None => false,
                            };
                            if !accepted {
                                return Some(PlanError::Incompatible { id: item.id.clone(), dependency: d.id.clone() });
                            }
                            let e = self.visit_exec(blocked, &d.id, server, api, visiting, done, order);
                            if e.is_some() {
                                return e;
                            }
                        },
                    }
                }
            }
            k = k + 1;
        }
        None
    }
}


/// One side of a compatibility rule: a mod and the versions of it the rule covers.
#[derive(Debug)]
pub struct ConflictSide {
    pub id: String,
    pub version: String,
}

/// Two mods that must not be enabled together, and why.
#[derive(Debug)]
pub struct ConflictRule {
    pub first: ConflictSide,
    pub second: ConflictSide,
    pub reason: String,
}

/// Whether a rule side applies: its range must parse (else the range is the error),
/// and it applies when the mod is enabled and its version is in the range.
pub open spec fn side_applies(mods: Seq<ModManifest>, side: ConflictSide) -> Result<bool, String> {
    if !semver_requirement_parses(side.version@) {
        Err(side.version)
    } else {
        Ok(is_enabled(mods, side.id@) && (lookup(mods, side.id@) matches Some(i)
            && semver_requirement_matches(side.version@, mods[i].version@) == Some(true)))
    }
}

/// The mods that the compatibility rules block, in rule order: both mods of every
/// rule whose two sides apply. The first rule side whose range does not parse makes
/// the whole evaluation fail with that range.
pub open spec fn conflicts_spec(mods: Seq<ModManifest>, rules: Seq<ConflictRule>) -> Result<Seq<BlockedMod>, String>
    decreases rules.len(),
{
    if rules.len() == 0 {
        Ok(Seq::empty())
    } else {
        match conflicts_spec(mods, rules.drop_last()) {
            Err(e) => Err(e),
            Ok(blocked) => {
                let rule = rules.last();
                match side_applies(mods, rule.first) {
                    Err(e) => Err(e),
                    Ok(a) => match side_applies(mods, rule.second) {
                        Err(e) => Err(e),
                        Ok(b) => if a && b {
                            Ok(blocked.push(BlockedMod { id: rule.first.id, reason: rule.reason })
                                .push(BlockedMod { id: rule.second.id, reason: rule.reason }))
                        } else {
                            Ok(blocked)
                        },
                    },
                }
            },
        }
    }
}

impl ModRegistry {
    fn side_applies_exec(&self, side: &ConflictSide) -> (r: Result<bool, String>)
        ensures
            r == side_applies(self@, *side),
    {
        if parse_requirement(side.version.as_str()).is_err() {
            return Err(side.version.clone());
        }
        proof {
            lemma_lookup(self.mods@, side.id@);
        }
        match self.position(side.id.as_str()) {
            None => Ok(false),
            Some(i) => {
                if !self.mods[i].enabled {
                    return Ok(false);
                }
                let accepted = match requirement_matches(side.version.as_str(), self.mods[i].version.as_str()) {
                    Some(value) => value,
                    None => false,
                };
                Ok(accepted)
            },
        }
    }

    /// Evaluates the compatibility rules against the installed mods.
    pub fn conflicts(&self, rules: &Vec<ConflictRule>) -> (r: Result<Vec<BlockedMod>, String>)
        ensures
            r matches Ok(b) ==> conflicts_spec(self@, rules@) == Ok::<Seq<BlockedMod>, String>(b@),
            r matches Err(e) ==> conflicts_spec(self@, rules@) == Err::<Seq<BlockedMod>, String>(e),
    {
        let mut blocked: Vec<BlockedMod> = Vec::new();
        for k in 0..rules.len()
            invariant
                conflicts_spec(self@, rules@.take(k as int)) == Ok::<Seq<BlockedMod>, String>(blocked@),
        {
            proof {
                assert(rules@.take(k + 1).drop_last() =~= rules@.take(k as int));
            }
            let rule = &rules[k];
            let a = match self.side_applies_exec(&rule.first) {
                Ok(value) => value,
                Err(e) => {
                    proof { lemma_conflicts_error_stays(self@, rules@, k + 1, e); }
                    return Err(e);
                },
            };
            let b = match self.side_applies_exec(&rule.second) {
                Ok(value) => value,
                Err(e) => {
                    proof { lemma_conflicts_error_stays(self@, rules@, k + 1, e); }
                    return Err(e);
                },
            };
            if a && b {
                blocked.push(BlockedMod { id: rule.first.id.clone(), reason: rule.reason.clone() });
                blocked.push(BlockedMod { id: rule.second.id.clone(), reason: rule.reason.clone() });
            }
        }
        assert(rules@.take(rules@.len() as int) =~= rules@);
        Ok(blocked)
    }
}

/// `s` is the id of an enabled mod among the first `p` mods.
pub open spec fn enabled_id_before(mods: Seq<ModManifest>, s: String, p: int) -> bool {
    exists|q: int| 0 <= q < p && q < mods.len() && mods[q].enabled && #[trigger] mods[q].id == s
}

/// `s` is one of the strings of `list`.
pub open spec fn listed(list: Seq<String>, s: String) -> bool {
    exists|a: int| 0 <= a < list.len() && #[trigger] list[a] == s
}

/// `ids` lists the ids of the enabled mods, each once, in ascending order.
pub open spec fn sorted_enabled(mods: Seq<ModManifest>, ids: Seq<String>) -> bool {
    &&& forall|a: int, b: int| 0 <= a < b < ids.len() ==> seq_less(#[trigger] ids[a]@, #[trigger] ids[b]@)
    &&& forall|a: int| 0 <= a < ids.len() ==> enabled_id_before(mods, #[trigger] ids[a], mods.len() as int)
    &&& forall|p: int| 0 <= p < mods.len() && mods[p].enabled ==> listed(ids, #[trigger] mods[p].id)
}

proof fn lemma_conflicts_error_stays(mods: Seq<ModManifest>, rules: Seq<ConflictRule>, m: int, e: String)
    requires
        0 <= m <= rules.len(),
        conflicts_spec(mods, rules.take(m)) == Err::<Seq<BlockedMod>, String>(e),
    ensures
        conflicts_spec(mods, rules) == Err::<Seq<BlockedMod>, String>(e),
    decreases rules.len() - m,
{
    if m < rules.len() {
        assert(rules.take(m + 1).drop_last() =~= rules.take(m));
        lemma_conflicts_error_stays(mods, rules, m + 1, e);
    } else {
        assert(rules.take(m) =~= rules);
    }
}

/// Plans every mod of `ids` in turn, starting from an empty plan; each mod that
/// cannot be planned contributes its reason to the errors.
pub open spec fn plan_fold(
    mods: Seq<ModManifest>,
    blocked: Seq<BlockedMod>,
    ids: Seq<String>,
    server: bool,
    api: Seq<char>,
) -> (Set<Seq<char>>, Seq<int>, Seq<PlanError>)
    decreases ids.len(),
{
    if ids.len() == 0 {
        (Set::empty(), Seq::empty(), Seq::empty())
    } else {
        let p = plan_fold(mods, blocked, ids.drop_last(), server, api);
        let r = visit(mods, blocked, ids.last(), server, api, Set::empty(), p.0, p.1);
        (r.0, r.1, if let Some(e) = r.2 { p.2.push(e) } else { p.2 })
    }
}

/// The execution plan: with the rules evaluated, the mods in dependency order
/// (positions in the registry) and the reason every left-out mod is left out.
pub open spec fn plan_spec(
    mods: Seq<ModManifest>,
    rules: Seq<ConflictRule>,
    ids: Seq<String>,
    server: bool,
    api: Seq<char>,
) -> (Seq<int>, Seq<PlanError>) {
    match conflicts_spec(mods, rules) {
        Err(requirement) => (Seq::empty(), seq![PlanError::InvalidRule { requirement }]),
        Ok(blocked) => {
            let p = plan_fold(mods, blocked, ids, server, api);
            (p.1, p.2)
        },
    }
}

impl ModRegistry {
    /// The ids of the enabled mods in ascending order.
    pub fn sorted_enabled_ids(&self) -> (ids: Vec<String>)
        requires
            self.wf(),
        ensures
            sorted_enabled(self@, ids@),
    {
        let mut ids: Vec<String> = Vec::new();
        for p in 0..self.mods.len()
            invariant
                unique_ids(self.mods@),
                forall|a: int, b: int| 0 <= a < b < ids@.len() ==> seq_less(#[trigger] ids@[a]@, #[trigger] ids@[b]@),
                forall|a: int| 0 <= a < ids@.len() ==> enabled_id_before(self.mods@, #[trigger] ids@[a], p as int),
                forall|q: int| 0 <= q < p && self.mods@[q].enabled ==> listed(ids@, #[trigger] self.mods@[q].id),
        {
            if self.mods[p].enabled {
                let id = self.mods[p].id.clone();
                // First position whose id sorts after the new one.
                let mut pos: usize = 0;
                while pos < ids.len() && !str_less(id.as_str(), ids[pos].as_str())
                    invariant
                        pos <= ids@.len(),
                        forall|a: int| 0 <= a < pos ==> !seq_less(id@, #[trigger] ids@[a]@),
                    decreases ids.len() - pos,
                {
                    pos = pos + 1;
                }
                proof {
                    // Every id before `pos` sorts before the new id, every id from `pos` on after it.
                    assert forall|a: int| 0 <= a < pos implies seq_less(#[trigger] ids@[a]@, id@) by {
                        lemma_seq_less_total(ids@[a]@, id@);
                        assert(enabled_id_before(self.mods@, ids@[a], p as int));
                        let q = choose|q: int| 0 <= q < p && q < self.mods@.len() && self.mods@[q].enabled && #[trigger] self.mods@[q].id == ids@[a];
                        assert(self.mods@[q].id@ != self.mods@[p as int].id@);
                    }
                    assert forall|a: int| pos <= a < ids@.len() implies seq_less(id@, #[trigger] ids@[a]@) by {
                        if a > pos {
                            lemma_seq_less_transitive(id@, ids@[pos as int]@, ids@[a]@);
                        }
                    }
                }
                let ghost old_ids = ids@;
                ids.insert(pos, id);
                proof {
                    assert forall|a: int, b: int| 0 <= a < b < ids@.len() implies seq_less(#[trigger] ids@[a]@, #[trigger] ids@[b]@) by {
                        if a < pos && b < pos {
                            assert(ids@[a] == old_ids[a] && ids@[b] == old_ids[b]);
                        } else if a < pos && b == pos {
                        } else if a < pos {
                            assert(ids@[b] == old_ids[b - 1]);
                            lemma_seq_less_transitive(ids@[a]@, ids@[pos as int]@, ids@[b]@);
                        } else if a == pos {
                            assert(ids@[b] == old_ids[b - 1]);
                        } else {
                            assert(ids@[a] == old_ids[a - 1] && ids@[b] == old_ids[b - 1]);
                        }
                    }
                    assert forall|a: int| 0 <= a < ids@.len() implies enabled_id_before(self.mods@, #[trigger] ids@[a], p + 1) by {
                        if a < pos {
                            assert(ids@[a] == old_ids[a]);
                            assert(enabled_id_before(self.mods@, old_ids[a], p as int));
                        } else if a == pos {
                            assert(ids@[a] == self.mods@[p as int].id);
                        } else {
                            assert(ids@[a] == old_ids[a - 1]);
                            assert(enabled_id_before(self.mods@, old_ids[a - 1], p as int));
                        }
                    }
                    assert forall|q: int| 0 <= q < p + 1 && self.mods@[q].enabled implies listed(ids@, #[trigger] self.mods@[q].id) by {
                        if q == p {
                            assert(ids@[pos as int] == self.mods@[q].id);
                        } else {
                            assert(listed(old_ids, self.mods@[q].id));
                            let a = choose|a: int| 0 <= a < old_ids.len() && #[trigger] old_ids[a] == self.mods@[q].id;
                            if a < pos {
                                assert(ids@[a] == old_ids[a]);
                            } else {
                                assert(ids@[a + 1] == old_ids[a]);
                            }
                        }
                    }
                }
            } else {
                proof {
                    assert forall|a: int| 0 <= a < ids@.len() implies enabled_id_before(self.mods@, #[trigger] ids@[a], p + 1) by {
                        assert(enabled_id_before(self.mods@, ids@[a], p as int));
                    }
                }
            }
        }
        ids
    }
}


/// The installed mods of a game directory.
#[derive(Debug)]
pub struct ModEnvironment {
    registry: ModRegistry,
}

impl ModEnvironment {
    pub closed spec fn view(&self) -> Seq<ModManifest> {
        self.registry.view()
    }

    pub closed spec fn wf(&self) -> bool {
        self.registry.wf()
    }

    /// Builds the environment from the manifests found under `mods/`; manifests that
    /// share an id are rejected, and each copy after the first is reported by its
    /// id in the second result.
    pub fn load(manifests: Vec<ModManifest>) -> (r: (ModEnvironment, Vec<String>))
        ensures
            r.0.wf(),
            r.0.view() == manifests@.filter(|m: ModManifest| id_count(manifests@, m.id@) == 1),
            r.1@.map_values(|s: String| s@) == repeated_ids(manifests@),
    {
        let (registry, rejected) = ModRegistry::from_manifests(manifests);
        (ModEnvironment { registry }, rejected)
    }

    pub fn mod_registry(&self) -> (r: &ModRegistry)
        ensures
            r.view() == self.view(),
            self.wf() ==> r.wf(),
    {
        &self.registry
    }

    /// Whether the mod `id` is installed and enabled.
    pub fn is_mod_enabled(&self, id: &str) -> (r: bool)
        ensures
            r == is_enabled(self.view(), id@),
    {
        proof {
            lemma_lookup(self.registry.mods@, id@);
        }
        match self.registry.position(id) {
            Some(i) => self.registry.mods[i].enabled,
            None => false,
        }
    }

    /// The enabled mods, in registry order.
    pub fn enabled_mods(&self) -> (r: Vec<usize>)
        ensures
            forall|k: int| 0 <= k < r@.len() ==> r@[k] < self.view().len() && self.view()[r@[k] as int].enabled,
            forall|p: int| 0 <= p < self.view().len() && self.view()[p].enabled ==> r@.contains(p as usize),
            forall|a: int, b: int| 0 <= a < b < r@.len() ==> r@[a] < r@[b],
    {
        let mut r: Vec<usize> = Vec::new();
        for p in 0..self.registry.mods.len()
            invariant
                forall|k: int| 0 <= k < r@.len() ==> r@[k] < p && self.view()[r@[k] as int].enabled,
                forall|q: int| 0 <= q < p && self.view()[q].enabled ==> r@.contains(q as usize),
                forall|a: int, b: int| 0 <= a < b < r@.len() ==> r@[a] < r@[b],
        {
            let ghost before = r@;
            if self.registry.mods[p].enabled {
                r.push(p);
                assert(r@[r@.len() - 1] == p);
            }
            assert forall|q: int| 0 <= q < p + 1 && self.view()[q].enabled implies r@.contains(q as usize) by {
                if q < p {
                    let k = choose|k: int| 0 <= k < before.len() && before[k] == q as usize;
                    assert(r@[k] == before[k]);
                } else {
                    assert(r@[r@.len() - 1] == p);
                }
            }
        }
        r
    }

    /// The execution plan shared by the asset pass and the live runtime: the mods in
    /// dependency order (positions in the registry) and, for every enabled mod left
    /// out, the reason. The enabled ids are visited in ascending order.
    pub fn plan_report(&self, rules: &Vec<ConflictRule>, is_server: bool, api_version: &str) -> (r: (Vec<usize>, Vec<PlanError>))
        requires
            self.wf(),
            conflicts_spec(self.view(), rules@) is Ok ==> semver_version_parses(api_version@),
        ensures
            exists|ids: Seq<String>| sorted_enabled(self.view(), ids)
                && (index_seq(r.0@), r.1@) == plan_spec(self.view(), rules@, ids, is_server, api_version@),
    {
        let blocked = match self.registry.conflicts(rules) {
            Ok(blocked) => blocked,
            Err(requirement) => {
                let ids = self.registry.sorted_enabled_ids();
                let mut errors: Vec<PlanError> = Vec::new();
                errors.push(PlanError::InvalidRule { requirement });
                assert(index_seq(Seq::<usize>::empty()) =~= Seq::<int>::empty());
                assert(errors@ =~= seq![PlanError::InvalidRule { requirement }]);
                return (Vec::new(), errors);
            },
        };
        let ids = self.registry.sorted_enabled_ids();
        let mut done: Vec<String> = Vec::new();
        let mut order: Vec<usize> = Vec::new();
        let mut errors: Vec<PlanError> = Vec::new();
        proof {
            assert(text_set(done@) =~= Set::<Seq<char>>::empty());
            assert(index_seq(order@) =~= Seq::<int>::empty());
            assert(ids@.take(0) =~= Seq::<String>::empty());
        }
        for k in 0..ids.len()
            invariant
                ({
                    let p = plan_fold(self.view(), blocked@, ids@.take(k as int), is_server, api_version@);
                    text_set(done@) == p.0 && index_seq(order@) == p.1 && errors@ == p.2
                }),
        {
            proof {
                assert(ids@.take(k + 1).drop_last() =~= ids@.take(k as int));
                assert(text_set(Seq::<String>::empty()) =~= Set::<Seq<char>>::empty());
            }
            let visiting: Vec<String> = Vec::new();
            let e = self.registry.visit_exec(&blocked, &ids[k], is_server, api_version, &visiting, &mut done, &mut order);
            if let Some(e) = e {
                errors.push(e);
            }
        }
        assert(ids@.take(ids@.len() as int) =~= ids@);
        (order, errors)
    }

    /// The mods of the execution plan, in dependency order.
    pub fn plan(&self, rules: &Vec<ConflictRule>, is_server: bool, api_version: &str) -> (r: Vec<usize>)
        requires
            self.wf(),
            conflicts_spec(self.view(), rules@) is Ok ==> semver_version_parses(api_version@),
        ensures
            exists|ids: Seq<String>| sorted_enabled(self.view(), ids)
                && index_seq(r@) == plan_spec(self.view(), rules@, ids, is_server, api_version@).0,
    {
        self.plan_report(rules, is_server, api_version).0
    }

    /// The execution plan for an API version that is checked first: `None` when the
    /// rules evaluate and `api_version` is not a semantic version, where the plan
    /// cannot be made.
    pub fn plan_report_checked(&self, rules: &Vec<ConflictRule>, is_server: bool, api_version: &str)
        -> (r: Option<(Vec<usize>, Vec<PlanError>)>)
        requires
            self.wf(),
        ensures
            r is None <==> (conflicts_spec(self.view(), rules@) is Ok && !semver_version_parses(api_version@)),
            r matches Some(p) ==> exists|ids: Seq<String>| sorted_enabled(self.view(), ids)
                && (index_seq(p.0@), p.1@) == plan_spec(self.view(), rules@, ids, is_server, api_version@),
    {
        let rules_ok = self.registry.conflicts(rules).is_ok();
        if rules_ok && !version_parses(api_version) {
            return None;
        }
        Some(self.plan_report(rules, is_server, api_version))
    }

    /// The plan's mods for an API version that is checked first: `None` when the
    /// rules evaluate and `api_version` is not a semantic version.
    pub fn plan_checked(&self, rules: &Vec<ConflictRule>, is_server: bool, api_version: &str) -> (r: Option<Vec<usize>>)
        requires
            self.wf(),
        ensures
            r is None <==> (conflicts_spec(self.view(), rules@) is Ok && !semver_version_parses(api_version@)),
            r matches Some(order) ==> exists|ids: Seq<String>| sorted_enabled(self.view(), ids)
                && index_seq(order@) == plan_spec(self.view(), rules@, ids, is_server, api_version@).0,
    {
        let rules_ok = self.registry.conflicts(rules).is_ok();
        if rules_ok && !version_parses(api_version) {
            return None;
        }
        Some(self.plan(rules, is_server, api_version))
    }
}


/// The dependency `d` is met by the mods planned in `before`: an API dependency
/// accepts the API version; a skipped optional dependency needs nothing; any other
/// dependency is an installed mod that is planned in `before` and whose version the
/// requirement accepts.
pub open spec fn dependency_met(mods: Seq<ModManifest>, api: Seq<char>, before: Seq<int>, d: Dependency) -> bool {
    if d.id@ == "shroudforge-api"@ {
        semver_requirement_matches(d.version@, api) == Some(true)
    } else if d.optional == Some(true) && !is_enabled(mods, d.id@) {
        true
    } else {
        lookup(mods, d.id@) matches Some(x) && before.contains(x)
            && semver_requirement_matches(d.version@, mods[x].version@) == Some(true)
    }
}

/// `mods[i]` may run after the mods `before`: it is enabled, targets this process,
/// no rule blocks it, its API requirement accepts the API, and each dependency is met.
pub open spec fn may_run_after(
    mods: Seq<ModManifest>,
    blocked: Seq<BlockedMod>,
    server: bool,
    api: Seq<char>,
    before: Seq<int>,
    i: int,
) -> bool {
    let m = mods[i];
    &&& m.enabled
    &&& !wrong_target(m.target, server)
    &&& blocked_reason(blocked, m.id@) is None
    &&& (m.api is Some ==> semver_requirement_matches(m.api->0@, api) == Some(true))
    &&& forall|q: int| 0 <= q < m.dependencies@.len() ==> dependency_met(mods, api, before, #[trigger] m.dependencies@[q])
}

/// A well-formed partial plan: each planned mod appears once and may run after the
/// mods planned before it; `done` holds exactly the ids of the planned mods.
pub open spec fn plan_wf(
    mods: Seq<ModManifest>,
    blocked: Seq<BlockedMod>,
    server: bool,
    api: Seq<char>,
    done: Set<Seq<char>>,
    order: Seq<int>,
) -> bool {
    &&& forall|k: int| 0 <= k < order.len() ==> 0 <= #[trigger] order[k] < mods.len()
        && lookup(mods, mods[order[k]].id@) == Some(order[k])
        && may_run_after(mods, blocked, server, api, order.take(k), order[k])
    &&& forall|a: int, b: int| 0 <= a < b < order.len() ==> #[trigger] order[a] != #[trigger] order[b]
    &&& forall|id: Seq<char>| #[trigger] done.contains(id) <==> (lookup(mods, id) matches Some(x) && order.contains(x))
}

proof fn lemma_met_extends(mods: Seq<ModManifest>, api: Seq<char>, before: Seq<int>, after: Seq<int>, d: Dependency)
    requires
        dependency_met(mods, api, before, d),
        before.len() <= after.len(),
        after.take(before.len() as int) == before,
    ensures
        dependency_met(mods, api, after, d),
{
    if let Some(x) = lookup(mods, d.id@) {
        if before.contains(x) {
            let j = choose|j: int| 0 <= j < before.len() && before[j] == x;
            assert(after[j] == after.take(before.len() as int)[j]);
        }
    }
}

proof fn lemma_plan_wf_extends(
    mods: Seq<ModManifest>,
    blocked: Seq<BlockedMod>,
    server: bool,
    api: Seq<char>,
    done: Set<Seq<char>>,
    order: Seq<int>,
    i: int,
    id: Seq<char>,
)
    requires
        plan_wf(mods, blocked, server, api, done, order),
        0 <= i < mods.len(),
        mods[i].id@ == id,
        lookup(mods, id) == Some(i),
        !done.contains(id),
        may_run_after(mods, blocked, server, api, order, i),
    ensures
        plan_wf(mods, blocked, server, api, done.insert(id), order.push(i)),
{
    let o = order.push(i);
    assert forall|k: int| 0 <= k < o.len() implies 0 <= #[trigger] o[k] < mods.len()
        && lookup(mods, mods[o[k]].id@) == Some(o[k])
        && may_run_after(mods, blocked, server, api, o.take(k), o[k]) by {
        if k < order.len() {
            assert(o.take(k) =~= order.take(k));
            assert(o[k] == order[k]);
        } else {
            assert(o.take(k) =~= order);
        }
    }
    assert(!order.contains(i));
    assert forall|a: int, b: int| 0 <= a < b < o.len() implies #[trigger] o[a] != #[trigger] o[b] by {
        if b == order.len() {
            assert(o[a] == order[a]);
        } else {
            assert(o[a] == order[a] && o[b] == order[b]);
        }
    }
    assert forall|x: Seq<char>| #[trigger] done.insert(id).contains(x) <==> (lookup(mods, x) matches Some(y) && o.contains(y)) by {
        if let Some(y) = lookup(mods, x) {
            if o.contains(y) && !order.contains(y) {
                let j = choose|j: int| 0 <= j < o.len() && o[j] == y;
                assert(j == order.len());
                lemma_lookup(mods, x);
            }
            if order.contains(y) {
                let j = choose|j: int| 0 <= j < order.len() && order[j] == y;
                assert(o[j] == y);
            }
            if x == id {
                assert(o[order.len() as int] == i);
            }
        }
    }
}

/// Visiting keeps a plan well formed, only appends to it, never completes a mod that
/// is on the current path, and completes the visited mod when it succeeds.
pub proof fn lemma_visit_plan(
    mods: Seq<ModManifest>,
    blocked: Seq<BlockedMod>,
    id: String,
    server: bool,
    api: Seq<char>,
    visiting: Set<Seq<char>>,
    done: Set<Seq<char>>,
    order: Seq<int>,
)
    requires
        unique_ids(mods),
        plan_wf(mods, blocked, server, api, done, order),
    ensures
        ({
            let r = visit(mods, blocked, id, server, api, visiting, done, order);
            &&& plan_wf(mods, blocked, server, api, r.0, r.1)
            &&& order.len() <= r.1.len()
            &&& r.1.take(order.len() as int) == order
            &&& forall|v: Seq<char>| visiting.contains(v) && !done.contains(v) ==> !#[trigger] r.0.contains(v)
            &&& forall|v: Seq<char>| done.contains(v) ==> #[trigger] r.0.contains(v)
            &&& (r.2 is None ==> r.0.contains(id@))
        }),
    decreases id_set(mods).difference(visiting).len(), 0nat, 0int,
{
    let r = visit(mods, blocked, id, server, api, visiting, done, order);
    assert(order.take(order.len() as int) =~= order);
    if blocked_reason(blocked, id@) is None && !done.contains(id@) && !visiting.contains(id@) {
        if let Some(i) = lookup(mods, id@) {
            let item = mods[i];
            lemma_lookup(mods, id@);
            if item.enabled && !wrong_target(item.target, server)
                && !(item.api is Some && semver_requirement_matches(item.api->0@, api) is None)
                && !(item.api is Some && semver_requirement_matches(item.api->0@, api) == Some(false)) {
                lemma_visit_decreases(mods, visiting, id@);
                let v2 = visiting.insert(id@);
                lemma_visit_deps_plan(mods, blocked, i, 0, server, api, v2, done, order);
                let d = visit_deps(mods, blocked, i, 0, server, api, v2, done, order);
                if d.2 is None {
                    assert(!d.0.contains(id@));
                    assert forall|q: int| 0 <= q < item.dependencies@.len()
                        implies dependency_met(mods, api, d.1, #[trigger] item.dependencies@[q]) by {}
                    assert(item.enabled);
                    assert(!wrong_target(item.target, server));
                    assert(blocked_reason(blocked, item.id@) is None);
                    assert(item.api is Some ==> semver_requirement_matches(item.api->0@, api) == Some(true));
                    lemma_plan_wf_extends(mods, blocked, server, api, d.0, d.1, i, id@);
                    let o = d.1.push(i);
                    assert(o.take(order.len() as int) =~= d.1.take(order.len() as int));
                }
            }
        }
    }
}

/// Planning dependencies keeps a plan well formed and only appends to it; when it
/// succeeds, every dependency from the `k`-th on is met by the resulting plan.
pub proof fn lemma_visit_deps_plan(
    mods: Seq<ModManifest>,
    blocked: Seq<BlockedMod>,
    i: int,
    k: int,
    server: bool,
    api: Seq<char>,
    visiting: Set<Seq<char>>,
    done: Set<Seq<char>>,
    order: Seq<int>,
)
    requires
        unique_ids(mods),
        plan_wf(mods, blocked, server, api, done, order),
        0 <= i < mods.len(),
        0 <= k,
    ensures
        ({
            let r = visit_deps(mods, blocked, i, k, server, api, visiting, done, order);
            &&& plan_wf(mods, blocked, server, api, r.0, r.1)
            &&& order.len() <= r.1.len()
            &&& r.1.take(order.len() as int) == order
            &&& forall|v: Seq<char>| visiting.contains(v) && !done.contains(v) ==> !#[trigger] r.0.contains(v)
            &&& forall|v: Seq<char>| done.contains(v) ==> #[trigger] r.0.contains(v)
            &&& (r.2 is None ==> forall|q: int| k <= q < mods[i].dependencies@.len()
                ==> dependency_met(mods, api, r.1, #[trigger] mods[i].dependencies@[q]))
        }),
    decreases id_set(mods).difference(visiting).len(), 1nat,
        if 0 <= i < mods.len() && 0 <= k <= mods[i].dependencies@.len() { mods[i].dependencies@.len() - k } else { 0 },
{
    assert(order.take(order.len() as int) =~= order);
    let deps = mods[i].dependencies@;
    if k < deps.len() {
        let d = deps[k];
        let r = visit_deps(mods, blocked, i, k, server, api, visiting, done, order);
        if d.id@ == "shroudforge-api"@ {
            if semver_requirement_matches(d.version@, api) == Some(true) {
                lemma_visit_deps_plan(mods, blocked, i, k + 1, server, api, visiting, done, order);
            }
        } else if d.optional == Some(true) && !is_enabled(mods, d.id@) {
            lemma_visit_deps_plan(mods, blocked, i, k + 1, server, api, visiting, done, order);
        } else if let Some(j) = lookup(mods, d.id@) {
            if semver_requirement_matches(d.version@, mods[j].version@) == Some(true) {
                lemma_visit_plan(mods, blocked, d.id, server, api, visiting, done, order);
                let v = visit(mods, blocked, d.id, server, api, visiting, done, order);
                if v.2 is None {
                    lemma_visit_deps_plan(mods, blocked, i, k + 1, server, api, visiting, v.0, v.1);
                    let w = visit_deps(mods, blocked, i, k + 1, server, api, visiting, v.0, v.1);
                    assert(w.1.take(order.len() as int) =~= w.1.take(v.1.len() as int).take(order.len() as int));
                    if w.2 is None {
                        assert(dependency_met(mods, api, v.1, d));
                        lemma_met_extends(mods, api, v.1, w.1, d);
                    }
                }
            }
        }
    }
}


proof fn lemma_plan_fold_wf(
    mods: Seq<ModManifest>,
    blocked: Seq<BlockedMod>,
    ids: Seq<String>,
    server: bool,
    api: Seq<char>,
)
    requires
        unique_ids(mods),
    ensures
        plan_wf(mods, blocked, server, api, plan_fold(mods, blocked, ids, server, api).0,
            plan_fold(mods, blocked, ids, server, api).1),
    decreases ids.len(),
{
    if ids.len() == 0 {
        assert forall|id: Seq<char>| #[trigger] Set::<Seq<char>>::empty().contains(id)
            <==> (lookup(mods, id) matches Some(x) && Seq::<int>::empty().contains(x)) by {}
    } else {
        lemma_plan_fold_wf(mods, blocked, ids.drop_last(), server, api);
        let p = plan_fold(mods, blocked, ids.drop_last(), server, api);
        lemma_visit_plan(mods, blocked, ids.last(), server, api, Set::empty(), p.0, p.1);
    }
}

/// The execution plan respects every mod's requirements: each planned mod is
/// installed and enabled, runs in this process, is not blocked by a compatibility
/// rule, accepts the API version, has each of its dependencies met by mods planned
/// before it, and is planned once. When a rule's range does not parse, nothing is
/// planned.
pub proof fn plan_respects_requirements(
    mods: Seq<ModManifest>,
    rules: Seq<ConflictRule>,
    ids: Seq<String>,
    server: bool,
    api: Seq<char>,
)
    requires
        unique_ids(mods),
    ensures
        ({
            let order = plan_spec(mods, rules, ids, server, api).0;
            &&& conflicts_spec(mods, rules) is Err ==> order.len() == 0
            &&& conflicts_spec(mods, rules) matches Ok(blocked) ==> {
                &&& forall|k: int| 0 <= k < order.len() ==> 0 <= #[trigger] order[k] < mods.len()
                    && may_run_after(mods, blocked, server, api, order.take(k), order[k])
                &&& forall|a: int, b: int| 0 <= a < b < order.len() ==> #[trigger] order[a] != #[trigger] order[b]
            }
        }),
{
    if let Ok(blocked) = conflicts_spec(mods, rules) {
        lemma_plan_fold_wf(mods, blocked, ids, server, api);
    }
}


/// The walk over `ids` reported an error at step `a`: the mod `ids[a]` could not be
/// planned and its reason was appended to the errors.
pub open spec fn step_reported(
    mods: Seq<ModManifest>,
    blocked: Seq<BlockedMod>,
    ids: Seq<String>,
    server: bool,
    api: Seq<char>,
    a: int,
) -> bool {
    plan_fold(mods, blocked, ids.take(a + 1), server, api).2.len()
        == plan_fold(mods, blocked, ids.take(a), server, api).2.len() + 1
}

proof fn lemma_fold_planned_or_reported(
    mods: Seq<ModManifest>,
    blocked: Seq<BlockedMod>,
    ids: Seq<String>,
    server: bool,
    api: Seq<char>,
)
    requires
        unique_ids(mods),
    ensures
        forall|a: int| 0 <= a < ids.len() ==>
            plan_fold(mods, blocked, ids, server, api).0.contains(#[trigger] ids[a]@)
            || step_reported(mods, blocked, ids, server, api, a),
    decreases ids.len(),
{
    if ids.len() > 0 {
        let init = ids.drop_last();
        lemma_fold_planned_or_reported(mods, blocked, init, server, api);
        lemma_plan_fold_wf(mods, blocked, init, server, api);
        let p = plan_fold(mods, blocked, init, server, api);
        lemma_visit_plan(mods, blocked, ids.last(), server, api, Set::empty(), p.0, p.1);
        let n = ids.len() - 1;
        assert(ids.take(n + 1) =~= ids);
        assert(ids.take(n) =~= init);
        assert forall|a: int| 0 <= a < ids.len() implies
            plan_fold(mods, blocked, ids, server, api).0.contains(#[trigger] ids[a]@)
            || step_reported(mods, blocked, ids, server, api, a) by {
            if a < n {
                assert(init[a] == ids[a]);
                assert(init.take(a + 1) =~= ids.take(a + 1));
                assert(init.take(a) =~= ids.take(a));
            }
        }
    }
}

impl ModEnvironment {
    /// The mods of an environment have pairwise distinct ids.
    pub proof fn ids_distinct(&self)
        requires
            self.wf(),
        ensures
            unique_ids(self.view()),
    {
    }
}

/// Every enabled mod is either in the execution plan or was reported: the plan's
/// walk appended an error at the step that visited the mod's own id.
pub proof fn left_out_mods_are_reported(
    mods: Seq<ModManifest>,
    rules: Seq<ConflictRule>,
    ids: Seq<String>,
    server: bool,
    api: Seq<char>,
    p: int,
)
    requires
        unique_ids(mods),
        sorted_enabled(mods, ids),
        0 <= p < mods.len(),
        mods[p].enabled,
    ensures
        conflicts_spec(mods, rules) matches Ok(blocked) ==>
            plan_spec(mods, rules, ids, server, api).0.contains(p)
            || exists|a: int| 0 <= a < ids.len() && ids[a] == mods[p].id
                && #[trigger] step_reported(mods, blocked, ids, server, api, a),
{
    if let Ok(blocked) = conflicts_spec(mods, rules) {
        lemma_fold_planned_or_reported(mods, blocked, ids, server, api);
        lemma_plan_fold_wf(mods, blocked, ids, server, api);
        assert(listed(ids, mods[p].id));
        let a = choose|a: int| 0 <= a < ids.len() && #[trigger] ids[a] == mods[p].id;
        lemma_lookup(mods, mods[p].id@);
        let f = plan_fold(mods, blocked, ids, server, api);
        if f.0.contains(ids[a]@) {
            assert(lookup(mods, mods[p].id@) == Some(p));
        } else {
            assert(step_reported(mods, blocked, ids, server, api, a));
        }
    }
}


/// An installed, enabled mod answers the rule side: it has the side's id and a
/// version that the side's range accepts.
pub open spec fn enabled_in_range(mods: Seq<ModManifest>, side: ConflictSide) -> bool {
    exists|i: int| 0 <= i < mods.len() && #[trigger] mods[i].id@ == side.id@ && mods[i].enabled
        && semver_requirement_matches(side.version@, mods[i].version@) == Some(true)
}

/// A mod id listed among the blocked mods.
pub open spec fn blocks(blocked: Seq<BlockedMod>, id: Seq<char>) -> bool {
    exists|k: int| 0 <= k < blocked.len() && #[trigger] blocked[k].id@ == id
}

proof fn lemma_conflicts_sound(mods: Seq<ModManifest>, rules: Seq<ConflictRule>)
    ensures
        conflicts_spec(mods, rules) matches Ok(blocked) ==> forall|k: int| 0 <= k < blocked.len() ==>
            exists|r: int| 0 <= r < rules.len()
                && (#[trigger] blocked[k].id == rules[r].first.id || blocked[k].id == rules[r].second.id)
                && blocked[k].reason == rules[r].reason
                && enabled_in_range(mods, rules[r].first) && enabled_in_range(mods, rules[r].second),
    decreases rules.len(),
{
    if rules.len() > 0 {
        let init = rules.drop_last();
        lemma_conflicts_sound(mods, init);
        if let Ok(blocked) = conflicts_spec(mods, rules) {
            let prev = conflicts_spec(mods, init)->Ok_0;
            let rule = rules.last();
            let n = rules.len() - 1;
            assert(rule == rules[n]);
            assert forall|k: int| 0 <= k < blocked.len() implies
                exists|r: int| 0 <= r < rules.len()
                    && (#[trigger] blocked[k].id == rules[r].first.id || blocked[k].id == rules[r].second.id)
                    && blocked[k].reason == rules[r].reason
                    && enabled_in_range(mods, rules[r].first) && enabled_in_range(mods, rules[r].second) by {
                if k < prev.len() {
                    assert(blocked[k] == prev[k]);
                    let r = choose|r: int| 0 <= r < init.len()
                        && (#[trigger] prev[k].id == init[r].first.id || prev[k].id == init[r].second.id)
                        && prev[k].reason == init[r].reason
                        && enabled_in_range(mods, init[r].first) && enabled_in_range(mods, init[r].second);
                    assert(init[r] == rules[r]);
                } else {
                    lemma_lookup(mods, rule.first.id@);
                    lemma_lookup(mods, rule.second.id@);
                    let i = lookup(mods, rule.first.id@)->0;
                    let j = lookup(mods, rule.second.id@)->0;
                    assert(mods[i].id@ == rule.first.id@);
                    assert(mods[j].id@ == rule.second.id@);
                    assert(enabled_in_range(mods, rule.first));
                    assert(enabled_in_range(mods, rule.second));
                }
            }
        }
    }
}

proof fn lemma_conflicts_prefix(mods: Seq<ModManifest>, rules: Seq<ConflictRule>, m: int)
    requires
        0 <= m <= rules.len(),
        conflicts_spec(mods, rules) is Ok,
    ensures
        conflicts_spec(mods, rules.take(m)) is Ok,
        conflicts_spec(mods, rules.take(m))->Ok_0.len() <= conflicts_spec(mods, rules)->Ok_0.len(),
        conflicts_spec(mods, rules)->Ok_0.take(conflicts_spec(mods, rules.take(m))->Ok_0.len() as int)
            == conflicts_spec(mods, rules.take(m))->Ok_0,
    decreases rules.len() - m,
{
    assert(rules.take(rules.len() as int) =~= rules);
    if m < rules.len() {
        lemma_conflicts_prefix(mods, rules, m + 1);
        assert(rules.take(m + 1).drop_last() =~= rules.take(m));
        let a = conflicts_spec(mods, rules.take(m))->Ok_0;
        let b = conflicts_spec(mods, rules.take(m + 1))->Ok_0;
        let c = conflicts_spec(mods, rules)->Ok_0;
        assert(b.take(a.len() as int) =~= a);
        assert(c.take(a.len() as int) =~= c.take(b.len() as int).take(a.len() as int));
    } else {
        let c = conflicts_spec(mods, rules)->Ok_0;
        assert(c.take(c.len() as int) =~= c);
    }
}

/// The compatibility rules block exactly the mods of rules that apply: every blocked
/// mod is a side of a rule, with that rule's reason, whose two mods are both
/// installed, enabled and in the rule's ranges; and the mods of every such rule are
/// blocked. A rule with a side whose mod is disabled or missing blocks nothing.
pub proof fn rules_block_enabled_pairs(mods: Seq<ModManifest>, rules: Seq<ConflictRule>, r: int)
    requires
        unique_ids(mods),
    ensures
        conflicts_spec(mods, rules) matches Ok(blocked) ==> forall|k: int| 0 <= k < blocked.len() ==>
            exists|q: int| 0 <= q < rules.len()
                && (#[trigger] blocked[k].id == rules[q].first.id || blocked[k].id == rules[q].second.id)
                && blocked[k].reason == rules[q].reason
                && enabled_in_range(mods, rules[q].first) && enabled_in_range(mods, rules[q].second),
        conflicts_spec(mods, rules) matches Ok(blocked) ==> (0 <= r < rules.len()
            && enabled_in_range(mods, rules[r].first) && enabled_in_range(mods, rules[r].second)
            ==> blocks(blocked, rules[r].first.id@) && blocks(blocked, rules[r].second.id@)),
{
    lemma_conflicts_sound(mods, rules);
    if let Ok(blocked) = conflicts_spec(mods, rules) {
        if 0 <= r < rules.len() && enabled_in_range(mods, rules[r].first) && enabled_in_range(mods, rules[r].second) {
            lemma_conflicts_prefix(mods, rules, r);
            lemma_conflicts_prefix(mods, rules, r + 1);
            let pre = rules.take(r + 1);
            assert(pre.drop_last() =~= rules.take(r));
            assert(pre.last() == rules[r]);
            let rule = rules[r];
            let i = choose|i: int| 0 <= i < mods.len() && #[trigger] mods[i].id@ == rule.first.id@ && mods[i].enabled
                && semver_requirement_matches(rule.first.version@, mods[i].version@) == Some(true);
            let j = choose|j: int| 0 <= j < mods.len() && #[trigger] mods[j].id@ == rule.second.id@ && mods[j].enabled
                && semver_requirement_matches(rule.second.version@, mods[j].version@) == Some(true);
            lemma_lookup(mods, rule.first.id@);
            lemma_lookup(mods, rule.second.id@);
            assert(lookup(mods, rule.first.id@) == Some(i));
            assert(lookup(mods, rule.second.id@) == Some(j));
            let b = conflicts_spec(mods, pre)->Ok_0;
            let n = b.len();
            assert(b[n - 2].id == rule.first.id && b[n - 1].id == rule.second.id);
            assert(blocked[n - 2] == b[n - 2]);
            assert(blocked[n - 1] == b[n - 1]);
        }
    }
}


/// A dependency that asks no other mod to be planned: an API dependency whose range
/// accepts the API version, or an optional dependency on a mod that no enabled
/// installed mod provides.
pub open spec fn dep_needs_nothing(mods: Seq<ModManifest>, api: Seq<char>, d: Dependency) -> bool {
    if d.id@ == "shroudforge-api"@ {
        semver_requirement_matches(d.version@, api) == Some(true)
    } else {
        d.optional == Some(true) && forall|q: int| 0 <= q < mods.len() && #[trigger] mods[q].id@ == d.id@ ==> !mods[q].enabled
    }
}

/// `mods[x]` can run here within `n` levels of dependencies: it is enabled, targets
/// this process, is not blocked, accepts the API version, and each dependency either
/// needs nothing or is an installed mod whose version the requirement accepts and
/// that can itself run here within `n - 1` levels.
pub open spec fn plannable(mods: Seq<ModManifest>, blocked: Seq<BlockedMod>, server: bool, api: Seq<char>, x: int, n: nat) -> bool
    decreases n,
{
    &&& 0 <= x < mods.len()
    &&& mods[x].enabled
    &&& !(mods[x].target == ModTarget::Client && server)
    &&& !(mods[x].target == ModTarget::Server && !server)
    &&& !blocks(blocked, mods[x].id@)
    &&& (mods[x].api is Some ==> semver_requirement_matches(mods[x].api->0@, api) == Some(true))
    &&& forall|q: int| 0 <= q < mods[x].dependencies@.len() ==> {
        let d = #[trigger] mods[x].dependencies@[q];
        ||| dep_needs_nothing(mods, api, d)
        ||| (n > 0 && d.id@ != "shroudforge-api"@ && exists|y: int| 0 <= y < mods.len() && #[trigger] mods[y].id@ == d.id@
                && semver_requirement_matches(d.version@, mods[y].version@) == Some(true)
                && plannable(mods, blocked, server, api, y, (n - 1) as nat))
    }
}

proof fn lemma_plannable_monotone(mods: Seq<ModManifest>, blocked: Seq<BlockedMod>, server: bool, api: Seq<char>, x: int, m: nat, n: nat)
    requires
        m <= n,
        plannable(mods, blocked, server, api, x, m),
    ensures
        plannable(mods, blocked, server, api, x, n),
    decreases m,
{
    let deps = mods[x].dependencies@;
    assert forall|q: int| 0 <= q < deps.len() implies {
        let d = #[trigger] deps[q];
        ||| dep_needs_nothing(mods, api, d)
        ||| (n > 0 && d.id@ != "shroudforge-api"@ && exists|y: int| 0 <= y < mods.len() && #[trigger] mods[y].id@ == d.id@
                && semver_requirement_matches(d.version@, mods[y].version@) == Some(true)
                && plannable(mods, blocked, server, api, y, (n - 1) as nat))
    } by {
        let d = deps[q];
        if !dep_needs_nothing(mods, api, d) {
            let y = choose|y: int| 0 <= y < mods.len() && #[trigger] mods[y].id@ == d.id@
                && semver_requirement_matches(d.version@, mods[y].version@) == Some(true)
                && plannable(mods, blocked, server, api, y, (m - 1) as nat);
            lemma_plannable_monotone(mods, blocked, server, api, y, (m - 1) as nat, (n - 1) as nat);
        }
    }
}

proof fn lemma_plannable_least(mods: Seq<ModManifest>, blocked: Seq<BlockedMod>, server: bool, api: Seq<char>, x: int, n: nat) -> (m: nat)
    requires
        plannable(mods, blocked, server, api, x, n),
    ensures
        m <= n,
        plannable(mods, blocked, server, api, x, m),
        m == 0 || !plannable(mods, blocked, server, api, x, (m - 1) as nat),
    decreases n,
{
    if n > 0 && plannable(mods, blocked, server, api, x, (n - 1) as nat) {
        lemma_plannable_least(mods, blocked, server, api, x, (n - 1) as nat)
    } else {
        n
    }
}

proof fn lemma_not_blocked(blocked: Seq<BlockedMod>, id: Seq<char>)
    ensures
        !blocks(blocked, id) ==> blocked_reason(blocked, id) is None,
    decreases blocked.len(),
{
    if blocked.len() > 0 && !blocks(blocked, id) {
        assert(blocked.last() == blocked[blocked.len() - 1]);
        let init = blocked.drop_last();
        assert forall|k: int| 0 <= k < init.len() implies #[trigger] init[k].id@ != id by {
            assert(init[k] == blocked[k]);
        }
        lemma_not_blocked(init, id);
    }
}

/// No id on the current dependency path belongs to a mod that can run within `n`
/// levels.
pub open spec fn path_clear(mods: Seq<ModManifest>, blocked: Seq<BlockedMod>, server: bool, api: Seq<char>, visiting: Set<Seq<char>>, n: nat) -> bool {
    forall|y: int| 0 <= y < mods.len() && visiting.contains(#[trigger] mods[y].id@) ==> !plannable(mods, blocked, server, api, y, n)
}

proof fn lemma_plannable_visit(
    mods: Seq<ModManifest>,
    blocked: Seq<BlockedMod>,
    id: String,
    x: int,
    n: nat,
    server: bool,
    api: Seq<char>,
    visiting: Set<Seq<char>>,
    done: Set<Seq<char>>,
    order: Seq<int>,
)
    requires
        unique_ids(mods),
        plan_wf(mods, blocked, server, api, done, order),
        plannable(mods, blocked, server, api, x, n),
        n == 0 || !plannable(mods, blocked, server, api, x, (n - 1) as nat),
        mods[x].id@ == id@,
        path_clear(mods, blocked, server, api, visiting, n),
    ensures
        visit(mods, blocked, id, server, api, visiting, done, order).2 is None,
    decreases n, 1nat, 0int,
{
    lemma_not_blocked(blocked, id@);
    lemma_lookup(mods, id@);
    assert(lookup(mods, id@) == Some(x));
    if !done.contains(id@) {
        assert(!visiting.contains(id@));
        lemma_visit_decreases(mods, visiting, id@);
        let v2 = visiting.insert(id@);
        if n > 0 {
            assert forall|y: int| 0 <= y < mods.len() && v2.contains(#[trigger] mods[y].id@)
                implies !plannable(mods, blocked, server, api, y, (n - 1) as nat) by {
                if visiting.contains(mods[y].id@) {
                    if plannable(mods, blocked, server, api, y, (n - 1) as nat) {
                        lemma_plannable_monotone(mods, blocked, server, api, y, (n - 1) as nat, n);
                    }
                } else {
                    assert(y == x);
                }
            }
        }
        lemma_plannable_deps(mods, blocked, x, 0, n, server, api, v2, done, order);
    }
}

proof fn lemma_plannable_deps(
    mods: Seq<ModManifest>,
    blocked: Seq<BlockedMod>,
    x: int,
    k: int,
    n: nat,
    server: bool,
    api: Seq<char>,
    visiting: Set<Seq<char>>,
    done: Set<Seq<char>>,
    order: Seq<int>,
)
    requires
        unique_ids(mods),
        plan_wf(mods, blocked, server, api, done, order),
        plannable(mods, blocked, server, api, x, n),
        0 <= k,
        n > 0 ==> path_clear(mods, blocked, server, api, visiting, (n - 1) as nat),
    ensures
        visit_deps(mods, blocked, x, k, server, api, visiting, done, order).2 is None,
    decreases n, 0nat, if 0 <= x < mods.len() && 0 <= k <= mods[x].dependencies@.len() { mods[x].dependencies@.len() - k } else { 0 },
{
    let deps = mods[x].dependencies@;
    if k < deps.len() {
        let d = deps[k];
        if d.id@ == "shroudforge-api"@ {
            assert(dep_needs_nothing(mods, api, d));
            lemma_plannable_deps(mods, blocked, x, k + 1, n, server, api, visiting, done, order);
        } else if d.optional == Some(true) && !is_enabled(mods, d.id@) {
            lemma_plannable_deps(mods, blocked, x, k + 1, n, server, api, visiting, done, order);
        } else {
            lemma_lookup(mods, d.id@);
            if dep_needs_nothing(mods, api, d) {
                let j = lookup(mods, d.id@)->0;
                assert(mods[j].id@ == d.id@);
                assert(false);
            }
            let y = choose|y: int| 0 <= y < mods.len() && #[trigger] mods[y].id@ == d.id@
                && semver_requirement_matches(d.version@, mods[y].version@) == Some(true)
                && plannable(mods, blocked, server, api, y, (n - 1) as nat);
            assert(lookup(mods, d.id@) == Some(y));
            let m = lemma_plannable_least(mods, blocked, server, api, y, (n - 1) as nat);
            assert forall|z: int| 0 <= z < mods.len() && visiting.contains(#[trigger] mods[z].id@)
                implies !plannable(mods, blocked, server, api, z, m) by {
                if plannable(mods, blocked, server, api, z, m) {
                    lemma_plannable_monotone(mods, blocked, server, api, z, m, (n - 1) as nat);
                }
            }
            lemma_plannable_visit(mods, blocked, d.id, y, m, server, api, visiting, done, order);
            lemma_visit_plan(mods, blocked, d.id, server, api, visiting, done, order);
            let r = visit(mods, blocked, d.id, server, api, visiting, done, order);
            lemma_plannable_deps(mods, blocked, x, k + 1, n, server, api, visiting, r.0, r.1);
        }
    }
}

/// The execution plan is complete: every mod that can run here (enabled, targeting
/// this process, not blocked by a rule, accepting the API version, and with every
/// dependency either needing nothing, such as an optional dependency on a mod that
/// is not enabled, or met by an installed mod of an accepted version that can
/// itself run here) is in the plan.
pub proof fn plan_includes_every_runnable_mod(
    mods: Seq<ModManifest>,
    rules: Seq<ConflictRule>,
    ids: Seq<String>,
    server: bool,
    api: Seq<char>,
    p: int,
    n: nat,
)
    requires
        unique_ids(mods),
        sorted_enabled(mods, ids),
    ensures
        conflicts_spec(mods, rules) matches Ok(blocked) ==> (plannable(mods, blocked, server, api, p, n)
            ==> plan_spec(mods, rules, ids, server, api).0.contains(p)),
{
    if let Ok(blocked) = conflicts_spec(mods, rules) {
        if plannable(mods, blocked, server, api, p, n) {
            lemma_fold_planned_or_reported(mods, blocked, ids, server, api);
            lemma_plan_fold_wf(mods, blocked, ids, server, api);
            assert(listed(ids, mods[p].id));
            let a = choose|a: int| 0 <= a < ids.len() && #[trigger] ids[a] == mods[p].id;
            let pre = ids.take(a);
            assert(ids.take(a + 1).drop_last() =~= pre);
            assert(ids.take(a + 1).last() == ids[a]);
            lemma_plan_fold_wf(mods, blocked, pre, server, api);
            let f = plan_fold(mods, blocked, pre, server, api);
            let m = lemma_plannable_least(mods, blocked, server, api, p, n);
            lemma_plannable_visit(mods, blocked, ids[a], p, m, server, api, Set::empty(), f.0, f.1);
            assert(!step_reported(mods, blocked, ids, server, api, a));
            lemma_lookup(mods, mods[p].id@);
            assert(lookup(mods, mods[p].id@) == Some(p));
        }
    }
}

} // verus!
