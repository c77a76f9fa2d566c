//! Decisions of the long-lived in-game runtime: which planned mods may start when
//! the early startup transaction did not publish their assets, the update interval
//! a lifecycle table may ask for, and live activation changes.
use vstd::prelude::*;
use crate::manifest::{Capability, Dependency, ModManifest};
use crate::environment::{ModRegistry, unique_ids};
use crate::text::{str_equal, concat3};

verus! {

/// The dependency is required (not marked optional).
pub open spec fn required(d: Dependency) -> bool {
    d.optional != Some(true)
}

/// The planned mod writes game assets and is enabled: without a published startup
/// transaction it cannot start.
pub open spec fn asset_seed(mods: Seq<ModManifest>, plan: Seq<usize>, i: int) -> bool {
    mods[plan[i] as int].enabled && mods[plan[i] as int].capabilities@.contains(Capability::AssetsWrite)
}

/// Planned mod `i` requires a mod whose flag is set.
pub open spec fn requires_flagged(mods: Seq<ModManifest>, plan: Seq<usize>, i: int, flags: Seq<bool>) -> bool {
    let deps = mods[plan[i] as int].dependencies@;
    exists|d: int, j: int| 0 <= d < deps.len() && required(deps[d]) && 0 <= j < plan.len() && #[trigger] flags[j]
        && mods[plan[j] as int].id@ == #[trigger] deps[d].id@
}

/// The planned mods blocked after `r` rounds of propagation along required
/// dependencies, starting from the asset-writing mods.
pub open spec fn blocked_level(mods: Seq<ModManifest>, plan: Seq<usize>, r: nat) -> Seq<bool>
    decreases r,
{
    if r == 0 {
        Seq::new(plan.len(), |i: int| asset_seed(mods, plan, i))
    } else {
        let previous = blocked_level(mods, plan, (r - 1) as nat);
        Seq::new(plan.len(), |i: int| previous[i] || requires_flagged(mods, plan, i, previous))
    }
}

/// Planned mod `i` cannot start: it writes assets, or it requires, directly or
/// through other mods, one that does.
pub open spec fn startup_blocked(mods: Seq<ModManifest>, plan: Seq<usize>, i: int) -> bool {
    exists|r: nat| #[trigger] blocked_level(mods, plan, r)[i]
}

/// Some planned mod is enabled and writes assets.
pub open spec fn needs_startup_assets_spec(mods: Seq<ModManifest>, plan: Seq<usize>) -> bool {
    exists|i: int| 0 <= i < plan.len() && #[trigger] asset_seed(mods, plan, i)
}

pub open spec fn plan_valid(mods: Seq<ModManifest>, plan: Seq<usize>) -> bool {
    &&& unique_ids(mods)
    &&& forall|i: int| 0 <= i < plan.len() ==> #[trigger] plan[i] < mods.len()
    &&& forall|i: int, j: int| 0 <= i < j < plan.len() ==> #[trigger] plan[i] != #[trigger] plan[j]
}

fn has_assets_capability(m: &ModManifest) -> (r: bool)
    ensures
        r == m.capabilities@.contains(Capability::AssetsWrite),
{
    for i in 0..m.capabilities.len()
        invariant
            forall|j: int| 0 <= j < i ==> m.capabilities@[j] != Capability::AssetsWrite,
    {
        if m.capabilities[i] == Capability::AssetsWrite {
            assert(m.capabilities@[i as int] == Capability::AssetsWrite);
            return true;
        }
    }
    false
}

/// Whether an enabled planned mod writes assets, so that the runtime must check
/// that the startup transaction published them.
pub fn needs_startup_assets(registry: &ModRegistry, plan: &Vec<usize>) -> (r: bool)
    requires
        forall|i: int| 0 <= i < plan@.len() ==> #[trigger] plan@[i] < registry.view().len(),
    ensures
        r == needs_startup_assets_spec(registry.view(), plan@),
{
    for i in 0..plan.len()
        invariant
            forall|i: int| 0 <= i < plan@.len() ==> #[trigger] plan@[i] < registry.view().len(),
            forall|j: int| 0 <= j < i ==> !#[trigger] asset_seed(registry.view(), plan@, j),
    {
        let m = registry.at(plan[i]);
        if m.enabled && has_assets_capability(m) {
            assert(asset_seed(registry.view(), plan@, i as int));
            return true;
        }
    }
    false
}

fn flagged_id(registry: &ModRegistry, plan: &Vec<usize>, flags: &Vec<bool>, id: &str) -> (r: bool)
    requires
        flags@.len() == plan@.len(),
        forall|i: int| 0 <= i < plan@.len() ==> #[trigger] plan@[i] < registry.view().len(),
    ensures
        r == exists|j: int| 0 <= j < plan@.len() && #[trigger] flags@[j] && registry.view()[plan@[j] as int].id@ == id@,
{
    for j in 0..plan.len()
        invariant
            flags@.len() == plan@.len(),
            forall|i: int| 0 <= i < plan@.len() ==> #[trigger] plan@[i] < registry.view().len(),
            forall|k: int| 0 <= k < j ==> !(#[trigger] flags@[k] && registry.view()[plan@[k] as int].id@ == id@),
    {
        if flags[j] && str_equal(registry.at(plan[j]).id.as_str(), id) {
            return true;
        }
    }
    false
}

fn requires_flagged_exec(registry: &ModRegistry, plan: &Vec<usize>, i: usize, flags: &Vec<bool>) -> (r: bool)
    requires
        i < plan@.len(),
        flags@.len() == plan@.len(),
        forall|k: int| 0 <= k < plan@.len() ==> #[trigger] plan@[k] < registry.view().len(),
    ensures
        r == requires_flagged(registry.view(), plan@, i as int, flags@),
{
    let m = registry.at(plan[i]);
    let ghost deps = m.dependencies@;
    for d in 0..m.dependencies.len()
        invariant
            flags@.len() == plan@.len(),
            forall|k: int| 0 <= k < plan@.len() ==> #[trigger] plan@[k] < registry.view().len(),
            deps == m.dependencies@,
            *m == registry.view()[plan@[i as int] as int],
            forall|e: int, j: int| 0 <= e < d && required(deps[e]) && 0 <= j < plan@.len() ==>
                !(#[trigger] flags@[j] && registry.view()[plan@[j] as int].id@ == #[trigger] deps[e].id@),
    {
        let dep = &m.dependencies[d];
        let optional = match dep.optional {
            Some(value) => value,
            None => false,
        };
        if !optional && flagged_id(registry, plan, flags, dep.id.as_str()) {
            return true;
        }
    }
    false
}

/// How many flags are clear.
pub open spec fn clear_count(flags: Seq<bool>) -> nat
    decreases flags.len(),
{
    if flags.len() == 0 {
        0
    } else {
        clear_count(flags.drop_last()) + if flags.last() { 0nat } else { 1nat }
    }
}

proof fn lemma_clear_count_decreases(a: Seq<bool>, b: Seq<bool>)
    requires
        a.len() == b.len(),
        forall|i: int| 0 <= i < a.len() && #[trigger] a[i] ==> b[i],
    ensures
        clear_count(b) <= clear_count(a),
        a != b ==> clear_count(b) < clear_count(a),
    decreases a.len(),
{
    if a.len() > 0 {
        let a1 = a.drop_last();
        let b1 = b.drop_last();
        assert forall|i: int| 0 <= i < a1.len() && #[trigger] a1[i] implies b1[i] by {
            assert(a[i]);
        }
        lemma_clear_count_decreases(a1, b1);
        if a != b && a1 == b1 {
            assert(a.last() != b.last()) by {
                if a.last() == b.last() {
                    assert(a =~= b) by {
                        assert forall|i: int| 0 <= i < a.len() implies a[i] == b[i] by {
                            if i < a.len() - 1 {
                                assert(a[i] == a1[i] && b[i] == b1[i]);
                            }
                        }
                    }
                }
            }
        }
    } else {
        assert(a =~= b);
    }
}

proof fn lemma_levels_grow(mods: Seq<ModManifest>, plan: Seq<usize>, r: nat, s: nat, i: int)
    requires
        r <= s,
        0 <= i < plan.len(),
        blocked_level(mods, plan, r)[i],
    ensures
        blocked_level(mods, plan, s)[i],
    decreases s - r,
{
    if r < s {
        lemma_levels_grow(mods, plan, r, (s - 1) as nat, i);
        assert(blocked_level(mods, plan, (s - 1) as nat)[i]);
    }
}

proof fn lemma_levels_stable(mods: Seq<ModManifest>, plan: Seq<usize>, r: nat, s: nat)
    requires
        r <= s,
        blocked_level(mods, plan, r + 1) == blocked_level(mods, plan, r),
    ensures
        blocked_level(mods, plan, s) == blocked_level(mods, plan, r),
    decreases s - r,
{
    if r < s {
        lemma_levels_stable(mods, plan, r, (s - 1) as nat);
        let previous = blocked_level(mods, plan, (s - 1) as nat);
        assert(blocked_level(mods, plan, s) =~= Seq::new(plan.len(), |i: int| previous[i] || requires_flagged(mods, plan, i, previous)));
    }
}

/// The message recorded for a mod withheld because its assets were not published.
pub open spec fn asset_apply_required() -> Seq<char> {
    "startup-asset-apply-required: the early startup transaction did not publish this asset configuration"@
}

/// The planned positions whose flags are clear, in plan order.
pub open spec fn retained(plan: Seq<usize>, flags: Seq<bool>) -> Seq<usize>
    decreases plan.len(),
{
    if plan.len() == 0 || flags.len() < plan.len() {
        Seq::empty()
    } else {
        let rest = retained(plan.drop_last(), flags.take(plan.len() - 1));
        if flags[plan.len() - 1] {
            rest
        } else {
            rest.push(plan.last())
        }
    }
}

/// The ids of the planned positions whose flags are set, in plan order.
pub open spec fn removed_ids(mods: Seq<ModManifest>, plan: Seq<usize>, flags: Seq<bool>) -> Seq<Seq<char>>
    decreases plan.len(),
{
    if plan.len() == 0 || flags.len() < plan.len() {
        Seq::empty()
    } else {
        let rest = removed_ids(mods, plan.drop_last(), flags.take(plan.len() - 1));
        if flags[plan.len() - 1] {
            rest.push(mods[plan.last() as int].id@)
        } else {
            rest
        }
    }
}

/// The blocked flags of the whole plan.
pub open spec fn blocked_flags(mods: Seq<ModManifest>, plan: Seq<usize>) -> Seq<bool> {
    Seq::new(plan.len(), |i: int| startup_blocked(mods, plan, i))
}

/// Withholds the planned mods that cannot start because the startup transaction did
/// not publish their assets: every enabled asset-writing mod, and every mod that
/// requires one of them, directly or through others. Yields the plan without them
/// and, for each, its id with the reason, in plan order.
pub fn withhold_unpublished(registry: &ModRegistry, plan: &Vec<usize>) -> (r: (Vec<usize>, Vec<(String, String)>))
    requires
        plan_valid(registry.view(), plan@),
    ensures
        r.0@ == retained(plan@, blocked_flags(registry.view(), plan@)),
        r.1@.len() == removed_ids(registry.view(), plan@, blocked_flags(registry.view(), plan@)).len(),
        forall|k: int| 0 <= k < r.1@.len() ==> #[trigger] r.1@[k].0@
            == removed_ids(registry.view(), plan@, blocked_flags(registry.view(), plan@))[k]
            && r.1@[k].1@ == asset_apply_required(),
{
    let ghost mods = registry.view();
    let n = plan.len();
    let mut flags: Vec<bool> = Vec::new();
    for i in 0..n
        invariant
            n == plan@.len(),
            plan_valid(mods, plan@),
            mods == registry.view(),
            flags@ =~= blocked_level(mods, plan@, 0).take(i as int),
    {
        let m = registry.at(plan[i]);
        flags.push(m.enabled && has_assets_capability(m));
        assert(flags@ =~= blocked_level(mods, plan@, 0).take(i + 1));
    }
    assert(flags@ =~= blocked_level(mods, plan@, 0));
    let ghost mut round: nat = 0;
    loop
        invariant
            n == plan@.len(),
            plan_valid(mods, plan@),
            mods == registry.view(),
            flags@ == blocked_level(mods, plan@, round),
        ensures
            flags@ == blocked_level(mods, plan@, round),
            blocked_level(mods, plan@, round + 1) == blocked_level(mods, plan@, round),
        decreases clear_count(flags@),
    {
        let mut next: Vec<bool> = Vec::new();
        let mut changed = false;
        for i in 0..n
            invariant
                n == plan@.len(),
                flags@.len() == n,
                plan_valid(mods, plan@),
                mods == registry.view(),
                flags@ == blocked_level(mods, plan@, round),
                next@ =~= blocked_level(mods, plan@, round + 1).take(i as int),
                changed <==> exists|k: int| 0 <= k < i && next@[k] != flags@[k],
        {
            let value = flags[i] || requires_flagged_exec(registry, plan, i, &flags);
            next.push(value);
            if value != flags[i] {
                changed = true;
            }
            assert(next@ =~= blocked_level(mods, plan@, round + 1).take(i + 1));
            assert(next@[i as int] == value);
        }
        assert(next@ =~= blocked_level(mods, plan@, round + 1));
        if !changed {
            assert(next@ =~= flags@);
            break;
        }
        proof {
            lemma_clear_count_decreases(flags@, next@);
            round = round + 1;
        }
        flags = next;
    }
    proof {
        assert forall|i: int| 0 <= i < n implies flags@[i] == #[trigger] startup_blocked(mods, plan@, i) by {
            if startup_blocked(mods, plan@, i) {
                let r = choose|r: nat| #[trigger] blocked_level(mods, plan@, r)[i];
                if r <= round {
                    lemma_levels_grow(mods, plan@, r, round, i);
                } else {
                    lemma_levels_stable(mods, plan@, round, r);
                }
            }
            if flags@[i] {
                assert(blocked_level(mods, plan@, round)[i]);
            }
        }
        assert(flags@ =~= blocked_flags(mods, plan@));
    }
    let mut kept: Vec<usize> = Vec::new();
    let mut errors: Vec<(String, String)> = Vec::new();
    for i in 0..n
        invariant
            n == plan@.len(),
            flags@.len() == n,
            plan_valid(mods, plan@),
            mods == registry.view(),
            kept@ == retained(plan@.take(i as int), flags@.take(i as int)),
            errors@.len() == removed_ids(mods, plan@.take(i as int), flags@.take(i as int)).len(),
            forall|k: int| 0 <= k < errors@.len() ==> #[trigger] errors@[k].0@
                == removed_ids(mods, plan@.take(i as int), flags@.take(i as int))[k]
                && errors@[k].1@ == asset_apply_required(),
    {
        proof {
            let p = plan@.take(i + 1);
            let f = flags@.take(i + 1);
            assert(p.drop_last() =~= plan@.take(i as int));
            assert(f.take(p.len() - 1) =~= flags@.take(i as int));
        }
        if flags[i] {
            let id = registry.at(plan[i]).id.clone();
            errors.push((id, String::from_str("startup-asset-apply-required: the early startup transaction did not publish this asset configuration")));
        } else {
            kept.push(plan[i]);
        }
    }
    proof {
        assert(plan@.take(n as int) =~= plan@);
        assert(flags@.take(n as int) =~= flags@);
    }
    (kept, errors)
}

/// No mod that stays in the plan requires a withheld mod.
pub proof fn kept_mods_require_no_withheld_mod(mods: Seq<ModManifest>, plan: Seq<usize>, i: int, d: int, j: int)
    requires
        0 <= i < plan.len(),
        0 <= j < plan.len(),
        !startup_blocked(mods, plan, i),
        startup_blocked(mods, plan, j),
        0 <= d < mods[plan[i] as int].dependencies@.len(),
        required(mods[plan[i] as int].dependencies@[d]),
    ensures
        mods[plan[j] as int].id@ != mods[plan[i] as int].dependencies@[d].id@,
{
    let r = choose|r: nat| #[trigger] blocked_level(mods, plan, r)[j];
    if mods[plan[j] as int].id@ == mods[plan[i] as int].dependencies@[d].id@ {
        let previous = blocked_level(mods, plan, r);
        assert(requires_flagged(mods, plan, i, previous)) by {
            assert(previous[j]);
        }
        assert(blocked_level(mods, plan, r + 1)[i]);
    }
}

/// Every enabled asset-writing mod is withheld.
pub proof fn asset_writers_are_withheld(mods: Seq<ModManifest>, plan: Seq<usize>, i: int)
    requires
        0 <= i < plan.len(),
        asset_seed(mods, plan, i),
    ensures
        startup_blocked(mods, plan, i),
{
    assert(blocked_level(mods, plan, 0)[i]);
}

/// The update interval that a lifecycle table asks for, in milliseconds: 50 when it
/// names none, the value when it is an integer from 8 to 1000. `Err(())` stands for
/// a value that is not an unsigned integer.
pub fn lifecycle_interval(declared: Result<Option<u64>, ()>) -> (r: Result<u64, String>)
    ensures
        match declared {
            Ok(None) => r == Ok::<u64, String>(50),
            Ok(Some(v)) => if 8 <= v <= 1000 {
                r == Ok::<u64, String>(v)
            } else {
                r matches Err(m) && m@ == "update_interval_ms must be an integer from 8 to 1000"@
            },
            Err(()) => r matches Err(m) && m@ == "update_interval_ms must be an integer from 8 to 1000"@,
        },
{
    match declared {
        Ok(Some(value)) => {
            if 8 <= value && value <= 1000 {
                Ok(value)
            } else {
                Err(String::from_str("update_interval_ms must be an integer from 8 to 1000"))
            }
        },
        Ok(None) => Ok(50),
        Err(()) => Err(String::from_str("update_interval_ms must be an integer from 8 to 1000")),
    }
}

/// What a mod's entrypoint gave back when its module was loaded.
#[derive(Debug)]
pub enum ModuleValue {
    /// Loading the module failed with this error.
    Failed(String),
    /// A lifecycle table.
    Table,
    /// Nothing: the mod has no lifecycle callbacks.
    Nil,
    /// Any other value.
    Other,
}

/// How a loaded module starts.
#[derive(Debug)]
pub enum ModuleStart {
    /// Record this error and discard the module's scope.
    Rejected(String),
    /// Keep the lifecycle with this update interval; run `on_load` when `run_load`;
    /// the mod is active when `active`.
    Ready { interval: u64, run_load: bool, active: bool },
}

/// Decides how a loaded module starts. `declared` is the table's
/// `update_interval_ms` (ignored without a table), `callbacks_valid` whether its
/// `on_load`, `on_update` and `on_unload` are functions or absent, `has_load`
/// whether it has an `on_load`, and `enabled` whether the mod is enabled.
pub fn module_start(value: ModuleValue, declared: Result<Option<u64>, ()>, callbacks_valid: bool, enabled: bool, has_load: bool) -> (r: ModuleStart)
    ensures
        match value {
            ModuleValue::Failed(e) => r matches ModuleStart::Rejected(m) && m@ == "module initialization failed: "@ + e@,
            ModuleValue::Other => r matches ModuleStart::Rejected(m) && m@ == "entrypoint must return a lifecycle table or nil"@,
            ModuleValue::Table | ModuleValue::Nil => {
                let d = if value is Table { declared } else { Ok(None) };
                match d {
                    Ok(Some(v)) if !(8 <= v <= 1000) =>
                        r matches ModuleStart::Rejected(m) && m@ == "update_interval_ms must be an integer from 8 to 1000"@,
                    Err(()) =>
                        r matches ModuleStart::Rejected(m) && m@ == "update_interval_ms must be an integer from 8 to 1000"@,
                    _ => if !callbacks_valid {
                        r matches ModuleStart::Rejected(m) && m@ == "invalid lifecycle"@
                    } else {
                        r == (ModuleStart::Ready {
                            interval: match d { Ok(Some(v)) => v, _ => 50 },
                            run_load: enabled && has_load,
                            active: enabled,
                        })
                    },
                }
            },
        },
{
    let declared = match value {
        ModuleValue::Failed(e) => {
            proof { reveal_strlit(""); }
            return ModuleStart::Rejected(concat3("module initialization failed: ", e.as_str(), ""));
        },
        ModuleValue::Other => return ModuleStart::Rejected(String::from_str("entrypoint must return a lifecycle table or nil")),
        ModuleValue::Table => declared,
        ModuleValue::Nil => Ok(None),
    };
    let interval = match lifecycle_interval(declared) {
        Ok(v) => v,
        Err(m) => return ModuleStart::Rejected(m),
    };
    if !callbacks_valid {
        return ModuleStart::Rejected(String::from_str("invalid lifecycle"));
    }
    ModuleStart::Ready { interval, run_load: enabled && has_load, active: enabled }
}

/// What a failed `on_load` leaves: the error to record. The module's `on_unload`
/// then runs, the mod is marked inactive and its lifecycle is not kept.
pub fn load_failure(error: &str) -> (r: String)
    ensures
        r@ == "on_load failed: "@ + error@,
{
    proof { reveal_strlit(""); }
    concat3("on_load failed: ", error, "")
}

} // verus!

verus! {

/// A mod that runs live: it has the `runtime` capability and does not write assets.
pub open spec fn live_mod(m: ModManifest) -> bool {
    m.capabilities@.contains(Capability::Runtime) && !m.capabilities@.contains(Capability::AssetsWrite)
}

/// The configuration of mod `id` disables it.
pub open spec fn configured_disabled(configured: Seq<(String, bool)>, id: Seq<char>) -> bool {
    exists|k: int| 0 <= k < configured.len() && #[trigger] configured[k].0@ == id && !configured[k].1
}

/// The runtime holds the lifecycle of mod `id` and it is inactive.
pub open spec fn runtime_inactive(lifecycle: Seq<(String, bool)>, id: Seq<char>) -> bool {
    exists|k: int| 0 <= k < lifecycle.len() && #[trigger] lifecycle[k].0@ == id && !lifecycle[k].1
}

/// The runtime holds the lifecycle of mod `id`.
pub open spec fn in_lifecycle(lifecycle: Seq<(String, bool)>, id: Seq<char>) -> bool {
    exists|k: int| 0 <= k < lifecycle.len() && #[trigger] lifecycle[k].0@ == id
}

/// A dependency that blocks a live activation: required, and disabled by
/// configuration or inactive in the runtime.
pub open spec fn inactive_dependency(d: Dependency, configured: Seq<(String, bool)>, lifecycle: Seq<(String, bool)>) -> bool {
    required(d) && (configured_disabled(configured, d.id@) || runtime_inactive(lifecycle, d.id@))
}

/// The first dependency from position `k` on that blocks a live activation.
pub open spec fn first_inactive_dependency(deps: Seq<Dependency>, configured: Seq<(String, bool)>, lifecycle: Seq<(String, bool)>, k: int) -> Option<Seq<char>>
    decreases deps.len() - k,
{
    if k < 0 || k >= deps.len() {
        None
    } else if inactive_dependency(deps[k], configured, lifecycle) {
        Some(deps[k].id@)
    } else {
        first_inactive_dependency(deps, configured, lifecycle, k + 1)
    }
}

/// What a live change of a mod's `enabled` flag does.
#[derive(Debug)]
pub enum ActivationStep {
    /// Nothing changes live.
    Keep,
    /// Record this error: a required dependency is not active.
    DependencyInactive(String),
    /// Mark the mod active and run its `on_load`.
    Activate,
    /// Run the mod's `on_unload` and mark it inactive.
    Deactivate,
    /// Record this error: the mod has no lifecycle in this run.
    NotInPlan(String),
}

fn lookup_flag(entries: &Vec<(String, bool)>, id: &str, wanted: bool) -> (r: bool)
    ensures
        r == exists|k: int| 0 <= k < entries@.len() && #[trigger] entries@[k].0@ == id@ && entries@[k].1 == wanted,
{
    for k in 0..entries.len()
        invariant
            forall|j: int| 0 <= j < k ==> !(#[trigger] entries@[j].0@ == id@ && entries@[j].1 == wanted),
    {
        if entries[k].1 == wanted && str_equal(entries[k].0.as_str(), id) {
            return true;
        }
    }
    false
}

fn lookup_id(entries: &Vec<(String, bool)>, id: &str) -> (r: bool)
    ensures
        r == exists|k: int| 0 <= k < entries@.len() && #[trigger] entries@[k].0@ == id@,
{
    for k in 0..entries.len()
        invariant
            forall|j: int| 0 <= j < k ==> #[trigger] entries@[j].0@ != id@,
    {
        if str_equal(entries[k].0.as_str(), id) {
            return true;
        }
    }
    false
}

/// Decides a live activation change of `manifest`'s mod. It applies only to live
/// mods whose manifest changed in nothing but `enabled` and setting values, and whose
/// wanted state differs from the applied one. `configured` holds each installed
/// mod's id with its configured `enabled` flag (ids distinct, as in the registry);
/// `lifecycle` each lifecycle of the run with whether it is active.
pub fn activation_step(
    manifest: &ModManifest,
    metadata_unchanged: bool,
    was_enabled: bool,
    configured: &Vec<(String, bool)>,
    lifecycle: &Vec<(String, bool)>,
) -> (r: ActivationStep)
    ensures
        !(metadata_unchanged && live_mod(*manifest) && manifest.enabled != was_enabled) ==> r is Keep,
        metadata_unchanged && live_mod(*manifest) && manifest.enabled != was_enabled ==> {
            let missing = if manifest.enabled {
                first_inactive_dependency(manifest.dependencies@, configured@, lifecycle@, 0)
            } else {
                None
            };
            match missing {
                Some(dep) => r matches ActivationStep::DependencyInactive(m) && m@ == "required dependency is not active: "@ + dep,
                None => if !in_lifecycle(lifecycle@, manifest.id@) {
                    r matches ActivationStep::NotInPlan(m)
                        && m@ == "runtime module was not present in the startup plan; restart required"@
                } else if manifest.enabled {
                    r is Activate
                } else {
                    r is Deactivate
                },
            }
        },
{
    let runtime = {
        let mut found = false;
        for i in 0..manifest.capabilities.len()
            invariant
                found <==> exists|j: int| 0 <= j < i && manifest.capabilities@[j] == Capability::Runtime,
        {
            if manifest.capabilities[i] == Capability::Runtime {
                found = true;
            }
        }
        found
    };
    let live = runtime && !has_assets_capability(manifest);
    proof {
        assert(runtime == manifest.capabilities@.contains(Capability::Runtime)) by {
            if manifest.capabilities@.contains(Capability::Runtime) {
                let j = choose|j: int| 0 <= j < manifest.capabilities@.len() && manifest.capabilities@[j] == Capability::Runtime;
                assert(manifest.capabilities@[j] == Capability::Runtime);
            }
        }
    }
    if !(metadata_unchanged && live && manifest.enabled != was_enabled) {
        return ActivationStep::Keep;
    }
    if manifest.enabled {
        let deps = &manifest.dependencies;
        for k in 0..deps.len()
            invariant
                metadata_unchanged && live_mod(*manifest) && manifest.enabled != was_enabled,
                manifest.enabled,
                deps@ == manifest.dependencies@,
                first_inactive_dependency(deps@, configured@, lifecycle@, 0)
                    == first_inactive_dependency(deps@, configured@, lifecycle@, k as int),
        {
            let dep = &deps[k];
            let optional = match dep.optional {
                Some(value) => value,
                None => false,
            };
            if !optional && (lookup_flag(configured, dep.id.as_str(), false) || lookup_flag(lifecycle, dep.id.as_str(), false)) {
                proof { reveal_strlit(""); }
                return ActivationStep::DependencyInactive(concat3("required dependency is not active: ", dep.id.as_str(), ""));
            }
        }
    }
    if !lookup_id(lifecycle, manifest.id.as_str()) {
        return ActivationStep::NotInPlan(String::from_str("runtime module was not present in the startup plan; restart required"));
    }
    if manifest.enabled {
        ActivationStep::Activate
    } else {
        ActivationStep::Deactivate
    }
}


/// One lifecycle of the run: a live mod with its callbacks and update timing.
#[derive(Debug)]
pub struct LifecycleEntry {
    pub id: String,
    pub active: bool,
    /// The mod declared `on_update`.
    pub has_update: bool,
    /// The mod declared `on_unload`.
    pub has_unload: bool,
    pub interval_ms: u64,
    /// When `on_update` is next due, in milliseconds of the host's clock.
    pub next_update_ms: u64,
}

/// Whether an entry's `on_update` runs at `now_ms`: it is active, has the callback,
/// and its time has come.
pub open spec fn update_due_spec(entry: LifecycleEntry, now_ms: u64) -> bool {
    entry.active && entry.has_update && now_ms >= entry.next_update_ms
}

/// Decides whether the entry's `on_update` runs now.
pub fn update_due(entry: &LifecycleEntry, now_ms: u64) -> (r: bool)
    ensures
        r == update_due_spec(*entry, now_ms),
{
    entry.active && entry.has_update && now_ms >= entry.next_update_ms
}

/// What the host does after an `on_update` that failed.
#[derive(Debug)]
pub struct UpdateFailure {
    /// Record this error for the mod.
    pub error: String,
    /// Run the mod's `on_unload` to roll its changes back.
    pub unload: bool,
}

/// Records the outcome of an entry's `on_update` that ran at `now_ms`: the next
/// update is due one interval later; a failure deactivates the mod and asks for its
/// error to be recorded and its `on_unload` to run, when it has one.
pub fn record_update(entry: &mut LifecycleEntry, now_ms: u64, outcome: Result<(), String>) -> (r: Option<UpdateFailure>)
    requires
        now_ms + old(entry).interval_ms <= u64::MAX,
    ensures
        final(entry).next_update_ms == now_ms + old(entry).interval_ms,
        final(entry).id == old(entry).id,
        final(entry).has_update == old(entry).has_update,
        final(entry).has_unload == old(entry).has_unload,
        final(entry).interval_ms == old(entry).interval_ms,
        match outcome {
            Ok(()) => r is None && final(entry).active == old(entry).active,
            Err(e) => !final(entry).active && (r matches Some(f)
                && f.error@ == "on_update failed: "@ + e@ && f.unload == old(entry).has_unload),
        },
{
    entry.next_update_ms = now_ms + entry.interval_ms;
    match outcome {
        Ok(()) => None,
        Err(e) => {
            entry.active = false;
            proof { reveal_strlit(""); }
            let error = concat3("on_update failed: ", e.as_str(), "");
            assert(error@ =~= "on_update failed: "@ + e@);
            Some(UpdateFailure { error, unload: entry.has_unload })
        },
    }
}

/// A mod whose `on_update` failed is not updated again: it stays inactive until an
/// activation runs it anew.
pub proof fn failed_update_stops_the_mod(entry: LifecycleEntry, later_ms: u64)
    requires
        !entry.active,
    ensures
        !update_due_spec(entry, later_ms),
{
}

} // verus!
