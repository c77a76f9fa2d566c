//! The `runtime.*` surface that mods see: which features a mod may use in the
//! current phase, why a feature is unavailable, and the checks that guard reads and
//! writes of live ECS components.
use vstd::prelude::*;
use crate::compat::{Availability, GameContract};
use crate::manifest::Capability;
use crate::text::{str_equal, str_starts_with, starts_with, concat3, extend_chars, push_decimal, string_of, decimal_spec};
use crate::ecs::{LayoutType, changed_ranges_spec, collect_changed_ranges, covered, merge_ranges, unchanged_component_needs_no_write, changed_ranges_within_component};

verus! {

/// The execution phase. It changes which features are available, never the shape
/// of the API.
#[derive(Clone, Copy, PartialEq, Eq, Structural, Debug)]
pub enum RuntimePhase {
    Pregame,
    Ingame,
}

impl RuntimePhase {
    pub open spec fn name(self) -> Seq<char> {
        match self {
            RuntimePhase::Pregame => "pregame"@,
            RuntimePhase::Ingame => "ingame"@,
        }
    }

    /// The phase's name as mods read it from `runtime.phase`.
    pub fn as_str(self) -> (r: &'static str)
        ensures
            r@ == self.name(),
    {
        match self {
            RuntimePhase::Pregame => "pregame",
            RuntimePhase::Ingame => "ingame",
        }
    }

    /// Pregame is the default phase.
    pub fn default_phase() -> (r: RuntimePhase)
        ensures
            r == RuntimePhase::Pregame,
    {
        RuntimePhase::Pregame
    }
}

/// What the host grants in this run, besides the game contract.
#[derive(Debug)]
pub struct FeatureContext {
    pub phase: RuntimePhase,
    /// Mods may write typed resources back to the game's assets.
    pub assets_write: bool,
    /// Mods may export files.
    pub export: bool,
    /// The native runtime provider sees the live ECS world.
    pub provider_ready: bool,
    /// The native runtime provider has a writable component context.
    pub provider_can_write: bool,
}

pub open spec fn lists(capabilities: Seq<Capability>, capability: Capability) -> bool {
    capabilities.contains(capability)
}

fn has_capability(capabilities: &Vec<Capability>, capability: Capability) -> (r: bool)
    ensures
        r == lists(capabilities@, capability),
{
    for i in 0..capabilities.len()
        invariant
            forall|j: int| 0 <= j < i ==> capabilities@[j] != capability,
    {
        if capabilities[i] == capability {
            assert(capabilities@[i as int] == capability);
            return true;
        }
    }
    false
}

pub open spec fn is_ecs_read_feature(feature: Seq<char>) -> bool {
    feature == "runtime.ecs.query"@ || feature == "runtime.ecs.resolve"@ || feature == "runtime.ecs.read"@
}

/// Whether a mod with `capabilities` may use `feature` (`runtime.has`).
pub open spec fn available_spec(ctx: FeatureContext, contract: GameContract, capabilities: Seq<Capability>, feature: Seq<char>) -> bool {
    if feature == "game.assets.write"@ {
        ctx.assets_write && lists(capabilities, Capability::AssetsWrite)
    } else if feature == "export"@ {
        ctx.export && lists(capabilities, Capability::Export)
    } else if feature == "runtime.lifecycle"@ {
        ctx.phase == RuntimePhase::Ingame && contract.runtime_spec(feature) is None
            && lists(capabilities, Capability::Runtime)
    } else if is_ecs_read_feature(feature) {
        ctx.phase == RuntimePhase::Ingame && contract.runtime_spec(feature) is None
            && lists(capabilities, Capability::Runtime) && ctx.provider_ready
    } else if feature == "runtime.ecs.write"@ {
        ctx.phase == RuntimePhase::Ingame && contract.runtime_spec(feature) is None
            && lists(capabilities, Capability::Runtime) && ctx.provider_can_write
    } else {
        false
    }
}

/// Decides whether a mod may use a feature.
pub fn available(ctx: &FeatureContext, contract: &GameContract, capabilities: &Vec<Capability>, feature: &str) -> (r: bool)
    ensures
        r == available_spec(*ctx, *contract, capabilities@, feature@),
{
    if str_equal(feature, "game.assets.write") {
        ctx.assets_write && has_capability(capabilities, Capability::AssetsWrite)
    } else if str_equal(feature, "export") {
        ctx.export && has_capability(capabilities, Capability::Export)
    } else if str_equal(feature, "runtime.lifecycle") {
        ctx.phase == RuntimePhase::Ingame && contract.has_runtime(feature)
            && has_capability(capabilities, Capability::Runtime)
    } else if str_equal(feature, "runtime.ecs.query") || str_equal(feature, "runtime.ecs.resolve")
        || str_equal(feature, "runtime.ecs.read") {
        ctx.phase == RuntimePhase::Ingame && contract.has_runtime(feature)
            && has_capability(capabilities, Capability::Runtime) && ctx.provider_ready
    } else if str_equal(feature, "runtime.ecs.write") {
        ctx.phase == RuntimePhase::Ingame && contract.has_runtime(feature)
            && has_capability(capabilities, Capability::Runtime) && ctx.provider_can_write
    } else {
        false
    }
}

/// The capability a feature asks of a mod; features without one need none.
pub open spec fn has_capability_for_feature_spec(capabilities: Seq<Capability>, feature: Seq<char>) -> bool {
    if feature == "game.assets.write"@ {
        lists(capabilities, Capability::AssetsWrite)
    } else if feature == "export"@ {
        lists(capabilities, Capability::Export)
    } else if starts_with(feature, "runtime."@) {
        lists(capabilities, Capability::Runtime)
    } else {
        true
    }
}

/// Whether the mod has the capability that `feature` asks for.
pub fn has_capability_for_feature(capabilities: &Vec<Capability>, feature: &str) -> (r: bool)
    ensures
        r == has_capability_for_feature_spec(capabilities@, feature@),
{
    if str_equal(feature, "game.assets.write") {
        has_capability(capabilities, Capability::AssetsWrite)
    } else if str_equal(feature, "export") {
        has_capability(capabilities, Capability::Export)
    } else if str_starts_with(feature, "runtime.") {
        has_capability(capabilities, Capability::Runtime)
    } else {
        true
    }
}

pub open spec fn missing_runtime_capability(mod_id: Seq<char>) -> Seq<char> {
    "mod '"@ + mod_id + "' requires capabilities: [\"runtime\"]"@
}

/// Why a runtime ECS operation is refused to a mod, or `None` when it is not.
pub open spec fn denial_reason_spec(phase: RuntimePhase, mod_id: Seq<char>, capabilities: Seq<Capability>, contract: GameContract, feature: Seq<char>) -> Option<Seq<char>> {
    if phase != RuntimePhase::Ingame {
        Some("runtime ECS is available only during the ingame phase"@)
    } else if !lists(capabilities, Capability::Runtime) {
        Some(missing_runtime_capability(mod_id))
    } else {
        contract.runtime_spec(feature)
    }
}

/// An outcome computed in code agrees with the stated one.
pub open spec fn reports(r: Option<String>, p: Option<Seq<char>>) -> bool {
    match r {
        Some(s) => p == Some(s@),
        None => p is None,
    }
}

/// Why a runtime ECS operation is refused to the mod `mod_id`: outside the ingame
/// phase, without the `runtime` capability, or when the contract does not verify it.
pub fn runtime_denial_reason(phase: RuntimePhase, mod_id: &str, capabilities: &Vec<Capability>, contract: &GameContract, feature: &str) -> (r: Option<String>)
    ensures
        reports(r, denial_reason_spec(phase, mod_id@, capabilities@, *contract, feature@)),
{
    if phase != RuntimePhase::Ingame {
        return Some(String::from_str("runtime ECS is available only during the ingame phase"));
    }
    if !has_capability(capabilities, Capability::Runtime) {
        return Some(concat3("mod '", mod_id, "' requires capabilities: [\"runtime\"]"));
    }
    match contract.runtime(feature) {
        Availability::Available => None,
        Availability::Unavailable { reason } => Some(reason),
    }
}

/// What `runtime.status(feature)` reports to a mod: the reason view of its
/// availability.
pub open spec fn status_spec(ctx: FeatureContext, mod_id: Seq<char>, capabilities: Seq<Capability>, contract: GameContract, feature: Seq<char>) -> Option<Seq<char>> {
    if !has_capability_for_feature_spec(capabilities, feature) {
        Some("mod '"@ + mod_id + "' lacks the required capability"@)
    } else if starts_with(feature, "runtime.ecs."@) && contract.runtime_spec(feature) is None && !ctx.provider_ready {
        Some("KFC Runtime is waiting for the live Keen ECS world"@)
    } else if feature == "runtime.ecs.write"@ && contract.runtime_spec(feature) is None && !ctx.provider_can_write {
        Some("KFC Runtime has no writable live component context"@)
    } else {
        contract.runtime_spec(feature)
    }
}

/// The availability of a feature for a mod, with the reason when it is unavailable.
pub fn feature_status(ctx: &FeatureContext, mod_id: &str, capabilities: &Vec<Capability>, contract: &GameContract, feature: &str) -> (r: Availability)
    ensures
        r.reason_view() == status_spec(*ctx, mod_id@, capabilities@, *contract, feature@),
{
    if !has_capability_for_feature(capabilities, feature) {
        return Availability::Unavailable { reason: concat3("mod '", mod_id, "' lacks the required capability") };
    }
    let availability = contract.runtime(feature);
    let verified = match availability {
        Availability::Available => true,
        Availability::Unavailable { .. } => false,
    };
    if str_starts_with(feature, "runtime.ecs.") && verified && !ctx.provider_ready {
        return Availability::Unavailable { reason: String::from_str("KFC Runtime is waiting for the live Keen ECS world") };
    }
    if str_equal(feature, "runtime.ecs.write") && verified && !ctx.provider_can_write {
        return Availability::Unavailable { reason: String::from_str("KFC Runtime has no writable live component context") };
    }
    availability
}

/// A live ECS read, and the runtime lifecycle, are available exactly when the run is
/// in game and `runtime.status` reports the feature as available to the mod; so an
/// ECS read is never available before the runtime provider sees the live world.
pub proof fn runtime_availability_agrees_with_status(
    ctx: FeatureContext,
    mod_id: Seq<char>,
    contract: GameContract,
    capabilities: Seq<Capability>,
    feature: Seq<char>,
)
    requires
        feature == "runtime.ecs.query"@ || feature == "runtime.ecs.resolve"@ || feature == "runtime.ecs.read"@
            || feature == "runtime.lifecycle"@,
    ensures
        available_spec(ctx, contract, capabilities, feature)
            <==> (ctx.phase == RuntimePhase::Ingame && status_spec(ctx, mod_id, capabilities, contract, feature) is None),
        feature != "runtime.lifecycle"@ && !ctx.provider_ready ==> !available_spec(ctx, contract, capabilities, feature),
{
    reveal_strlit("runtime.ecs.query");
    reveal_strlit("runtime.ecs.resolve");
    reveal_strlit("runtime.ecs.read");
    reveal_strlit("runtime.lifecycle");
    reveal_strlit("runtime.ecs.write");
    reveal_strlit("runtime.");
    reveal_strlit("runtime.ecs.");
    reveal_strlit("game.assets.write");
    reveal_strlit("export");
    assert(feature.subrange(0, 8) =~= "runtime."@);
    assert(feature[0] != "game.assets.write"@[0]);
    assert(feature != "export"@) by { assert(feature.len() != "export"@.len()); }
    if feature == "runtime.lifecycle"@ {
        assert(feature.subrange(0, 12)[8] != "runtime.ecs."@[8]);
        assert(feature[8] != "runtime.ecs.write"@[8]);
    } else {
        assert(feature.subrange(0, 12) =~= "runtime.ecs."@);
        assert(feature[8] != "runtime.lifecycle"@[8]);
        assert(feature != "runtime.ecs.write"@) by {
            if feature.len() == "runtime.ecs.write"@.len() {
                assert(feature[12] != "runtime.ecs.write"@[12]);
            }
        }
    }
}

/// Writing assets needs the run's asset permission and the mod's capability,
/// exporting needs the run's export permission and the mod's capability, a live ECS
/// write needs a writable component context, and a feature the loader does not know
/// is never available.
pub proof fn granted_features_need_permission(
    ctx: FeatureContext,
    mod_id: Seq<char>,
    contract: GameContract,
    capabilities: Seq<Capability>,
    feature: Seq<char>,
)
    ensures
        feature == "game.assets.write"@ ==> (available_spec(ctx, contract, capabilities, feature)
            <==> ctx.assets_write && capabilities.contains(Capability::AssetsWrite)),
        feature == "export"@ ==> (available_spec(ctx, contract, capabilities, feature)
            <==> ctx.export && capabilities.contains(Capability::Export)),
        !starts_with(feature, "runtime."@) && feature != "game.assets.write"@ && feature != "export"@
            ==> !available_spec(ctx, contract, capabilities, feature),
        available_spec(ctx, contract, capabilities, feature) && starts_with(feature, "runtime."@)
            ==> ctx.phase == RuntimePhase::Ingame && capabilities.contains(Capability::Runtime),
        feature == "runtime.ecs.write"@ && available_spec(ctx, contract, capabilities, feature)
            ==> ctx.provider_can_write,
        feature == "runtime.ecs.write"@ && ctx.phase == RuntimePhase::Ingame
            && status_spec(ctx, mod_id, capabilities, contract, feature) is None
            ==> available_spec(ctx, contract, capabilities, feature),
{
    reveal_strlit("runtime.ecs.query");
    reveal_strlit("runtime.ecs.resolve");
    reveal_strlit("runtime.ecs.read");
    reveal_strlit("runtime.lifecycle");
    reveal_strlit("runtime.ecs.write");
    reveal_strlit("runtime.");
    reveal_strlit("game.assets.write");
    reveal_strlit("export");
    reveal_strlit("runtime.ecs.");
    if feature == "runtime.ecs.write"@ {
        assert(feature.subrange(0, 12) =~= "runtime.ecs."@);
        assert(feature[0] != "game.assets.write"@[0]);
        assert(feature.len() != "export"@.len());
        assert(feature[8] != "runtime.lifecycle"@[8]);
        assert(feature != "runtime.ecs.query"@) by { assert(feature[12] != "runtime.ecs.query"@[12]); }
        assert(feature != "runtime.ecs.resolve"@) by { assert(feature.len() != "runtime.ecs.resolve"@.len()); }
        assert(feature != "runtime.ecs.read"@) by { assert(feature.len() != "runtime.ecs.read"@.len()); }
    }
    if starts_with(feature, "runtime."@) {
        if feature == "game.assets.write"@ {
            assert(feature.subrange(0, 8)[0] != "runtime."@[0]);
        }
        if feature == "export"@ {
            assert(feature.len() < 8);
        }
    }
    if feature == "runtime.ecs.query"@ || feature == "runtime.ecs.resolve"@ || feature == "runtime.ecs.read"@
        || feature == "runtime.lifecycle"@ || feature == "runtime.ecs.write"@ {
        assert(feature.subrange(0, 8) =~= "runtime."@);
    }
}

/// `runtime.require(feature)`: succeeds when the feature is available, and fails
/// naming it otherwise.
pub fn require_feature(ctx: &FeatureContext, contract: &GameContract, capabilities: &Vec<Capability>, feature: &str) -> (r: Result<(), String>)
    ensures
        r is Ok <==> available_spec(*ctx, *contract, capabilities@, feature@),
        r matches Err(m) ==> m@ == "ShroudForge feature is unavailable: "@ + feature@,
{
    if available(ctx, contract, capabilities, feature) {
        Ok(())
    } else {
        let m = concat3("ShroudForge feature is unavailable: ", feature, "");
        proof {
            reveal_strlit("");
            assert(m@ =~= "ShroudForge feature is unavailable: "@ + feature@);
        }
        Err(m)
    }
}

/// The first refusal of a live ECS read or write, before any component is named:
/// the operation's denial reason, then a provider that does not see the world yet.
pub open spec fn ecs_precheck_spec(phase: RuntimePhase, mod_id: Seq<char>, capabilities: Seq<Capability>, contract: GameContract, feature: Seq<char>, provider_ready: bool) -> Option<Seq<char>> {
    match denial_reason_spec(phase, mod_id, capabilities, contract, feature) {
        Some(reason) => Some(reason),
        None => if provider_ready { None } else { Some("KFC Runtime is not ready"@) },
    }
}

/// Checks that run before a live ECS operation touches a component.
pub fn ecs_precheck(phase: RuntimePhase, mod_id: &str, capabilities: &Vec<Capability>, contract: &GameContract, feature: &str, provider_ready: bool) -> (r: Option<String>)
    ensures
        reports(r, ecs_precheck_spec(phase, mod_id@, capabilities@, *contract, feature@, provider_ready)),
{
    let denied = runtime_denial_reason(phase, mod_id, capabilities, contract, feature);
    if denied.is_some() {
        return denied;
    }
    if !provider_ready {
        return Some(String::from_str("KFC Runtime is not ready"));
    }
    None
}

/// The component's layout as the parser and the live runtime see it agree, or the
/// reason the operation stops: the runtime does not know the component, the parser
/// has no metadata for it, or their sizes differ.
pub open spec fn component_check_spec(name: Seq<char>, runtime_size: Option<u32>, parser_size: Option<u32>) -> Result<u32, Seq<char>> {
    match runtime_size {
        None => Err("live ECS component unavailable: "@ + name),
        Some(size) => match parser_size {
            None => Err("type metadata unavailable: "@ + name),
            Some(parsed) => if parsed != size {
                Err("component layout mismatch for "@ + name + ": parser="@ + decimal_spec(parsed as nat)
                    + ", runtime="@ + decimal_spec(size as nat))
            } else {
                Ok(size)
            },
        },
    }
}

/// Checks a component before reading or writing it; yields its size.
pub fn component_check(name: &str, runtime_size: Option<u32>, parser_size: Option<u32>) -> (r: Result<u32, String>)
    ensures
        match component_check_spec(name@, runtime_size, parser_size) {
            Ok(size) => r == Ok::<u32, String>(size),
            Err(m) => r matches Err(s) && s@ == m,
        },
{
    proof { reveal_strlit(""); }
    match runtime_size {
        None => Err(concat3("live ECS component unavailable: ", name, "")),
        Some(size) => match parser_size {
            None => Err(concat3("type metadata unavailable: ", name, "")),
            Some(parsed) => {
                if parsed != size {
                    let mut v: Vec<char> = Vec::new();
                    extend_chars(&mut v, "component layout mismatch for ");
                    extend_chars(&mut v, name);
                    extend_chars(&mut v, ": parser=");
                    push_decimal(&mut v, parsed as u64);
                    extend_chars(&mut v, ", runtime=");
                    push_decimal(&mut v, size as u64);
                    let m = string_of(&v);
                    assert(m@ =~= "component layout mismatch for "@ + name@ + ": parser="@ + decimal_spec(parsed as nat)
                        + ", runtime="@ + decimal_spec(size as nat));
                    Err(m)
                } else {
                    Ok(size)
                }
            },
        },
    }
}

/// The value handed to `runtime.ecs.write` came from `runtime.ecs.read` (it has
/// source bytes) and has the component's size.
pub open spec fn source_check_spec(name: Seq<char>, source_len: Option<usize>, size: u32) -> Option<Seq<char>> {
    match source_len {
        None => Some("runtime.ecs.write requires the value returned by runtime.ecs.read for "@ + name),
        Some(len) => if len != size {
            Some("runtime source size mismatch: "@ + name)
        } else {
            None
        },
    }
}

pub fn source_check(name: &str, source_len: Option<usize>, size: u32) -> (r: Option<String>)
    ensures
        reports(r, source_check_spec(name@, source_len, size)),
{
    proof { reveal_strlit(""); }
    match source_len {
        None => Some(concat3("runtime.ecs.write requires the value returned by runtime.ecs.read for ", name, "")),
        Some(len) => if len != size as usize {
            Some(concat3("runtime source size mismatch: ", name, ""))
        } else {
            None
        },
    }
}

/// The edited value serialized to the component's size.
pub fn serialized_check(name: &str, serialized_len: usize, size: u32) -> (r: Option<String>)
    ensures
        reports(r, if serialized_len != size { Some("serialized component size mismatch: "@ + name@) } else { None }),
{
    proof { reveal_strlit(""); }
    if serialized_len != size as usize {
        Some(concat3("serialized component size mismatch: ", name, ""))
    } else {
        None
    }
}

/// What a component write does once the edited value is serialized.
#[derive(Debug)]
pub enum WritePlan {
    /// Report this reason to the mod and write nothing.
    Reject(String),
    /// Raise this error in the mod's script.
    Fail(String),
    /// Nothing changed; report success without writing.
    Unchanged,
    /// Write `merged` over the fresh bytes read from the live component.
    Write(Vec<u8>),
}

/// Plans the write of a component of registry type `t`: `source` is the component
/// as the mod read it, `candidate` the mod's edited copy, and `fresh` a read of the
/// live component made just before. Only the changed plain ranges are taken from the
/// edited copy; every other byte keeps its fresh value.
pub fn plan_component_write(
    name: &str,
    registry: &Vec<LayoutType>,
    t: usize,
    source: &Vec<u8>,
    candidate: &Vec<u8>,
    fresh: Option<Vec<u8>>,
) -> (r: WritePlan)
    requires
        t < registry@.len(),
        source@.len() == candidate@.len(),
        fresh matches Some(f) ==> f@.len() == candidate@.len(),
    ensures
        match fresh {
            None => r matches WritePlan::Reject(m) && m@ == "component changed or disappeared: "@ + name@,
            Some(f) => match changed_ranges_spec(registry@, t as int, source@, candidate@) {
                Err(e) => r matches WritePlan::Fail(m) && m@ == e,
                Ok(ranges) => if ranges.len() == 0 {
                    r is Unchanged
                } else {
                    r matches WritePlan::Write(merged) && merged@.len() == f@.len()
                        && forall|i: int| 0 <= i < f@.len() ==> #[trigger] merged@[i]
                            == if covered(ranges, i) { candidate@[i] } else { f@[i] }
                },
            },
        },
{
    proof { reveal_strlit(""); }
    let fresh = match fresh {
        Some(f) => f,
        None => return WritePlan::Reject(concat3("component changed or disappeared: ", name, "")),
    };
    let ranges = match collect_changed_ranges(registry, t, source, candidate) {
        Ok(ranges) => ranges,
        Err(e) => return WritePlan::Fail(e),
    };
    if ranges.len() == 0 {
        return WritePlan::Unchanged;
    }
    proof {
        changed_ranges_within_component(registry@, t as int, 0, source@, candidate@, Seq::empty(), registry@.len());
        assert forall|k: int| 0 <= k < ranges@.len() implies crate::ecs::range_within(#[trigger] ranges@[k], fresh@.len()) by {
            assert(ranges@[k].0 < ranges@[k].1 && ranges@[k].1 <= source@.len());
        }
    }
    WritePlan::Write(merge_ranges(&fresh, candidate, &ranges))
}

/// A component the mod read and handed back unchanged is never written.
pub proof fn unchanged_copy_is_not_written(registry: Seq<LayoutType>, t: int, source: Seq<u8>)
    ensures
        changed_ranges_spec(registry, t, source, source) matches Ok(ranges) ==> ranges.len() == 0,
{
    unchanged_component_needs_no_write(registry, t, 0, source, Seq::empty(), registry.len());
}

/// The outcome of a write that the provider performed (`true`) or refused.
pub fn write_outcome(name: &str, written: bool) -> (r: (bool, Option<String>))
    ensures
        r.0 == written,
        reports(r.1, if written { None } else { Some("component write failed: "@ + name@) }),
{
    proof { reveal_strlit(""); }
    if written {
        (true, None)
    } else {
        (false, Some(concat3("component write failed: ", name, "")))
    }
}

/// The type a live ECS operation names must be a `keen::ecs::` type of the
/// registry: yields its qualified name, or the error raised in the mod's script.
pub fn runtime_type_check(name: &str, found: Option<&str>) -> (r: Result<String, String>)
    ensures
        match found {
            None => r matches Err(m) && m@ == "runtime type not found: "@ + name@,
            Some(q) => if starts_with(q@, "keen::ecs::"@) {
                r matches Ok(s) && s@ == q@
            } else {
                r matches Err(m) && m@ == "runtime ECS operation requires a keen::ecs::* type, got "@ + q@
            },
        },
{
    proof { reveal_strlit(""); }
    match found {
        None => Err(concat3("runtime type not found: ", name, "")),
        Some(q) => {
            if str_starts_with(q, "keen::ecs::") {
                Ok(concat3(q, "", ""))
            } else {
                Err(concat3("runtime ECS operation requires a keen::ecs::* type, got ", q, ""))
            }
        },
    }
}

} // verus!
