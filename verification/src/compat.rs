//! The boundary between parser output and the public API: which runtime operations
//! have been verified for the installed game build.
//!
//! The operation table behaves as a map from operation name to availability: a later
//! entry for a name replaces an earlier one.
use vstd::prelude::*;
use crate::schema::{GameSchema, last_type_named};
use crate::text::{str_equal, concat5};

verus! {

/// Whether an operation may be used, and why not.
#[derive(Debug, Clone, PartialEq, Eq)]
pub enum Availability {
    Available,
    Unavailable { reason: String },
}

impl Availability {
    /// The reason an operation is unavailable, or `None` when it is available.
    pub open spec fn reason_view(self) -> Option<Seq<char>> {
        match self {
            Availability::Available => None,
            Availability::Unavailable { reason } => Some(reason@),
        }
    }

    /// A copy of this availability.
    pub fn duplicate(&self) -> (r: Availability)
        ensures
            r.reason_view() == self.reason_view(),
    {
        match self {
            Availability::Available => Availability::Available,
            Availability::Unavailable { reason } => Availability::Unavailable { reason: reason.clone() },
        }
    }
}

/// The map that an operation table stands for: each name to the reason it is
/// unavailable (`None`: available), the last entry for a name winning.
pub open spec fn table_view(entries: Seq<(String, Availability)>) -> Map<Seq<char>, Option<Seq<char>>>
    decreases entries.len(),
{
    if entries.len() == 0 {
        Map::empty()
    } else {
        table_view(entries.drop_last()).insert(entries.last().0@, entries.last().1.reason_view())
    }
}

proof fn lemma_table_suffix(entries: Seq<(String, Availability)>, i: int, key: Seq<char>)
    requires
        0 <= i <= entries.len(),
        forall|j: int| i <= j < entries.len() ==> #[trigger] entries[j].0@ != key,
    ensures
        table_view(entries).dom().contains(key) == table_view(entries.take(i)).dom().contains(key),
        table_view(entries).dom().contains(key) ==> table_view(entries)[key] == table_view(entries.take(i))[key],
    decreases entries.len() - i,
{
    if i < entries.len() {
        let shorter = entries.drop_last();
        assert forall|j: int| i <= j < shorter.len() implies #[trigger] shorter[j].0@ != key by {
            assert(shorter[j] == entries[j]);
        }
        lemma_table_suffix(shorter, i, key);
        assert(shorter.take(i) =~= entries.take(i));
        assert(entries[entries.len() - 1].0@ != key);
    } else {
        assert(entries.take(i) =~= entries);
    }
}

/// Looks `key` up in an operation table.
fn table_get(entries: &Vec<(String, Availability)>, key: &str) -> (r: Option<Availability>)
    ensures
        match r {
            Some(a) => table_view(entries@).dom().contains(key@) && table_view(entries@)[key@] == a.reason_view(),
            None => !table_view(entries@).dom().contains(key@),
        },
{
    let mut i = entries.len();
    while i > 0
        invariant
            i <= entries@.len(),
            forall|j: int| i <= j < entries@.len() ==> #[trigger] entries@[j].0@ != key@,
        decreases i,
    {
        if str_equal(entries[i - 1].0.as_str(), key) {
            proof {
                lemma_table_suffix(entries@, i as int, key@);
                let t = entries@.take(i as int);
                assert(t.drop_last() =~= entries@.take(i - 1));
            }
            return Some(entries[i - 1].1.duplicate());
        }
        i = i - 1;
    }
    proof {
        lemma_table_suffix(entries@, 0, key@);
        assert(entries@.take(0) =~= Seq::<(String, Availability)>::empty());
    }
    None
}

/// The verified-operation profile of the installed runtime, before a game schema is
/// known.
#[derive(Debug)]
pub struct Compatibility {
    pub runtime: Vec<(String, Availability)>,
}

/// The four operations on the live ECS world.
pub open spec fn is_ecs_operation(name: Seq<char>) -> bool {
    name == "runtime.ecs.query"@ || name == "runtime.ecs.resolve"@ || name == "runtime.ecs.read"@
        || name == "runtime.ecs.write"@
}

/// The schema carries the type that anchors the live runtime: a sized struct
/// `keen::ecs::CurrentTransform`.
pub open spec fn runtime_schema_valid(schema: GameSchema) -> bool {
    let i = last_type_named(schema.types@, "keen::ecs::CurrentTransform"@);
    i >= 0 && schema.types@[i].size > 0 && schema.types@[i].primitive@ == "Struct"@
}

pub open spec fn invalid_schema_reason() -> Seq<char> {
    "required game type keen::ecs::CurrentTransform is absent or invalid"@
}

impl Compatibility {
    pub open spec fn view(&self) -> Map<Seq<char>, Option<Seq<char>>> {
        table_view(self.runtime@)
    }

    /// The profile in which exactly the listed operations are available.
    pub fn new(verified_operations: Vec<String>) -> (r: Compatibility)
        ensures
            forall|name: Seq<char>| #[trigger] r.view().dom().contains(name)
                <==> exists|i: int| 0 <= i < verified_operations@.len() && verified_operations@[i]@ == name,
            forall|name: Seq<char>| #[trigger] r.view().dom().contains(name) ==> r.view()[name] is None,
    {
        let mut runtime: Vec<(String, Availability)> = Vec::new();
        let mut k: usize = 0;
        while k < verified_operations.len()
            invariant
                k <= verified_operations@.len(),
                runtime@.len() == k,
                forall|j: int| 0 <= j < k ==> #[trigger] runtime@[j].0@ == verified_operations@[j]@
                    && runtime@[j].1 == Availability::Available,
                forall|name: Seq<char>| #[trigger] table_view(runtime@).dom().contains(name)
                    <==> exists|i: int| 0 <= i < k && verified_operations@[i]@ == name,
                forall|name: Seq<char>| #[trigger] table_view(runtime@).dom().contains(name) ==> table_view(runtime@)[name] is None,
            decreases verified_operations.len() - k,
        {
            let ghost before = runtime@;
            let name = verified_operations[k].clone();
            runtime.push((name, Availability::Available));
            assert(runtime@.drop_last() =~= before);
            assert(table_view(runtime@) == table_view(before).insert(verified_operations@[k as int]@, None::<Seq<char>>));
            assert forall|name: Seq<char>| #[trigger] table_view(runtime@).dom().contains(name)
                <==> exists|i: int| 0 <= i < k + 1 && verified_operations@[i]@ == name by {
                if table_view(runtime@).dom().contains(name) && name != verified_operations@[k as int]@ {
                    assert(table_view(before).dom().contains(name));
                }
                if exists|i: int| 0 <= i < k + 1 && verified_operations@[i]@ == name {
                    if name != verified_operations@[k as int]@ {
                        let i = choose|i: int| 0 <= i < k + 1 && verified_operations@[i]@ == name;
                        assert(0 <= i < k && verified_operations@[i]@ == name);
                    }
                }
            }
            k = k + 1;
        }
        Compatibility { runtime }
    }

    /// The profile with `operation` marked unavailable for `reason`.
    pub fn unavailable(self, operation: String, reason: String) -> (r: Compatibility)
        ensures
            r.view() == self.view().insert(operation@, Some(reason@)),
    {
        let mut runtime = self.runtime;
        let ghost before = runtime@;
        runtime.push((operation, Availability::Unavailable { reason }));
        assert(runtime@.drop_last() =~= before);
        Compatibility { runtime }
    }

    /// Binds the profile to a parsed schema. Without a valid runtime anchor type the
    /// live ECS operations are made unavailable; every other operation keeps its
    /// entry.
    pub fn resolve(self, schema: GameSchema) -> (r: GameContract)
        ensures
            r.schema == schema,
            forall|name: Seq<char>| !is_ecs_operation(name) ==>
                (#[trigger] r.view().dom().contains(name) == self.view().dom().contains(name)
                && (self.view().dom().contains(name) ==> r.view()[name] == self.view()[name])),
            runtime_schema_valid(schema) ==> r.view() == self.view(),
            !runtime_schema_valid(schema) ==> forall|name: Seq<char>| is_ecs_operation(name) ==>
                #[trigger] r.view().dom().contains(name) && r.view()[name] == Some(invalid_schema_reason()),
    {
        let anchor = schema.type_position("keen::ecs::CurrentTransform");
        let valid = match anchor {
            Some(i) => schema.types[i].size > 0 && str_equal(schema.types[i].primitive.as_str(), "Struct"),
            None => false,
        };
        let mut runtime = self.runtime;
        if !valid {
            let ghost start = runtime@;
            runtime.push((String::from_str("runtime.ecs.query"), Availability::Unavailable { reason: String::from_str("required game type keen::ecs::CurrentTransform is absent or invalid") }));
            runtime.push((String::from_str("runtime.ecs.resolve"), Availability::Unavailable { reason: String::from_str("required game type keen::ecs::CurrentTransform is absent or invalid") }));
            runtime.push((String::from_str("runtime.ecs.read"), Availability::Unavailable { reason: String::from_str("required game type keen::ecs::CurrentTransform is absent or invalid") }));
            runtime.push((String::from_str("runtime.ecs.write"), Availability::Unavailable { reason: String::from_str("required game type keen::ecs::CurrentTransform is absent or invalid") }));
            proof {
                let reason = invalid_schema_reason();
                let s1 = start.push(runtime@[start.len() as int]);
                let s2 = s1.push(runtime@[start.len() as int + 1]);
                let s3 = s2.push(runtime@[start.len() as int + 2]);
                assert(runtime@.drop_last() =~= s3);
                assert(s3.drop_last() =~= s2);
                assert(s2.drop_last() =~= s1);
                assert(s1.drop_last() =~= start);
                assert(table_view(s1) == table_view(start).insert("runtime.ecs.query"@, Some(reason)));
                assert(table_view(s2) == table_view(s1).insert("runtime.ecs.resolve"@, Some(reason)));
                assert(table_view(s3) == table_view(s2).insert("runtime.ecs.read"@, Some(reason)));
                assert(table_view(runtime@) == table_view(s3).insert("runtime.ecs.write"@, Some(reason)));
            }
        }
        GameContract { schema, runtime }
    }
}

/// A parsed schema with the operations verified for it.
#[derive(Debug)]
pub struct GameContract {
    pub schema: GameSchema,
    pub runtime: Vec<(String, Availability)>,
}

/// The reason given for an operation that the contract does not list.
pub open spec fn unverified_reason(operation: Seq<char>, game_version: Seq<char>) -> Seq<char> {
    "operation "@ + operation + " has not been verified for game build "@ + game_version
}

impl GameContract {
    pub open spec fn view(&self) -> Map<Seq<char>, Option<Seq<char>>> {
        table_view(self.runtime@)
    }

    /// The reason `operation` is unavailable under this contract, or `None` when it
    /// is available.
    pub open spec fn runtime_spec(&self, operation: Seq<char>) -> Option<Seq<char>> {
        if self.view().dom().contains(operation) {
            self.view()[operation]
        } else {
            Some(unverified_reason(operation, self.schema.game_version@))
        }
    }

    /// The schema of the contract.
    pub fn schema(&self) -> (r: &GameSchema)
        ensures
            *r == self.schema,
    {
        &self.schema
    }

    /// Whether `operation` may be used, and why not.
    pub fn runtime(&self, operation: &str) -> (r: Availability)
        ensures
            r.reason_view() == self.runtime_spec(operation@),
    {
        match table_get(&self.runtime, operation) {
            Some(availability) => availability,
            None => {
                let reason = concat5("operation ", operation, " has not been verified for game build ",
                    self.schema.game_version.as_str(), "");
                proof {
                    reveal_strlit("");
                    assert(reason@ =~= unverified_reason(operation@, self.schema.game_version@));
                }
                Availability::Unavailable { reason }
            },
        }
    }

    /// Whether `operation` is available.
    pub fn has_runtime(&self, operation: &str) -> (r: bool)
        ensures
            r == (self.runtime_spec(operation@) is None),
    {
        match self.runtime(operation) {
            Availability::Available => true,
            Availability::Unavailable { .. } => false,
        }
    }
}

/// An operation that no profile entry lists is unavailable, whatever the schema.
pub proof fn unknown_operation_unavailable(contract: GameContract, operation: Seq<char>)
    requires
        !contract.view().dom().contains(operation),
    ensures
        contract.runtime_spec(operation) == Some(unverified_reason(operation, contract.schema.game_version@)),
{
}

} // verus!
