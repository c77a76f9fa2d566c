//! The native runtime provider as seen from a platform that cannot load it: the
//! provider library exists only for the Windows game, so here no live ECS world is
//! ever reachable and every operation reports that.
use vstd::prelude::*;

verus! {

/// A live component as the provider describes it.
#[derive(Clone, Copy, Debug)]
pub struct Component {
    pub size: u32,
}

/// Hands the component contract (names and sizes) to the provider; refused here.
pub fn configure(types: &Vec<(String, u32)>) -> (r: bool)
    ensures
        !r,
{
    false
}

/// Whether the provider sees the live ECS world.
pub fn ready() -> (r: bool)
    ensures
        !r,
{
    false
}

/// Whether the provider has a writable component context.
pub fn can_write() -> (r: bool)
    ensures
        !r,
{
    false
}

/// The live layout of a named component.
pub fn resolve(name: &str) -> (r: Option<Component>)
    ensures
        r is None,
{
    None
}

/// The entities that carry all the named components.
pub fn query(components: &Vec<String>) -> (r: Option<Vec<u32>>)
    ensures
        r is None,
{
    None
}

/// The bytes of a component of an entity.
pub fn read(entity: u32, name: &str, size: u32) -> (r: Option<Vec<u8>>)
    ensures
        r is None,
{
    None
}

/// The live handle of an entity id.
pub fn resolve_entity(entity_id: u32) -> (r: Option<u32>)
    ensures
        r is None,
{
    None
}

/// Writes `bytes` over a component that still holds `expected`.
pub fn write(entity: u32, name: &str, expected: &Vec<u8>, bytes: &Vec<u8>) -> (r: bool)
    ensures
        !r,
{
    false
}

} // verus!
