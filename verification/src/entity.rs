//! Identity and vital statistics shared by every kind of entity.

use vstd::prelude::*;

verus! {

/// The store's own handle of an entity. It is opaque to the simulation
/// logic, which only compares handles and hands them on.
#[derive(Clone, Copy, Debug, PartialEq, Eq, Hash, Structural)]
pub struct EntityHandle(pub u64);

/// The identity that clients see.
///
/// `unique_id` names one live instance and comes from the identifier pool;
/// `ref_id` names the static template the instance was made from.
#[derive(Clone, Copy, Debug, PartialEq, Eq, Hash, Structural)]
pub struct GameEntity {
    pub unique_id: u32,
    pub ref_id: u32,
}

/// A store handle together with the wire identity of the same entity.
#[derive(Clone, Copy, Debug, PartialEq, Eq, Hash, Structural)]
pub struct EntityReference(pub EntityHandle, pub GameEntity);

/// Hit points of an entity.
#[derive(Clone, Copy, Debug, PartialEq, Eq, Structural)]
pub struct Health {
    pub current_health: usize,
    pub max_health: usize,
}

impl Health {
    /// A full health bar of the given size.
    pub fn new(max_health: usize) -> (health: Health)
        ensures
            health.max_health == max_health,
            health.current_health == max_health,
    {
        Health { current_health: max_health, max_health }
    }
}

} // verus!
