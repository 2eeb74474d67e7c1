//! The components that spawned monsters and dropped items are made of.

use crate::characterdata::EntityRarity;
use crate::entity::{EntityHandle, EntityReference, GameEntity, Health};
use crate::pos::{LocalPosition, Position};
use vstd::prelude::*;

verus! {

/// How far a monster sees, and how far it strolls from where it spawned.
pub const MONSTER_RADIUS: u32 = 100;

/// How long a monster rests between two strolls, in milliseconds.
pub const STROLL_INTERVAL: u64 = 1000;

#[derive(Clone, Copy, Debug, PartialEq, Eq, Structural)]
pub struct Monster {
    pub target: Option<EntityHandle>,
    pub rarity: EntityRarity,
}

/// The range within which an entity observes others.
#[derive(Clone, Copy, Debug, PartialEq, Eq, Structural)]
pub struct VisibilityRange {
    pub radius: u32,
}

/// Who caused an entity to spawn. This is attribution, not ownership.
#[derive(Clone, Copy, Debug, PartialEq, Eq, Structural)]
pub struct SpawnedBy {
    pub spawner: EntityHandle,
}

/// The speeds at which an entity moves.
#[derive(Clone, Copy, Debug, PartialEq, Eq, Structural)]
pub struct Agent {
    pub walk_speed: u32,
    pub run_speed: u32,
    pub berserk_speed: u32,
}

/// Wandering at random around `origin`, never further than `radius` from
/// it, with `interval` milliseconds of rest between two strolls.
#[derive(Clone, Copy, Debug, PartialEq, Eq, Structural)]
pub struct RandomStroll {
    pub origin: LocalPosition,
    pub radius: u32,
    pub interval: u64,
}

/// Everything a freshly spawned monster consists of. The store adds an
/// empty synchronization batch when it takes the monster in.
#[derive(Clone, Copy, Debug, PartialEq, Eq, Structural)]
pub struct MonsterBundle {
    pub monster: Monster,
    pub health: Health,
    pub position: Position,
    pub entity: GameEntity,
    pub visibility: VisibilityRange,
    pub spawner: SpawnedBy,
    pub navigation: Agent,
    pub stroll: RandomStroll,
}

/// What lies on the ground.
#[derive(Clone, Copy, Debug, PartialEq, Eq, Structural)]
pub enum Item {
    Equipment { upgrade: u8 },
    Gold(u32),
    Consumable(u16),
}

#[derive(Clone, Copy, Debug, PartialEq, Eq, Structural)]
pub struct ItemDrop {
    pub owner: Option<EntityReference>,
    pub item: Item,
}

/// The time, in milliseconds, after which an entity leaves the world.
#[derive(Clone, Copy, Debug, PartialEq, Eq, Structural)]
pub struct Despawn(pub u64);

/// Everything a freshly dropped item consists of.
#[derive(Clone, Copy, Debug, PartialEq, Eq, Structural)]
pub struct DropBundle {
    pub drop: ItemDrop,
    pub position: Position,
    pub game_entity: GameEntity,
    pub despawn: Despawn,
}

} // verus!
