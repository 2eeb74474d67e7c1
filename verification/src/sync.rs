//! The per-entity batch of outgoing synchronization diffs.

use crate::pos::{Heading, LocalPosition};
use vstd::prelude::*;

verus! {

/// A pending movement diff.
#[derive(Clone, Copy, Debug, PartialEq, Eq, Structural)]
pub enum MovementUpdate {
    StartMove(LocalPosition, LocalPosition),
    StartMoveTowards(LocalPosition, Heading),
    StopMove(LocalPosition, Heading),
    Turn(Heading),
}

/// One hit taken by the entity during the tick.
#[derive(Clone, Copy, Debug, PartialEq, Eq, Structural)]
pub struct DamageReceived {
    pub amount: u32,
    pub crit: bool,
}

/// A body-state flag that observers have to be told about.
#[derive(Clone, Copy, Debug, PartialEq, Eq, Structural)]
pub enum BodyState {
    Normal,
    Berserk,
    Untouchable,
    GMInvincible,
    GMInvisible,
    Stealth,
    Invisible,
}

/// A state change queued for the next flush.
#[derive(Clone, Copy, Debug, PartialEq, Eq, Structural)]
pub enum UpdatedState {
    Body(BodyState),
}

/// Everything about one entity that changed during the tick and has not
/// been flushed to its observers yet.
#[derive(Debug, PartialEq, Eq)]
pub struct Synchronize {
    pub movement: Option<MovementUpdate>,
    pub damage: Vec<DamageReceived>,
    pub despawned: Vec<u32>,
    pub state: Vec<UpdatedState>,
}

/// The mathematical content of a [`Synchronize`].
pub struct SynchronizeView {
    pub movement: Option<MovementUpdate>,
    pub damage: Seq<DamageReceived>,
    pub despawned: Seq<u32>,
    pub state: Seq<UpdatedState>,
}

impl SynchronizeView {
    /// The batch with nothing in it.
    pub open spec fn empty() -> SynchronizeView {
        SynchronizeView {
            movement: None,
            damage: Seq::empty(),
            despawned: Seq::empty(),
            state: Seq::empty(),
        }
    }

    /// No diff of any kind is pending.
    pub open spec fn is_empty(self) -> bool {
        &&& self.movement is None
        &&& self.damage.len() == 0
        &&& self.despawned.len() == 0
        &&& self.state.len() == 0
    }
}

impl View for Synchronize {
    type V = SynchronizeView;

    open spec fn view(&self) -> SynchronizeView {
        SynchronizeView {
            movement: self.movement,
            damage: self.damage@,
            despawned: self.despawned@,
            state: self.state@,
        }
    }
}

impl Default for Synchronize {
    fn default() -> (batch: Synchronize)
        ensures
            batch@ == SynchronizeView::empty(),
    {
        Synchronize { movement: None, damage: Vec::new(), despawned: Vec::new(), state: Vec::new() }
    }
}

impl Synchronize {
    /// Drops every pending diff. The flush stage calls this once per tick,
    /// after it has read the batch.
    pub fn clear(&mut self)
        ensures
            final(self)@ == SynchronizeView::empty(),
    {
        self.movement = None;
        self.damage.clear();
        self.despawned.clear();
        self.state.clear();
    }

    /// Queues a body-state flag for the next flush, behind what is already
    /// pending. Movement, damage and despawns are left as they are.
    pub fn push_state(&mut self, update: UpdatedState)
        ensures
            final(self)@ == (SynchronizeView { state: old(self)@.state.push(update), ..old(self)@ }),
    {
        self.state.push(update);
    }
}

} // verus!
