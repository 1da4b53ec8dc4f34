//! The kinds of creatures of the world and how the map draws each.

use vstd::prelude::*;

verus! {

/// The kinds of creatures (their behaviours without their state).
#[derive(Debug, Clone, Copy, PartialEq, Eq, Structural)]
pub enum EntityKind {
    RandomWalker,
    Stalker,
    Swarmer,
    Sentinel,
    WeepingBlock,
    Ranger,
    Tadpole,
}

/// The map shape of a kind: 0 circle, 1 triangle, 2 square, 3 diamond,
/// 5 small circle, 6 tadpole.
pub open spec fn shape_id_spec(k: EntityKind) -> u8 {
    match k {
        EntityKind::RandomWalker => 0,
        EntityKind::Stalker => 1,
        EntityKind::Swarmer => 5,
        EntityKind::Sentinel => 2,
        EntityKind::WeepingBlock => 2,
        EntityKind::Ranger => 3,
        EntityKind::Tadpole => 6,
    }
}

impl EntityKind {
    /// The shape the map draws this kind with (see `shape_id_spec`).
    pub fn shape_id(&self) -> (s: u8)
        ensures
            s == shape_id_spec(*self),
    {
        match self {
            EntityKind::RandomWalker => 0,
            EntityKind::Stalker => 1,
            EntityKind::Swarmer => 5,
            EntityKind::Sentinel => 2,
            EntityKind::WeepingBlock => 2,
            EntityKind::Ranger => 3,
            EntityKind::Tadpole => 6,
        }
    }
}

} // verus!
