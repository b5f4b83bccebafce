//! Collision roles of game entities.
use vstd::prelude::*;
use crate::level::TileType;

verus! {

/// How an entity takes part in collision.
#[derive(Clone, Copy, PartialEq, Eq, Structural, Debug)]
pub enum CollisionType {
    /// Blocks movement.
    Solid,
    /// Lets the player through and reacts to being entered.
    Trigger,
    /// Lets the player through and is collected on contact.
    Evidence,
}

impl TileType {
    /// The collision role of a tile, if it has one: platforms and walls are
    /// solid, evidence is collected, empty tiles take no part.
    pub fn collision_type(&self) -> (r: Option<CollisionType>)
        ensures
            r == (if crate::level::is_solid(*self) {
                Some(CollisionType::Solid)
            } else if *self == TileType::Evidence {
                Some(CollisionType::Evidence)
            } else {
                None
            }),
    {
        match self {
            TileType::Platform => Some(CollisionType::Solid),
            TileType::Wall => Some(CollisionType::Solid),
            TileType::Evidence => Some(CollisionType::Evidence),
            TileType::Empty => None,
        }
    }
}

} // verus!
