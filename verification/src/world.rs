//! The pieces of the world that the renderer and the shadowcaster deal in:
//! positions and directions, tiles and the regions made of them, the keys
//! and kinds of entities and items, and the components that hold what a
//! cast has lit or what an entity carries.

pub mod entity;
pub mod inventory;
pub mod light;
pub mod point;
pub mod position;
pub mod region;
pub mod tile;

pub use entity::EntityClassId;
pub use inventory::InventoryComponent;
pub use inventory::Item;
pub use inventory::ItemClassId;
pub use light::LightComponent;
pub use light::LightComponentClassId;
pub use point::Offset;
pub use point::Point;
pub use region::Region;
pub use tile::Tile;
pub use tile::TileClassId;

use vstd::prelude::*;

verus! {

/// The key of an entity in the world's store, as the store's own number.
#[derive(Clone, Copy, Debug, PartialEq, Eq, Structural)]
pub struct EntityKey {
    pub id: u64,
}

/// The key of an item in the world's store, as the store's own number.
#[derive(Clone, Copy, Debug, PartialEq, Eq, Structural)]
pub struct ItemKey {
    pub id: u64,
}

/// Why the world refused to put an entity where it was asked to.
#[derive(Clone, Copy, Debug, PartialEq, Eq, Structural)]
pub enum Error {
    /// The tile is off the region, is of a kind that blocks, or holds an
    /// entity already.
    TileBlocks,
}

/// The side on which one region borders another.
#[derive(Clone, Copy, Debug, PartialEq, Eq, Structural)]
pub enum Direction {
    North,
    South,
    East,
    West,
}

impl Direction {
    /// The direction that leads back.
    pub open spec fn opposite(self) -> Direction {
        match self {
            Direction::North => Direction::South,
            Direction::South => Direction::North,
            Direction::East => Direction::West,
            Direction::West => Direction::East,
        }
    }
}

impl core::ops::Neg for Direction {
    type Output = Direction;

    fn neg(self) -> (back: Direction) {
        match self {
            Direction::North => Direction::South,
            Direction::South => Direction::North,
            Direction::East => Direction::West,
            Direction::West => Direction::East,
        }
    }
}

impl vstd::std_specs::ops::NegSpecImpl for Direction {
    open spec fn obeys_neg_spec() -> bool {
        true
    }

    open spec fn neg_req(self) -> bool {
        true
    }

    open spec fn neg_spec(self) -> Direction {
        self.opposite()
    }
}

/// Turning round twice leads on.
pub proof fn lemma_opposite_twice(direction: Direction)
    ensures
        direction.opposite().opposite() == direction,
        direction.opposite() != direction,
{
}

} // verus!
