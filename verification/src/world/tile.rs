//! The tiles that a region is made of.

use crate::color::Color;
use crate::shadow::Occluder;
use crate::world::EntityKey;
use vstd::prelude::*;

verus! {

/// The kinds of tiles.
#[derive(Clone, Copy, Debug, PartialEq, Eq, Structural)]
pub enum TileClassId {
    Ground,
    CaveWall,
    Water,
}

/// What all tiles of a kind have in common.
#[derive(Clone, Copy, Debug)]
pub struct TileClass {
    pub token: &'static str,
    pub color: Color,
    pub blocks: bool,
}

impl TileClassId {
    /// The glyph that stands for tiles of this kind.
    pub open spec fn token(self) -> Seq<char> {
        match self {
            TileClassId::Ground => "."@,
            TileClassId::CaveWall => "#"@,
            TileClassId::Water => "~"@,
        }
    }

    /// The color of tiles of this kind.
    pub open spec fn color(self) -> Color {
        match self {
            TileClassId::Ground => Color::from_hex(0x222222),
            TileClassId::CaveWall => Color::from_hex(0x222222),
            TileClassId::Water => Color::from_hex(0x2244aa),
        }
    }

    /// Whether tiles of this kind block the way and the view.
    pub open spec fn blocks(self) -> bool {
        self == TileClassId::CaveWall
    }

    /// What tiles of this kind have in common.
    pub fn flyweight(&self) -> (class: TileClass)
        ensures
            class.token@ == self.token(),
            class.color == self.color(),
            class.blocks == self.blocks(),
    {
        match self {
            TileClassId::Ground => TileClass {
                token: ".",
                color: Color::new(0x222222),
                blocks: false,
            },
            TileClassId::CaveWall => TileClass {
                token: "#",
                color: Color::new(0x222222),
                blocks: true,
            },
            TileClassId::Water => TileClass {
                token: "~",
                color: Color::new(0x2244aa),
                blocks: false,
            },
        }
    }
}

/// A tile: its kind, the entity that stands on it, the light that falls on
/// it, and what was last seen of it.
#[derive(Clone, Copy, Debug)]
pub struct Tile {
    pub class: TileClassId,
    pub held_entity: Option<EntityKey>,
    pub held_entity_occludes: bool,
    pub lighting: Color,
    pub seen_token: &'static str,
    pub seen_color: Color,
}

impl Tile {
    /// Whether the tile is as new: empty, dark and unseen.
    pub open spec fn is_new(self, class: TileClassId) -> bool {
        &&& self.class == class
        &&& self.held_entity is None
        &&& !self.held_entity_occludes
        &&& self.lighting == (Color { r: 0, g: 0, b: 0 })
        &&& self.seen_token@ == " "@
        &&& self.seen_color == (Color { r: 0, g: 0, b: 0 })
    }

    /// Whether nothing can step on the tile: it is of a kind that blocks,
    /// or an entity stands on it.
    pub open spec fn is_blocked(self) -> bool {
        self.class.blocks() || self.held_entity is Some
    }

    /// Whether the tile lets neither sight nor light through: it is of a
    /// kind that blocks, or an entity that occludes stands on it.
    pub open spec fn is_opaque(self) -> bool {
        self.class.blocks() || self.held_entity_occludes
    }

    /// A new tile of a kind.
    pub fn new(class: TileClassId) -> (tile: Tile)
        ensures
            tile.is_new(class),
    {
        Tile {
            class,
            held_entity: None,
            held_entity_occludes: false,
            lighting: Color::black(),
            seen_token: " ",
            seen_color: Color::black(),
        }
    }

    pub fn token(&self) -> (token: &'static str)
        ensures
            token@ == self.class.token(),
    {
        self.class.flyweight().token
    }

    pub fn color(&self) -> (color: Color)
        ensures
            color == self.class.color(),
    {
        self.class.flyweight().color
    }

    pub fn blocks(&self) -> (blocked: bool)
        ensures
            blocked == self.is_blocked(),
    {
        self.class.flyweight().blocks || self.held_entity.is_some()
    }
}

impl Default for Tile {
    fn default() -> (tile: Tile)
        ensures
            tile.is_new(TileClassId::Ground),
    {
        Tile::new(TileClassId::Ground)
    }
}

impl Occluder for Tile {
    open spec fn opaque(&self) -> bool {
        self.is_opaque()
    }

    fn occludes(&self) -> (blocked: bool) {
        self.class.flyweight().blocks || self.held_entity_occludes
    }
}

} // verus!
