//! A region: eighty by forty tiles.

pub mod cave;

use crate::color::Color;
use crate::generate::drawn_until_empty;
use crate::generate::random_empty_tile;
use crate::shadow::GridMap;
use crate::world::point::Offset;
use crate::world::point::Point;
use crate::world::EntityKey;
use crate::world::Error;
use crate::world::tile::Tile;
use crate::world::tile::TileClassId;
use vstd::prelude::*;

verus! {

/// The number of tiles in a row of a region.
pub const WIDTH: u16 = 80;

/// The number of rows of a region.
pub const HEIGHT: u16 = 40;

/// The number of tiles of a region.
pub const TILES: usize = 3200;

/// Whether a point lies on a region.
pub open spec fn holds(pos: Point) -> bool {
    pos.x < WIDTH && pos.y < HEIGHT
}

/// The place of the tile at a point in the row-major store of a region.
pub open spec fn index_of(pos: Point) -> int {
    pos.y * WIDTH + pos.x
}

pub fn in_bounds(pos: Point) -> (inside: bool)
    ensures
        inside == holds(pos),
{
    pos.x < WIDTH && pos.y < HEIGHT
}

/// The place of a tile in the row-major store of a region.
pub fn tile_index(pos: Point) -> (index: usize)
    requires
        holds(pos),
    ensures
        index == index_of(pos),
        index < TILES,
{
    pos.y as usize * 80 + pos.x as usize
}

/// The tiles after an entity was put on the tile at `pos`.
pub open spec fn held(tiles: Seq<Tile>, pos: Point, key: EntityKey, occludes: bool) -> Seq<Tile> {
    tiles.update(
        index_of(pos),
        Tile { held_entity: Some(key), held_entity_occludes: occludes, ..tiles[index_of(pos)] },
    )
}

/// The tiles after the entity on the tile at `pos` was taken off it.
pub open spec fn vacated(tiles: Seq<Tile>, pos: Point) -> Seq<Tile> {
    tiles.update(
        index_of(pos),
        Tile { held_entity: None, held_entity_occludes: false, ..tiles[index_of(pos)] },
    )
}

/// The tiles after the tile at `pos` was told which entity it holds, if
/// any, and nothing else.
pub open spec fn holding(tiles: Seq<Tile>, pos: Point, entity: Option<EntityKey>) -> Seq<Tile> {
    tiles.update(index_of(pos), Tile { held_entity: entity, ..tiles[index_of(pos)] })
}

/// The tiles after an entity came in by the tile at `entry` and was put at
/// `place`, or found no place.
pub open spec fn received(tiles: Seq<Tile>, entry: Point, key: EntityKey, place: Option<Point>) -> Seq<
    Tile,
> {
    match place {
        Some(pos) => holding(holding(tiles, entry, None), pos, Some(key)),
        None => holding(tiles, entry, None),
    }
}

/// The tiles of a region.
#[derive(Debug)]
pub struct Region {
    tiles: Vec<Tile>,
}

impl View for Region {
    type V = Seq<Tile>;

    closed spec fn view(&self) -> Seq<Tile> {
        self.tiles@
    }
}

impl Clone for Region {
    fn clone(&self) -> (copy: Region)
        ensures
            copy@ == self@,
            copy@.len() == TILES,
    {
        proof {
            use_type_invariant(self);
        }
        let tiles = self.tiles.clone();
        assert(tiles@ =~= self.tiles@);
        Region { tiles }
    }
}

impl Region {
    #[verifier::type_invariant]
    spec fn inv(self) -> bool {
        self.tiles@.len() == TILES
    }

    /// The tile at a point.
    pub open spec fn at(self, pos: Point) -> Tile
        recommends
            holds(pos),
    {
        self@[index_of(pos)]
    }

    /// A region of new ground.
    pub fn new() -> (region: Region)
        ensures
            region@.len() == TILES,
            forall|i: int| 0 <= i < TILES ==> (#[trigger] region@[i]).is_new(TileClassId::Ground),
    {
        let mut tiles: Vec<Tile> = Vec::with_capacity(TILES);
        while tiles.len() < TILES
            invariant
                tiles@.len() <= TILES,
                forall|i: int|
                    0 <= i < tiles@.len() ==> (#[trigger] tiles@[i]).is_new(TileClassId::Ground),
            decreases TILES - tiles@.len(),
        {
            tiles.push(Tile::default());
        }
        Region { tiles }
    }

    pub fn in_bounds(pos: Point) -> (inside: bool)
        ensures
            inside == holds(pos),
    {
        pos.x < WIDTH && pos.y < HEIGHT
    }

    /// Puts out every light: no tile keeps the light that fell on it.
    pub fn clear_light_info(&mut self)
        ensures
            final(self)@.len() == TILES,
            forall|i: int|
                0 <= i < TILES ==> #[trigger] final(self)@[i] == (Tile {
                    lighting: Color { r: 0, g: 0, b: 0 },
                    ..old(self)@[i]
                }),
    {
        proof {
            use_type_invariant(&*self);
        }
        let mut done: usize = 0;
        while done < TILES
            invariant
                done <= TILES,
                self.tiles@.len() == TILES,
                forall|i: int|
                    0 <= i < done ==> #[trigger] self.tiles@[i] == (Tile {
                        lighting: Color { r: 0, g: 0, b: 0 },
                        ..old(self).tiles@[i]
                    }),
                forall|i: int| done <= i < TILES ==> #[trigger] self.tiles@[i] == old(self).tiles@[i],
            decreases TILES - done,
        {
            self.tiles[done].lighting = Color::black();
            done = done + 1;
        }
    }

    /// The tile at a point of the region.
    pub fn index(&self, pos: Point) -> (tile: &Tile)
        requires
            holds(pos),
        ensures
            *tile == self.at(pos),
    {
        proof {
            use_type_invariant(self);
        }
        &self.tiles[tile_index(pos)]
    }

    /// Whether an entity can be put on the tile at a point: the point lies
    /// on the region, and its tile neither blocks nor holds an entity.
    pub open spec fn free(self, pos: Point) -> bool {
        holds(pos) && !self.at(pos).is_blocked()
    }

    pub fn is_free(&self, pos: Point) -> (free: bool)
        ensures
            free == self.free(pos),
    {
        in_bounds(pos) && !self.index(pos).blocks()
    }

    /// Puts an entity on the tile at `pos`, which from then on occludes if
    /// the entity does. Refuses where the tile is not free.
    pub fn add_entity(&mut self, pos: Point, key: EntityKey, occludes: bool) -> (result: Result<
        (),
        Error,
    >)
        ensures
            result is Ok <==> old(self).free(pos),
            final(self)@ == if result is Ok {
                held(old(self)@, pos, key, occludes)
            } else {
                old(self)@
            },
    {
        if !in_bounds(pos) || self.index(pos).blocks() {
            return Err(Error::TileBlocks);
        }
        let tile = self.index_mut(pos);
        tile.held_entity = Some(key);
        tile.held_entity_occludes = occludes;
        Ok(())
    }

    /// Moves the entity that stands at `from` by `offset`, and returns
    /// where it stands then. Refuses, and leaves every tile as it was,
    /// where the tile it would come to is not free; a step of no length is
    /// refused, since the entity's own tile is taken.
    pub fn move_entity(&mut self, from: Point, key: EntityKey, offset: Offset, occludes: bool) -> (result:
        Result<Point, Error>)
        requires
            holds(from),
            old(self).at(from).held_entity == Some(key),
        ensures
            result is Ok <==> old(self).free(from.plus(offset)),
            match result {
                Ok(pos) => pos == from.plus(offset) && final(self)@ == vacated(
                    held(old(self)@, pos, key, occludes),
                    from,
                ),
                Err(_) => final(self)@ == old(self)@,
            },
    {
        let pos = from + offset;
        if !in_bounds(pos) || self.index(pos).blocks() {
            return Err(Error::TileBlocks);
        }
        let tile = self.index_mut(pos);
        tile.held_entity = Some(key);
        tile.held_entity_occludes = occludes;
        let tile = self.index_mut(from);
        tile.held_entity = None;
        tile.held_entity_occludes = false;
        Ok(pos)
    }

    /// Takes the entity off the tile at `pos` as it leaves the region.
    /// Whether the tile occludes is left as it was.
    pub fn remove_entity(&mut self, pos: Point)
        requires
            holds(pos),
        ensures
            final(self)@ == holding(old(self)@, pos, None),
    {
        self.index_mut(pos).held_entity = None;
    }

    /// Takes in an entity that comes in by the tile at `entry`. The entity
    /// does not stay there: whatever stood on that tile is taken off it, and
    /// the entity is put on an empty tile drawn at random. Returns that
    /// tile, or `None` where none was found; the entity is then on no tile.
    pub fn receive_entity(
        &mut self,
        entry: Point,
        key: EntityKey,
        rng: &mut rand::rngs::SmallRng,
    ) -> (place: Option<Point>)
        requires
            holds(entry),
        ensures
            exists|draws: Seq<Point>|
                drawn_until_empty(holding(old(self)@, entry, None), draws, place),
            final(self)@ == received(old(self)@, entry, key, place),
    {
        self.index_mut(entry).held_entity = None;
        let ghost cleared = self@;
        assert(cleared == holding(old(self)@, entry, None));
        let place = random_empty_tile(self, rng);
        assert(exists|draws: Seq<Point>| drawn_until_empty(cleared, draws, place));
        match place {
            Some(pos) => {
                self.index_mut(pos).held_entity = Some(key);
            },
            None => {},
        }
        place
    }

    /// The tile at a point of the region, to be written.
    pub fn index_mut(&mut self, pos: Point) -> (tile: &mut Tile)
        requires
            holds(pos),
        ensures
            *tile == old(self).at(pos),
            final(self)@ == old(self)@.update(index_of(pos), *final(tile)),
            final(self).at(pos) == *final(tile),
            final(self)@.len() == TILES,
    {
        proof {
            use_type_invariant(&*self);
        }
        &mut self.tiles[tile_index(pos)]
    }
}

impl GridMap for Region {
    type Output = Tile;

    open spec fn inside(&self, x: u16, y: u16) -> bool {
        x < WIDTH && y < HEIGHT
    }

    open spec fn occluded(&self, x: u16, y: u16) -> bool {
        x < WIDTH && y < HEIGHT && self.at(Point { x, y }).is_opaque()
    }

    fn in_bounds(&self, x: u16, y: u16) -> (inside: bool) {
        x < WIDTH && y < HEIGHT
    }

    fn index(&self, pos: (u16, u16)) -> (cell: &Tile) {
        Region::index(self, Point { x: pos.0, y: pos.1 })
    }

    fn index_mut(&mut self, pos: (u16, u16)) -> (cell: &mut Tile) {
        proof {
            use_type_invariant(&*self);
            let at = Point { x: pos.0, y: pos.1 };
            assert forall|x: u16, y: u16, tile: Tile|
                (x, y) != pos && x < WIDTH && y < HEIGHT implies #[trigger] self@.update(
                index_of(at),
                tile,
            )[index_of(Point { x, y })] == self@[index_of(Point { x, y })] by {
                lemma_tile_write(self@, at, tile, Point { x, y });
            }
        }
        Region::index_mut(self, Point { x: pos.0, y: pos.1 })
    }
}

/// A write to one tile is read back at its point and nowhere else.
pub proof fn lemma_tile_write(tiles: Seq<Tile>, pos: Point, tile: Tile, other: Point)
    requires
        tiles.len() == TILES,
        holds(pos),
        holds(other),
    ensures
        tiles.update(index_of(pos), tile)[index_of(pos)] == tile,
        other != pos ==> tiles.update(index_of(pos), tile)[index_of(other)] == tiles[index_of(
            other,
        )],
{
}

} // verus!
