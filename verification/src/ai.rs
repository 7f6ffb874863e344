//! What an entity can decide to do in a turn, and whom a snake attacks.

use crate::world::point::Point;
use crate::world::region::Region;
use crate::world::region::HEIGHT;
use crate::world::region::WIDTH;
use crate::world::tile::Tile;
use crate::world::EntityKey;
use vstd::prelude::*;

verus! {

/// The decision of an entity for one action.
#[derive(Clone, Copy, Debug, PartialEq, Eq, Structural)]
pub enum Action {
    /// Do nothing.
    Nope,
    /// Step by the given offset.
    Move(i32, i32),
    /// Attack the given entity.
    Attack(EntityKey),
}

/// The mind of what has none: it never does anything.
pub fn null_ai() -> (action: Action)
    ensures
        action == Action::Nope,
{
    Action::Nope
}

/// The place that a snake at `pos` looks at in its turn of number `turn`,
/// from zero to eight: the tiles around it and its own, column by column
/// from the west, every column from the south.
pub open spec fn looked_at(pos: Point, turn: int) -> (int, int) {
    (pos.x + turn / 3 - 1, pos.y + turn % 3 - 1)
}

/// The entity that a snake at `pos` finds to attack in the turn of number
/// `turn`: the one on the tile it looks at, unless that tile is off the low
/// edges of the region or in the snake's own column.
pub open spec fn prey_at(tiles: Seq<Tile>, pos: Point, turn: int) -> Option<EntityKey> {
    let place = looked_at(pos, turn);
    if place.0 >= 0 && place.1 >= 0 && turn / 3 != 1 {
        tiles[place.1 * WIDTH + place.0].held_entity
    } else {
        None
    }
}

/// The entity that a snake at `snake_pos` attacks, if any: the first that
/// it finds as it looks around. A snake does not look off the high edges of
/// the region, so it must not stand on them.
pub fn snake_prey(snake_pos: Point, region: &Region) -> (prey: Option<EntityKey>)
    requires
        snake_pos.x + 1 < WIDTH,
        snake_pos.y + 1 < HEIGHT,
    ensures
        match prey {
            Some(key) => exists|turn: int|
                0 <= turn < 9 && #[trigger] prey_at(region@, snake_pos, turn) == Some(key)
                    && forall|earlier: int|
                    0 <= earlier < turn ==> #[trigger] prey_at(region@, snake_pos, earlier)
                        is None,
            None => forall|turn: int|
                0 <= turn < 9 ==> #[trigger] prey_at(region@, snake_pos, turn) is None,
        },
{
    let mut turn: u8 = 0;
    while turn < 9
        invariant
            turn <= 9,
            snake_pos.x + 1 < WIDTH,
            snake_pos.y + 1 < HEIGHT,
            forall|earlier: int|
                0 <= earlier < turn ==> #[trigger] prey_at(region@, snake_pos, earlier) is None,
        decreases 9 - turn,
    {
        let dx: i32 = (turn / 3) as i32 - 1;
        let dy: i32 = (turn % 3) as i32 - 1;
        let x: i32 = snake_pos.x as i32 + dx;
        let y: i32 = snake_pos.y as i32 + dy;
        if x >= 0 && y >= 0 {
            let tile = region.index(Point { x: x as u16, y: y as u16 });
            if dx != 0 {
                match tile.held_entity {
                    Some(key) => {
                        assert(prey_at(region@, snake_pos, turn as int) == Some(key));
                        return Some(key);
                    },
                    None => {},
                }
            }
        }
        turn = turn + 1;
    }
    None
}

} // verus!
