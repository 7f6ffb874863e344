//! The rules of the player's commands: which key asks for which step, and
//! when a step leads from one region into the next.

use crate::world::point::Offset;
use crate::world::point::Point;
use crate::world::region::HEIGHT;
use crate::world::region::WIDTH;
use crate::world::Direction;
use vstd::prelude::*;

verus! {

/// The border that a point lies on, if any. A corner belongs to the border
/// that is named first: west, south, east, north.
pub open spec fn border_of(pos: Point) -> Option<Direction> {
    if pos.x == 0 {
        Some(Direction::West)
    } else if pos.y == 0 {
        Some(Direction::South)
    } else if pos.x == WIDTH - 1 {
        Some(Direction::East)
    } else if pos.y == HEIGHT - 1 {
        Some(Direction::North)
    } else {
        None
    }
}

/// The step that leads straight across a border.
pub open spec fn step_across(border: Direction) -> Offset {
    match border {
        Direction::West => Offset { x: -1i32, y: 0 },
        Direction::South => Offset { x: 0, y: -1i32 },
        Direction::East => Offset { x: 1, y: 0 },
        Direction::North => Offset { x: 0, y: 1 },
    }
}

/// Whether a step from `player_pos` leaves the region, and on which side.
/// The player leaves where they stand on a border and step straight across
/// it. The direction is that of the border they stand on; away from every
/// border it is south and means nothing.
pub fn is_player_leaving_region(player_pos: Point, offset: Offset) -> (leaving: (bool, Direction))
    ensures
        leaving.0 == (border_of(player_pos) is Some && offset == step_across(
            border_of(player_pos).unwrap(),
        )),
        leaving.1 == (match border_of(player_pos) {
            Some(border) => border,
            None => Direction::South,
        }),
{
    if player_pos.x == 0 {
        (offset.x == -1 && offset.y == 0, Direction::West)
    } else if player_pos.y == 0 {
        (offset.x == 0 && offset.y == -1, Direction::South)
    } else if player_pos.x == WIDTH - 1 {
        (offset.x == 1 && offset.y == 0, Direction::East)
    } else if player_pos.y == HEIGHT - 1 {
        (offset.x == 0 && offset.y == 1, Direction::North)
    } else {
        (false, Direction::South)
    }
}

/// Where an entity stands after it has crossed into a neighbouring region
/// in the given direction: on the near border of the new region, level
/// with where it left.
pub fn entry_point(pos: Point, direction: Direction) -> (entry: Point)
    ensures
        entry == (match direction {
            Direction::North => Point { x: pos.x, y: 0 },
            Direction::South => Point { x: pos.x, y: (HEIGHT - 1) as u16 },
            Direction::East => Point { x: 0, y: pos.y },
            Direction::West => Point { x: (WIDTH - 1) as u16, y: pos.y },
        }),
{
    match direction {
        Direction::North => Point { x: pos.x, y: 0 },
        Direction::South => Point { x: pos.x, y: HEIGHT - 1 },
        Direction::East => Point { x: 0, y: pos.y },
        Direction::West => Point { x: WIDTH - 1, y: pos.y },
    }
}

/// The step that a key stands for: `h`, `j`, `k` and `l` lead west, south,
/// north and east, and `y`, `u`, `b` and `n` along the diagonals. Any other
/// key stands for none.
pub open spec fn step_of(key: char) -> Option<Offset> {
    if key == 'h' {
        Some(Offset { x: -1i32, y: 0 })
    } else if key == 'j' {
        Some(Offset { x: 0, y: -1i32 })
    } else if key == 'k' {
        Some(Offset { x: 0, y: 1 })
    } else if key == 'l' {
        Some(Offset { x: 1, y: 0 })
    } else if key == 'y' {
        Some(Offset { x: -1i32, y: 1 })
    } else if key == 'u' {
        Some(Offset { x: 1, y: 1 })
    } else if key == 'b' {
        Some(Offset { x: -1i32, y: -1i32 })
    } else if key == 'n' {
        Some(Offset { x: 1, y: -1i32 })
    } else {
        None
    }
}

/// The step that a key asks for, if it asks for one.
pub fn direction_of(key: char) -> (step: Option<Offset>)
    ensures
        step == step_of(key),
{
    match key {
        'h' => Some(Offset { x: -1, y: 0 }),
        'j' => Some(Offset { x: 0, y: -1 }),
        'k' => Some(Offset { x: 0, y: 1 }),
        'l' => Some(Offset { x: 1, y: 0 }),
        'y' => Some(Offset { x: -1, y: 1 }),
        'u' => Some(Offset { x: 1, y: 1 }),
        'b' => Some(Offset { x: -1, y: -1 }),
        'n' => Some(Offset { x: 1, y: -1 }),
        _ => None,
    }
}

} // verus!
