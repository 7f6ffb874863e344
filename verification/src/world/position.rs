//! Positions that refuse to leave the grid.

use core::num::TryFromIntError;
use vstd::prelude::*;

verus! {

/// A tile position.
#[derive(Clone, Copy, Debug, PartialEq, Eq, Structural)]
pub struct Position {
    pub x: u16,
    pub y: u16,
}

/// A step from one position to another.
#[derive(Clone, Copy, Debug, PartialEq, Eq, Structural)]
pub struct Offset {
    pub x: i32,
    pub y: i32,
}

impl Position {
    /// Whether a step from here ends on the grid of `u16`.
    pub open spec fn reaches(self, offset: Offset) -> bool {
        0 <= self.x + offset.x <= 0xffff && 0 <= self.y + offset.y <= 0xffff
    }

    /// The position that a step leads to, or an error where that is off the
    /// grid of `u16`.
    pub fn try_add(self, offset: Offset) -> (sum: Result<Position, TryFromIntError>)
        ensures
            sum is Ok <==> self.reaches(offset),
            sum is Ok ==> sum.unwrap().x == self.x + offset.x && sum.unwrap().y == self.y
                + offset.y,
    {
        let x = match u16::try_from(self.x as i64 + offset.x as i64) {
            Ok(x) => x,
            Err(error) => {
                return Err(error);
            },
        };
        let y = match u16::try_from(self.y as i64 + offset.y as i64) {
            Ok(y) => y,
            Err(error) => {
                return Err(error);
            },
        };
        Ok(Position { x, y })
    }
}

impl From<(u16, u16)> for Position {
    fn from(pair: (u16, u16)) -> (position: Position) {
        Position { x: pair.0, y: pair.1 }
    }
}

impl vstd::std_specs::convert::FromSpecImpl<(u16, u16)> for Position {
    open spec fn obeys_from_spec() -> bool {
        true
    }

    open spec fn from_spec(pair: (u16, u16)) -> Position {
        Position { x: pair.0, y: pair.1 }
    }
}

impl From<Position> for (u16, u16) {
    fn from(position: Position) -> (pair: (u16, u16)) {
        (position.x, position.y)
    }
}

impl vstd::std_specs::convert::FromSpecImpl<Position> for (u16, u16) {
    open spec fn obeys_from_spec() -> bool {
        true
    }

    open spec fn from_spec(position: Position) -> (u16, u16) {
        (position.x, position.y)
    }
}

impl core::ops::Add<Position> for Position {
    type Output = Position;

    fn add(self, rhs: Position) -> (sum: Position) {
        Position { x: self.x + rhs.x, y: self.y + rhs.y }
    }
}

impl vstd::std_specs::ops::AddSpecImpl<Position> for Position {
    open spec fn obeys_add_spec() -> bool {
        true
    }

    open spec fn add_req(self, rhs: Position) -> bool {
        self.x + rhs.x <= 0xffff && self.y + rhs.y <= 0xffff
    }

    open spec fn add_spec(self, rhs: Position) -> Position {
        Position { x: (self.x + rhs.x) as u16, y: (self.y + rhs.y) as u16 }
    }
}

impl core::ops::AddAssign<Position> for Position {
    fn add_assign(&mut self, other: Position)
        requires
            old(self).x + other.x <= 0xffff,
            old(self).y + other.y <= 0xffff,
        ensures
            final(self).x == old(self).x + other.x,
            final(self).y == old(self).y + other.y,
    {
        *self = *self + other;
    }
}

impl From<(i32, i32)> for Offset {
    fn from(pair: (i32, i32)) -> (offset: Offset) {
        Offset { x: pair.0, y: pair.1 }
    }
}

impl vstd::std_specs::convert::FromSpecImpl<(i32, i32)> for Offset {
    open spec fn obeys_from_spec() -> bool {
        true
    }

    open spec fn from_spec(pair: (i32, i32)) -> Offset {
        Offset { x: pair.0, y: pair.1 }
    }
}

} // verus!
