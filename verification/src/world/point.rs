//! Points of a region and the offsets between them.

use vstd::prelude::*;

verus! {

/// A tile position on a region; `y` grows upward.
#[derive(Clone, Copy, Debug, Eq, Hash, Ord, PartialEq, PartialOrd, Structural)]
pub struct Point {
    pub x: u16,
    pub y: u16,
}

/// A step from one point to another.
#[derive(Clone, Copy, Debug, Eq, Ord, PartialEq, PartialOrd, Structural)]
pub struct Offset {
    pub x: i32,
    pub y: i32,
}

/// A coordinate moved by `by`, stopped at zero on the low side; on the high
/// side it wraps round at the end of `u16`.
pub open spec fn moved(coordinate: u16, by: i32) -> u16 {
    if coordinate + by < 0 {
        0u16
    } else {
        ((coordinate + by) % 0x10000) as u16
    }
}

impl Point {
    /// The point that an offset leads to.
    pub open spec fn plus(self, offset: Offset) -> Point {
        Point { x: moved(self.x, offset.x), y: moved(self.y, offset.y) }
    }

    pub fn into_tuple(self) -> (pair: (u16, u16))
        ensures
            pair == (self.x, self.y),
    {
        (self.x, self.y)
    }
}

fn move_by(coordinate: u16, by: i32) -> (at: u16)
    ensures
        at == moved(coordinate, by),
{
    let wide: i64 = coordinate as i64 + by as i64;
    if wide < 0 {
        0
    } else {
        (wide % 0x10000) as u16
    }
}

impl From<(u16, u16)> for Point {
    fn from(pair: (u16, u16)) -> (point: Point) {
        Point { x: pair.0, y: pair.1 }
    }
}

impl vstd::std_specs::convert::FromSpecImpl<(u16, u16)> for Point {
    open spec fn obeys_from_spec() -> bool {
        true
    }

    open spec fn from_spec(pair: (u16, u16)) -> Point {
        Point { x: pair.0, y: pair.1 }
    }
}

impl core::ops::Add<Offset> for Point {
    type Output = Point;

    fn add(self, rhs: Offset) -> (sum: Point) {
        Point { x: move_by(self.x, rhs.x), y: move_by(self.y, rhs.y) }
    }
}

impl vstd::std_specs::ops::AddSpecImpl<Offset> for Point {
    open spec fn obeys_add_spec() -> bool {
        true
    }

    open spec fn add_req(self, rhs: Offset) -> bool {
        true
    }

    open spec fn add_spec(self, rhs: Offset) -> Point {
        self.plus(rhs)
    }
}

impl From<(i32, i32)> for Offset {
    fn from(pair: (i32, i32)) -> (offset: Offset) {
        Offset { x: pair.0, y: pair.1 }
    }
}

impl vstd::std_specs::convert::FromSpecImpl<(i32, i32)> for Offset {
    open spec fn obeys_from_spec() -> bool {
        true
    }

    open spec fn from_spec(pair: (i32, i32)) -> Offset {
        Offset { x: pair.0, y: pair.1 }
    }
}

/// A step that stays on the grid of `u16` is plain addition.
pub proof fn lemma_plus_in_range(point: Point, offset: Offset)
    requires
        0 <= point.x + offset.x <= 0xffff,
        0 <= point.y + offset.y <= 0xffff,
    ensures
        point.plus(offset).x == point.x + offset.x,
        point.plus(offset).y == point.y + offset.y,
{
}

} // verus!
