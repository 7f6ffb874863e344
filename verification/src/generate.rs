//! Procedural generation: a source of chance, and the generators that draw
//! on it.

pub mod caves;

pub use caves::Caves;

use crate::world::point::Point;
use crate::world::region::holds;
use crate::world::region::index_of;
use crate::world::region::Region;
use crate::world::region::HEIGHT;
use crate::world::region::WIDTH;
use crate::world::tile::Tile;
use rand::Rng;
use vstd::prelude::*;

verus! {

#[verifier::external_type_specification]
#[verifier::external_body]
pub struct ExSmallRng(rand::rngs::SmallRng);

/// How often a tile is tried before the search for an empty one gives up.
pub const ATTEMPTS: u32 = 200;

/// `Rng::gen_ratio`: true with a chance of `numerator` in `denominator`.
/// Nothing is known of a single draw but at the two ends: a chance of zero
/// never comes true, a full one always does.
#[verifier::external_body]
pub(crate) fn chance(rng: &mut rand::rngs::SmallRng, numerator: u32, denominator: u32) -> (hit:
    bool)
    requires
        denominator > 0,
        numerator <= denominator,
    ensures
        numerator == 0 ==> !hit,
        numerator == denominator ==> hit,
{
    rng.gen_ratio(numerator, denominator)
}

/// `Rng::gen_range`: a number from `low` up to, but not including, `high`.
#[verifier::external_body]
pub(crate) fn pick(rng: &mut rand::rngs::SmallRng, low: u16, high: u16) -> (number: u16)
    requires
        low < high,
    ensures
        low <= number < high,
{
    rng.gen_range(low, high)
}

/// A point of a region, drawn at random.
pub fn random_point(rng: &mut rand::rngs::SmallRng) -> (point: Point)
    ensures
        holds(point),
{
    let x = pick(rng, 0, WIDTH);
    let y = pick(rng, 0, HEIGHT);
    Point { x, y }
}

/// Whether an entity can be put on the tile at a point: nothing stands on
/// it, and it is not of a kind that blocks.
pub open spec fn is_empty(tiles: Seq<Tile>, point: Point) -> bool {
    !tiles[index_of(point)].is_blocked()
}

/// Whether `draws` can be the points that a search for an empty tile drew,
/// in order, and `found` its result: every point lies on the region, the
/// tiles of all of them were taken but the last, and the search went on to
/// its limit where it found none.
pub open spec fn drawn_until_empty(tiles: Seq<Tile>, draws: Seq<Point>, found: Option<Point>) -> bool {
    &&& 1 <= draws.len() <= ATTEMPTS
    &&& forall|i: int| 0 <= i < draws.len() ==> holds(#[trigger] draws[i])
    &&& forall|i: int| 0 <= i < draws.len() - 1 ==> !is_empty(tiles, #[trigger] draws[i])
    &&& match found {
        Some(tile) => draws.last() == tile && is_empty(tiles, tile),
        None => draws.len() == ATTEMPTS && !is_empty(tiles, draws.last()),
    }
}

/// Draws points at random until one is found whose tile is empty, two
/// hundred times at most. Returns the point that was found, or `None`
/// where none was.
pub fn random_empty_tile(region: &Region, rng: &mut rand::rngs::SmallRng) -> (tile: Option<Point>)
    ensures
        exists|draws: Seq<Point>| drawn_until_empty(region@, draws, tile),
{
    let ghost mut draws: Seq<Point> = Seq::empty();
    let mut tried: u32 = 0;
    while tried < ATTEMPTS
        invariant
            tried <= ATTEMPTS,
            draws.len() == tried,
            forall|i: int| 0 <= i < draws.len() ==> holds(#[trigger] draws[i]),
            forall|i: int| 0 <= i < draws.len() ==> !is_empty(region@, #[trigger] draws[i]),
        decreases ATTEMPTS - tried,
    {
        let pos = random_point(rng);
        let ghost before = draws;
        proof {
            draws = draws.push(pos);
        }
        let tile = region.index(pos);
        if tile.held_entity.is_none() && !tile.blocks() {
            assert(draws.last() == pos);
            assert forall|i: int| 0 <= i < draws.len() - 1 implies !is_empty(
                region@,
                #[trigger] draws[i],
            ) by {
                assert(draws[i] == before[i]);
            }
            assert(drawn_until_empty(region@, draws, Some(pos)));
            return Some(pos);
        }
        tried = tried + 1;
    }
    assert(drawn_until_empty(region@, draws, None));
    None
}

} // verus!
