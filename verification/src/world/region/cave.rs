//! Caves grown from two grids in turn: the same automaton as in
//! [`crate::generate::caves`], but each cell is judged by what it is in one
//! grid and by its neighbours in the other.

use crate::generate::caves::generation;
use crate::generate::caves::Grid;
use crate::generate::caves::CELLS;
use crate::world::position::Position;
use crate::world::region::HEIGHT;
use crate::world::region::WIDTH;
use vstd::prelude::*;

verus! {

/// How many rounds a cave is grown for.
pub const ROUNDS: u32 = 12;

/// The cell `(x, y)` of a grid.
pub open spec fn cell(cells: Seq<bool>, x: int, y: int) -> bool {
    cells[y * WIDTH + x]
}

/// What the cell `(x, y)` of `region` becomes when its neighbours are
/// counted in `clone`: rock stays rock with four or more rocks around it,
/// an open cell turns to rock with five or more.
pub open spec fn grown_cell(region: Seq<bool>, clone: Seq<bool>, x: int, y: int) -> bool {
    if cell(region, x, y) {
        crate::generate::caves::neighbours(clone, x, y) >= 4
    } else {
        crate::generate::caves::neighbours(clone, x, y) >= 5
    }
}

/// The grid `region` after one round with its neighbours counted in
/// `clone`.
pub open spec fn grown(region: Seq<bool>, clone: Seq<bool>) -> Seq<bool> {
    Seq::new(
        CELLS as nat,
        |i: int| grown_cell(region, clone, i % (WIDTH as int), i / (WIDTH as int)),
    )
}

/// The two grids after `rounds` rounds. In every round the first grid is
/// grown with its neighbours counted in the second, and the two change
/// places.
pub open spec fn grown_pair(seed: Seq<bool>, rounds: nat) -> (Seq<bool>, Seq<bool>)
    decreases rounds,
{
    if rounds == 0 {
        (seed, seed)
    } else {
        let before = grown_pair(seed, (rounds - 1) as nat);
        (before.1, grown(before.0, before.1))
    }
}

/// The number of rocks among the eight neighbours of a position. What lies
/// beyond the edge counts as rock.
pub fn neighbours(region: &Grid, position: Position) -> (rocks: u8)
    ensures
        rocks == crate::generate::caves::neighbours(
            region@,
            position.x as int,
            position.y as int,
        ),
{
    region.neighbours(position.x, position.y)
}

/// Grows `region` by one round with its neighbours counted in `clone`.
pub fn grow(region: &mut Grid, clone: &Grid)
    ensures
        final(region)@ == grown(old(region)@, clone@),
{
    let ghost start = region@;
    let _ = region.is_alive(0, 0);
    let mut x: u16 = 0;
    while x < WIDTH
        invariant
            x <= WIDTH,
            region@.len() == CELLS,
            start.len() == CELLS,
            forall|i: int, j: int|
                0 <= i < WIDTH && 0 <= j < HEIGHT ==> #[trigger] cell(region@, i, j) == (if i < x {
                    grown_cell(start, clone@, i, j)
                } else {
                    cell(start, i, j)
                }),
        decreases WIDTH - x,
    {
        let mut y: u16 = 0;
        while y < HEIGHT
            invariant
                x < WIDTH,
                y <= HEIGHT,
                region@.len() == CELLS,
                start.len() == CELLS,
                forall|i: int, j: int|
                    0 <= i < WIDTH && 0 <= j < HEIGHT ==> #[trigger] cell(region@, i, j) == (if i
                        < x || (i == x && j < y) {
                        grown_cell(start, clone@, i, j)
                    } else {
                        cell(start, i, j)
                    }),
            decreases HEIGHT - y,
        {
            let rocks = neighbours(clone, Position { x, y });
            let ghost before = region@;
            assert(cell(before, x as int, y as int) == cell(start, x as int, y as int));
            if region.index((x, y)) {
                if rocks < 4 {
                    region.set((x, y), false);
                }
            } else {
                if rocks >= 5 {
                    region.set((x, y), true);
                }
            }
            assert(cell(region@, x as int, y as int) == grown_cell(start, clone@, x as int, y as int));
            assert forall|i: int, j: int| 0 <= i < WIDTH && 0 <= j < HEIGHT && (i != x || j
                != y) implies #[trigger] cell(region@, i, j) == cell(before, i, j) by {
                assert(j * WIDTH + i != y * WIDTH + x);
            }
            y = y + 1;
        }
        x = x + 1;
    }
    assert forall|k: int| 0 <= k < CELLS implies region@[k] == grown(start, clone@)[k] by {
        let i = k % (WIDTH as int);
        let j = k / (WIDTH as int);
        assert(k == j * WIDTH + i);
        assert(cell(region@, i, j) == grown_cell(start, clone@, i, j));
    }
    assert(region@ =~= grown(start, clone@));
}

/// Grows a cave from a seed for twelve rounds.
pub fn settle(seed: Grid) -> (cave: Grid)
    ensures
        cave@ == grown_pair(seed@, ROUNDS as nat).0,
{
    let mut region = seed.clone();
    let mut clone = seed;
    let mut round: u32 = 0;
    while round < ROUNDS
        invariant
            round <= ROUNDS,
            (region@, clone@) == grown_pair(seed@, round as nat),
        decreases ROUNDS - round,
    {
        grow(&mut region, &clone);
        let grown = region;
        region = clone;
        clone = grown;
        round = round + 1;
    }
    region
}

/// A new cave: a grid filled at random and grown for twelve rounds.
pub fn new_cave(rng: &mut rand::rngs::SmallRng) -> (cave: Grid)
    ensures
        exists|seed: Seq<bool>|
            #![trigger grown_pair(seed, ROUNDS as nat)]
            seed.len() == CELLS && cave@ == grown_pair(seed, ROUNDS as nat).0,
{
    let seed = Grid::new(rng);
    settle(seed)
}

/// Where both grids are the same, a round is a generation.
pub proof fn lemma_grown_is_generation(cells: Seq<bool>)
    requires
        cells.len() == CELLS,
    ensures
        grown(cells, cells) == generation(cells),
{
    assert forall|k: int| 0 <= k < CELLS implies grown(cells, cells)[k] == generation(cells)[k] by {
        let i = k % (WIDTH as int);
        let j = k / (WIDTH as int);
        assert(k == j * WIDTH + i);
    }
    assert(grown(cells, cells) =~= generation(cells));
}

} // verus!
