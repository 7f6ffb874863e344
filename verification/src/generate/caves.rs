//! Caves grown by a cellular automaton.
//!
//! A grid of cells, each rock or open, is filled at random and then left to
//! settle: a rock stays rock where at least four of its eight neighbours
//! are rock, an open cell turns to rock where at least five are. What lies
//! beyond the edge counts as rock.

use crate::generate::chance;
use crate::world::point::Point;
use crate::world::region::index_of;
use crate::world::region::Region;
use crate::world::region::HEIGHT;
use crate::world::region::WIDTH;
use crate::world::tile::Tile;
use crate::world::tile::TileClassId;
use vstd::prelude::*;

verus! {

/// The number of cells of a grid.
pub const CELLS: usize = 3200;

/// How many times out of twenty a cell starts as rock.
pub const ROCK_IN_TWENTY: u32 = 9;

/// Whether the cell `(x, y)` is rock. Beyond the edge, all is rock.
pub open spec fn alive(cells: Seq<bool>, x: int, y: int) -> bool {
    if 0 <= x < WIDTH && 0 <= y < HEIGHT {
        cells[y * WIDTH + x]
    } else {
        true
    }
}

/// One for rock, zero for open.
pub open spec fn count(rock: bool) -> int {
    if rock {
        1
    } else {
        0
    }
}

/// The number of rocks among the eight neighbours of `(x, y)`.
pub open spec fn neighbours(cells: Seq<bool>, x: int, y: int) -> int {
    count(alive(cells, x - 1, y - 1)) + count(alive(cells, x - 1, y)) + count(
        alive(cells, x - 1, y + 1),
    ) + count(alive(cells, x, y - 1)) + count(alive(cells, x, y + 1)) + count(
        alive(cells, x + 1, y - 1),
    ) + count(alive(cells, x + 1, y)) + count(alive(cells, x + 1, y + 1))
}

/// What the cell `(x, y)` is in the next generation.
pub open spec fn settled(cells: Seq<bool>, x: int, y: int) -> bool {
    if alive(cells, x, y) {
        neighbours(cells, x, y) >= 4
    } else {
        neighbours(cells, x, y) >= 5
    }
}

/// The next generation of a grid.
pub open spec fn generation(cells: Seq<bool>) -> Seq<bool> {
    Seq::new(CELLS as nat, |i: int| settled(cells, i % (WIDTH as int), i / (WIDTH as int)))
}

/// The grid `count` generations on.
pub open spec fn generations(cells: Seq<bool>, count: nat) -> Seq<bool>
    decreases count,
{
    if count == 0 {
        cells
    } else {
        generation(generations(cells, (count - 1) as nat))
    }
}

/// A grid of the size of a region; `true` is rock.
#[derive(Debug)]
pub struct Grid {
    cells: Vec<bool>,
}

impl View for Grid {
    type V = Seq<bool>;

    closed spec fn view(&self) -> Seq<bool> {
        self.cells@
    }
}

impl Grid {
    #[verifier::type_invariant]
    spec fn inv(self) -> bool {
        self.cells@.len() == CELLS
    }

    /// A grid in which each cell is rock with a chance of nine in twenty.
    pub fn new(rng: &mut rand::rngs::SmallRng) -> (grid: Grid)
        ensures
            grid@.len() == CELLS,
    {
        let mut cells: Vec<bool> = Vec::with_capacity(CELLS);
        while cells.len() < CELLS
            invariant
                cells@.len() <= CELLS,
            decreases CELLS - cells@.len(),
        {
            cells.push(chance(rng, ROCK_IN_TWENTY, 20));
        }
        Grid { cells }
    }

    /// A grid of the given cells, or `None` where their number is not that
    /// of a region's tiles.
    pub fn from_cells(cells: Vec<bool>) -> (grid: Option<Grid>)
        ensures
            grid is Some <==> cells@.len() == CELLS,
            grid is Some ==> grid.unwrap()@ == cells@,
    {
        if cells.len() == CELLS {
            Some(Grid { cells })
        } else {
            None
        }
    }

    /// The number of rocks among the eight neighbours of `(x, y)`.
    pub fn neighbours(&self, x: u16, y: u16) -> (rocks: u8)
        ensures
            rocks == neighbours(self@, x as int, y as int),
            self@.len() == CELLS,
    {
        let x = x as i32;
        let y = y as i32;
        let mut rocks: u8 = 0;
        if self.is_alive(x - 1, y - 1) {
            rocks = rocks + 1;
        }
        if self.is_alive(x - 1, y) {
            rocks = rocks + 1;
        }
        if self.is_alive(x - 1, y + 1) {
            rocks = rocks + 1;
        }
        if self.is_alive(x, y - 1) {
            rocks = rocks + 1;
        }
        if self.is_alive(x, y + 1) {
            rocks = rocks + 1;
        }
        if self.is_alive(x + 1, y - 1) {
            rocks = rocks + 1;
        }
        if self.is_alive(x + 1, y) {
            rocks = rocks + 1;
        }
        if self.is_alive(x + 1, y + 1) {
            rocks = rocks + 1;
        }
        rocks
    }

    /// Whether the cell `(x, y)` is rock. Beyond the edge, all is rock.
    pub fn is_alive(&self, x: i32, y: i32) -> (rock: bool)
        ensures
            rock == alive(self@, x as int, y as int),
            self@.len() == CELLS,
    {
        proof {
            use_type_invariant(self);
        }
        if x >= 0 && x < WIDTH as i32 && y >= 0 && y < HEIGHT as i32 {
            self.cells[(y * WIDTH as i32 + x) as usize]
        } else {
            true
        }
    }

    /// The cell `(x, y)`.
    pub fn index(&self, pos: (u16, u16)) -> (rock: bool)
        requires
            pos.0 < WIDTH,
            pos.1 < HEIGHT,
        ensures
            rock == self@[pos.1 * WIDTH + pos.0],
            rock == alive(self@, pos.0 as int, pos.1 as int),
    {
        proof {
            use_type_invariant(self);
        }
        let x = pos.0 as usize;
        let y = pos.1 as usize;
        self.cells[y * 80 + x]
    }

    /// Sets the cell `(x, y)`.
    pub fn set(&mut self, pos: (u16, u16), rock: bool)
        requires
            pos.0 < WIDTH,
            pos.1 < HEIGHT,
        ensures
            final(self)@ == old(self)@.update(pos.1 * WIDTH + pos.0, rock),
            final(self)@.len() == CELLS,
    {
        proof {
            use_type_invariant(&*self);
        }
        let x = pos.0 as usize;
        let y = pos.1 as usize;
        self.cells[y * 80 + x] = rock;
    }
}

/// Where every cave has a pool of water.
pub open spec fn pool() -> Point {
    Point { x: 52, y: 5 }
}

/// The kind of the tile that a cell becomes: rock becomes cave wall, an
/// open cell ground; and the tile at the pool is water.
pub open spec fn tile_class(cells: Seq<bool>, index: int) -> TileClassId {
    if index == index_of(pool()) {
        TileClassId::Water
    } else if cells[index] {
        TileClassId::CaveWall
    } else {
        TileClassId::Ground
    }
}

impl Grid {
    /// The region that the grid stands for: a new tile for every cell.
    pub fn make_region(&self) -> (region: Region)
        ensures
            region@.len() == CELLS,
            forall|i: int|
                0 <= i < CELLS ==> (#[trigger] region@[i]).is_new(tile_class(self@, i)),
    {
        proof {
            use_type_invariant(self);
        }
        let mut region = Region::new();
        let mut y: u16 = 0;
        while y < HEIGHT
            invariant
                y <= HEIGHT,
                self@.len() == CELLS,
                region@.len() == CELLS,
                forall|i: int|
                    0 <= i < y * WIDTH ==> (#[trigger] region@[i]).is_new(
                        if self@[i] {
                            TileClassId::CaveWall
                        } else {
                            TileClassId::Ground
                        },
                    ),
            decreases HEIGHT - y,
        {
            let mut x: u16 = 0;
            while x < WIDTH
                invariant
                    y < HEIGHT,
                    x <= WIDTH,
                    self@.len() == CELLS,
                    region@.len() == CELLS,
                    forall|i: int|
                        0 <= i < y * WIDTH + x ==> (#[trigger] region@[i]).is_new(
                            if self@[i] {
                                TileClassId::CaveWall
                            } else {
                                TileClassId::Ground
                            },
                        ),
                decreases WIDTH - x,
            {
                let tile = if self.index((x, y)) {
                    Tile::new(TileClassId::CaveWall)
                } else {
                    Tile::new(TileClassId::Ground)
                };
                *region.index_mut(Point { x, y }) = tile;
                x = x + 1;
            }
            y = y + 1;
        }
        *region.index_mut(Point { x: 52, y: 5 }) = Tile::new(TileClassId::Water);
        region
    }
}

/// Writes to `grid` the generation that follows `clone`.
pub fn iterate(grid: &mut Grid, clone: &Grid)
    ensures
        final(grid)@ == generation(clone@),
{
    proof {
        use_type_invariant(&*grid);
    }
    let mut x: u16 = 0;
    while x < WIDTH
        invariant
            x <= WIDTH,
            grid@.len() == CELLS,
            forall|i: int, j: int|
                0 <= i < x && 0 <= j < HEIGHT ==> grid@[j * WIDTH + i] == settled(clone@, i, j),
        decreases WIDTH - x,
    {
        let mut y: u16 = 0;
        while y < HEIGHT
            invariant
                x < WIDTH,
                y <= HEIGHT,
                grid@.len() == CELLS,
                forall|i: int, j: int|
                    0 <= i < x && 0 <= j < HEIGHT ==> grid@[j * WIDTH + i] == settled(
                        clone@,
                        i,
                        j,
                    ),
                forall|j: int| 0 <= j < y ==> grid@[j * WIDTH + x] == settled(clone@, x as int, j),
            decreases HEIGHT - y,
        {
            let rocks = clone.neighbours(x, y);
            let rock = if clone.index((x, y)) {
                rocks >= 4
            } else {
                rocks >= 5
            };
            grid.set((x, y), rock);
            y = y + 1;
        }
        x = x + 1;
    }
    assert forall|k: int| 0 <= k < CELLS implies grid@[k] == generation(clone@)[k] by {
        let i = k % (WIDTH as int);
        let j = k / (WIDTH as int);
        assert(k == j * WIDTH + i);
        assert(grid@[j * WIDTH + i] == settled(clone@, i, j));
    }
    assert(grid@ =~= generation(clone@));
}

/// The generator of cave regions.
#[derive(Clone, Copy, Debug)]
pub struct Caves;

/// How many generations a cave settles for.
pub const GENERATIONS: u32 = 7;

impl Caves {
    /// The terrain of a new cave: a grid filled at random, settled, and
    /// made into a region.
    pub fn generate_terrain(&mut self, rng: &mut rand::rngs::SmallRng) -> (region: Region)
        ensures
            region@.len() == CELLS,
            exists|seed: Seq<bool>|
                #![trigger generations(seed, GENERATIONS as nat)]
                seed.len() == CELLS && forall|i: int|
                    0 <= i < CELLS ==> (#[trigger] region@[i]).is_new(
                        tile_class(generations(seed, GENERATIONS as nat), i),
                    ),
    {
        let seed = Grid::new(rng);
        let ghost cells = seed@;
        let region = Caves::settle(seed).make_region();
        assert(cells.len() == CELLS && forall|i: int|
            0 <= i < CELLS ==> (#[trigger] region@[i]).is_new(
                tile_class(generations(cells, GENERATIONS as nat), i),
            ));
        region
    }

    /// Lets a grid settle. Two grids take turns: each generation is written
    /// to one of them from the other, and the one that was written before
    /// the last is handed out, which is the seventh generation.
    pub fn settle(seed: Grid) -> (grid: Grid)
        ensures
            grid@ == generations(seed@, GENERATIONS as nat),
    {
        let mut grid = seed.clone();
        let mut clone = seed;
        let mut round: u32 = 0;
        while round <= GENERATIONS
            invariant
                round <= GENERATIONS + 1,
                clone@ == generations(seed@, round as nat),
                round > 0 ==> grid@ == generations(seed@, (round - 1) as nat),
                round == 0 ==> grid@ == seed@,
            decreases GENERATIONS + 1 - round,
        {
            iterate(&mut grid, &clone);
            let written = grid;
            grid = clone;
            clone = written;
            round = round + 1;
        }
        grid
    }
}

impl Clone for Grid {
    fn clone(&self) -> (copy: Grid)
        ensures
            copy@ == self@,
    {
        proof {
            use_type_invariant(self);
        }
        let cells = self.cells.clone();
        assert(cells@ =~= self.cells@);
        Grid { cells }
    }
}

} // verus!
