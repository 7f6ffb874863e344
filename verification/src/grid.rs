//! A grid of anything, stored line by line.

use vstd::prelude::*;
use vstd::slice::slice_subrange;

verus! {

/// A grid of `lines` by `cols` values in row-major order.
pub struct Grid<T: Clone> {
    buf: Vec<T>,
    lines: usize,
    cols: usize,
}

/// What a grid holds.
pub struct GridView<T> {
    pub lines: usize,
    pub cols: usize,
    pub cells: Seq<T>,
}

impl<T> GridView<T> {
    /// There is one value for every position.
    pub open spec fn wf(self) -> bool {
        self.cells.len() == self.lines * self.cols
    }

    /// Whether `(line, col)` is a position of the grid.
    pub open spec fn holds(self, pos: (usize, usize)) -> bool {
        pos.0 < self.lines && pos.1 < self.cols
    }

    /// The value at a position.
    pub open spec fn at(self, pos: (usize, usize)) -> T
        recommends
            self.holds(pos),
    {
        self.cells[pos.0 * self.cols + pos.1]
    }
}

impl<T: Clone> View for Grid<T> {
    type V = GridView<T>;

    closed spec fn view(&self) -> GridView<T> {
        GridView { lines: self.lines, cols: self.cols, cells: self.buf@ }
    }
}

/// A position of a grid has an index among its values.
pub proof fn lemma_grid_index(lines: int, cols: int, line: int, col: int)
    requires
        0 <= line < lines,
        0 <= col < cols,
    ensures
        0 <= line * cols + col < lines * cols,
        0 <= line * cols <= lines * cols,
{
    assert(0 <= line * cols + col < lines * cols && 0 <= line * cols <= lines * cols)
        by (nonlinear_arith)
        requires
            0 <= line < lines,
            0 <= col < cols,
    ;
}

impl<T: Clone> Grid<T> {
    #[verifier::type_invariant]
    spec fn inv(self) -> bool {
        self.buf@.len() == self.lines * self.cols
    }

    /// A grid of the given size, every position a clone of `value`.
    pub fn new(size: (usize, usize), value: T) -> (grid: Grid<T>)
        requires
            size.0 * size.1 <= usize::MAX,
        ensures
            grid@.wf(),
            grid@.lines == size.0,
            grid@.cols == size.1,
            forall|i: int| 0 <= i < grid@.cells.len() ==> cloned(value, #[trigger] grid@.cells[i]),
    {
        Grid { buf: vec![value; size.0 * size.1], lines: size.0, cols: size.1 }
    }

    /// Gives the grid a new size. The values keep their place in the
    /// row-major order, not their position: those that fit stay, in order,
    /// and the store is filled up with clones of `value`.
    pub fn resize(&mut self, size: (usize, usize), value: T)
        requires
            size.0 * size.1 <= usize::MAX,
        ensures
            final(self)@.wf(),
            final(self)@.lines == size.0,
            final(self)@.cols == size.1,
            forall|i: int|
                0 <= i < final(self)@.cells.len() ==> (if i < old(self)@.cells.len() {
                    #[trigger] final(self)@.cells[i] == old(self)@.cells[i]
                } else {
                    cloned(value, final(self)@.cells[i])
                }),
    {
        proof {
            use_type_invariant(&*self);
        }
        assert(0usize * 0usize == 0) by (nonlinear_arith);
        let mut taken = Grid { buf: Vec::new(), lines: 0, cols: 0 };
        core::mem::swap(self, &mut taken);
        let mut buf = taken.buf;
        buf.resize(size.0 * size.1, value);
        *self = Grid { buf, lines: size.0, cols: size.1 };
    }

    /// Puts a clone of `value` at every position.
    pub fn fill(&mut self, value: T)
        ensures
            final(self)@.wf(),
            final(self)@.lines == old(self)@.lines,
            final(self)@.cols == old(self)@.cols,
            forall|i: int|
                0 <= i < final(self)@.cells.len() ==> cloned(value, #[trigger] final(self)@.cells[i]),
    {
        proof {
            use_type_invariant(&*self);
        }
        let mut done: usize = 0;
        while done < self.buf.len()
            invariant
                done <= self.buf@.len(),
                self.buf@.len() == old(self).buf@.len(),
                self.lines == old(self).lines,
                self.cols == old(self).cols,
                self.buf@.len() == self.lines * self.cols,
                forall|i: int| 0 <= i < done ==> cloned(value, #[trigger] self.buf@[i]),
            decreases self.buf@.len() - done,
        {
            self.buf[done] = value.clone();
            done = done + 1;
        }
    }

    pub fn size(&self) -> (size: (usize, usize))
        ensures
            size == (self@.lines, self@.cols),
            self@.wf(),
    {
        proof {
            use_type_invariant(self);
        }
        (self.lines, self.cols)
    }

    pub fn in_bounds(&self, pos: (usize, usize)) -> (inside: bool)
        ensures
            inside == self@.holds(pos),
    {
        pos.0 < self.lines && pos.1 < self.cols
    }

    /// Every run of `size` neighbours in the row-major order, from the
    /// first on.
    pub fn windows(&self, size: usize) -> (runs: Vec<&[T]>)
        requires
            size > 0,
        ensures
            runs@.len() == (if size <= self@.cells.len() {
                self@.cells.len() - size + 1
            } else {
                0
            }),
            forall|i: int|
                0 <= i < runs@.len() ==> (#[trigger] runs@[i])@ == self@.cells.subrange(i, i + size),
    {
        let mut runs: Vec<&[T]> = Vec::new();
        let cells = self.buf.as_slice();
        if size > cells.len() {
            return runs;
        }
        let count = cells.len() - size + 1;
        let mut from: usize = 0;
        while from < count
            invariant
                from <= count,
                count == cells@.len() - size + 1,
                size <= cells@.len(),
                cells@.len() <= usize::MAX,
                cells@ == self.buf@,
                runs@.len() == from,
                forall|i: int|
                    0 <= i < from ==> (#[trigger] runs@[i])@ == cells@.subrange(i, i + size),
            decreases count - from,
        {
            runs.push(slice_subrange(cells, from, from + size));
            from = from + 1;
        }
        runs
    }

    /// The value at a position of the grid.
    pub fn index(&self, pos: (usize, usize)) -> (value: &T)
        requires
            self@.holds(pos),
        ensures
            *value == self@.at(pos),
    {
        proof {
            use_type_invariant(self);
            lemma_grid_index(self.lines as int, self.cols as int, pos.0 as int, pos.1 as int);
        }
        let _ = self.buf.len();
        &self.buf[pos.0 * self.cols + pos.1]
    }

    /// The value at a position of the grid, to be written.
    pub fn index_mut(&mut self, pos: (usize, usize)) -> (value: &mut T)
        requires
            old(self)@.holds(pos),
        ensures
            *value == old(self)@.at(pos),
            final(self)@.wf(),
            final(self)@.lines == old(self)@.lines,
            final(self)@.cols == old(self)@.cols,
            final(self)@.cells == old(self)@.cells.update(
                pos.0 * old(self)@.cols + pos.1,
                *final(value),
            ),
            final(self)@.at(pos) == *final(value),
    {
        proof {
            use_type_invariant(&*self);
            lemma_grid_index(self.lines as int, self.cols as int, pos.0 as int, pos.1 as int);
        }
        let _ = self.buf.len();
        &mut self.buf[pos.0 * self.cols + pos.1]
    }
}

/// A write through the index is read back at its position and nowhere
/// else.
pub proof fn lemma_grid_write<T>(
    grid: GridView<T>,
    pos: (usize, usize),
    value: T,
    other: (usize, usize),
)
    requires
        grid.wf(),
        grid.holds(pos),
        grid.holds(other),
    ensures
        (GridView { cells: grid.cells.update(pos.0 * grid.cols + pos.1, value), ..grid }).at(pos)
            == value,
        other != pos ==> (GridView {
            cells: grid.cells.update(pos.0 * grid.cols + pos.1, value),
            ..grid
        }).at(other) == grid.at(other),
{
    lemma_grid_index(grid.lines as int, grid.cols as int, pos.0 as int, pos.1 as int);
    lemma_grid_index(grid.lines as int, grid.cols as int, other.0 as int, other.1 as int);
    if other != pos {
        assert(pos.0 * grid.cols + pos.1 != other.0 * grid.cols + other.1) by (nonlinear_arith)
            requires
                0 <= pos.1 < grid.cols,
                0 <= other.1 < grid.cols,
                pos.0 != other.0 || pos.1 != other.1,
        ;
    }
}

} // verus!
