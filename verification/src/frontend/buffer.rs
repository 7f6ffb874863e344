//! The cell buffer and its diffing flush.
//!
//! A buffer is a grid of cells in row-major order. Flushing it writes the
//! terminal commands that reproduce it on a screen already cleared to the
//! buffer's background: cells that are blank on that background are left
//! alone, short gaps are bridged with spaces and long ones with a cursor
//! move, and colors and attributes are sent only where they change.

use crate::ansi::background_code;
use crate::ansi::foreground_code;
use crate::ansi::move_to_code;
use crate::ansi::queue_attribute;
use crate::ansi::queue_background;
use crate::ansi::queue_foreground;
use crate::ansi::queue_move_to;
use crate::ansi::queue_print;
use crate::ansi::sgr_code;
use crate::ansi::Attribute;
use crate::color::Color;
use crate::frontend::lemma_cells_bound;
use crate::frontend::lemma_index_of_point;
use crate::frontend::lemma_point_of_index;
use crate::frontend::Attributes;
use crate::frontend::Point;
use crate::frontend::Size;
use vstd::prelude::*;
use vstd::string::StringExecFns;

verus! {

/// A gap of this many cells or more is crossed with a cursor move.
pub const JUMP: usize = 8;

/// One character cell: a glyph with its colors and attributes.
#[derive(Clone, Copy, Debug, PartialEq, Eq, Structural)]
pub struct Cell {
    pub c: char,
    pub fg_color: Color,
    pub bg_color: Color,
    pub attributes: Attributes,
}

impl Cell {
    /// A space, black on black, without attributes.
    pub open spec fn blank() -> Cell {
        Cell {
            c: ' ',
            fg_color: Color { r: 0, g: 0, b: 0 },
            bg_color: Color { r: 0, g: 0, b: 0 },
            attributes: Attributes { bits: 0 },
        }
    }

    /// Whether the cell shows nothing on a screen cleared to `bg_color`.
    pub open spec fn is_empty_on(self, bg_color: Color) -> bool {
        self.bg_color == bg_color && self.c == ' '
    }
}

impl Default for Cell {
    fn default() -> (cell: Cell)
        ensures
            cell == Cell::blank(),
    {
        Cell {
            c: ' ',
            fg_color: Color::black(),
            bg_color: Color::black(),
            attributes: Attributes::normal(),
        }
    }
}

/// What a buffer holds: its size, its cells in row-major order, and the
/// background that the terminal is taken to be cleared to.
pub struct BufferView {
    pub size: Size,
    pub cells: Seq<Cell>,
    pub bg_color: Color,
}

impl BufferView {
    /// There is one cell for every point of the size.
    pub open spec fn wf(self) -> bool {
        self.cells.len() == self.size.cells()
    }

    /// The cell at a point.
    pub open spec fn at(self, point: Point) -> Cell
        recommends
            self.size.holds(point),
    {
        self.cells[self.size.index_of(point)]
    }

    /// The buffer with one cell replaced.
    pub open spec fn with(self, point: Point, cell: Cell) -> BufferView {
        BufferView {
            size: self.size,
            cells: self.cells.update(self.size.index_of(point), cell),
            bg_color: self.bg_color,
        }
    }

    /// Whether `len` glyphs drawn from `start` cover the cell at `point`:
    /// the point is inside, on the line of `start`, and among the `len`
    /// columns from that of `start` on.
    pub open spec fn draws(self, start: Point, len: nat, point: Point) -> bool {
        self.size.holds(point) && point.line == start.line && start.col <= point.col
            && point.col - start.col < len
    }

    /// The cell at an index after `text` was drawn from `start`: the glyph
    /// that covers it, or what it held before.
    pub open spec fn drawn_cell(
        self,
        text: Seq<char>,
        start: Point,
        fg_color: Color,
        bg_color: Color,
        attributes: Attributes,
        index: int,
    ) -> Cell {
        if self.draws(start, text.len(), self.size.point_of(index)) {
            Cell { c: text[self.size.point_of(index).col - start.col], fg_color, bg_color, attributes }
        } else {
            self.cells[index]
        }
    }

    /// The buffer after `text` was drawn from `start` on one line: every
    /// covered cell holds its glyph with the given colors and attributes,
    /// what falls outside is dropped, and all other cells are as before.
    pub open spec fn drawn(
        self,
        text: Seq<char>,
        start: Point,
        fg_color: Color,
        bg_color: Color,
        attributes: Attributes,
    ) -> BufferView {
        BufferView {
            size: self.size,
            cells: Seq::new(
                self.cells.len(),
                |i: int| self.drawn_cell(text, start, fg_color, bg_color, attributes, i),
            ),
            bg_color: self.bg_color,
        }
    }

    /// The buffer after the foreground of one cell was multiplied by
    /// `numer / denom`; unchanged where the point is outside.
    pub open spec fn lit(self, numer: u32, denom: u32, point: Point) -> BufferView {
        if self.size.holds(point) {
            self.with(
                point,
                Cell { fg_color: self.at(point).fg_color.scaled(numer, denom), ..self.at(point) },
            )
        } else {
            self
        }
    }

    /// The buffer of a size with every cell blank, on black.
    pub open spec fn blank(size: Size) -> BufferView {
        BufferView {
            size,
            cells: Seq::new(size.cells(), |i: int| Cell::blank()),
            bg_color: Color { r: 0, g: 0, b: 0 },
        }
    }

    /// The commands that reproduce the buffer on a cleared screen: home the
    /// cursor, send the first cell in full, then every other cell that shows.
    pub open spec fn rendered(self) -> Seq<char>
        recommends
            self.wf(),
            self.cells.len() > 0,
    {
        move_to_code(0, 0) + cell_code(self.cells[0]) + self.rendered_from(1, 0)
    }

    /// The commands for the cells from `index` on, when the cell at `last`
    /// was the last one sent.
    pub open spec fn rendered_from(self, index: int, last: int) -> Seq<char>
        recommends
            0 <= last < index,
        decreases self.cells.len() - index,
    {
        if index >= self.cells.len() {
            Seq::empty()
        } else if self.cells[index].is_empty_on(self.bg_color) {
            self.rendered_from(index + 1, last)
        } else {
            gap_code(self.size, index, last) + diff_code(self.cells[index], self.cells[last])
                + self.rendered_from(index + 1, index)
        }
    }
}

/// `count` spaces.
pub open spec fn spaces(count: nat) -> Seq<char> {
    Seq::new(count, |i: int| ' ')
}

/// The commands that switch on the attributes of a set.
pub open spec fn attributes_code(attributes: Attributes) -> Seq<char> {
    (if attributes.is_bold() {
        sgr_code(Attribute::Bold.sgr())
    } else {
        Seq::empty()
    }) + (if attributes.is_reverse() {
        sgr_code(Attribute::Reverse.sgr())
    } else {
        Seq::empty()
    })
}

/// A cell sent in full: foreground, background, attributes, glyph.
pub open spec fn cell_code(cell: Cell) -> Seq<char> {
    foreground_code(cell.fg_color) + background_code(cell.bg_color) + attributes_code(
        cell.attributes,
    ) + seq![cell.c]
}

/// A cell sent after `last`: each color only if it differs; if the attribute
/// sets differ in any way, a reset followed by both colors and the
/// attributes; then the glyph.
pub open spec fn diff_code(current: Cell, last: Cell) -> Seq<char> {
    color_diff_code(current, last) + attribute_diff_code(current, last) + seq![current.c]
}

/// How the cursor gets from behind the cell at `last` to the cell at
/// `index`: not at all where they are neighbours, by spaces across fewer than
/// eight cells, by a cursor move otherwise.
pub open spec fn gap_code(size: Size, index: int, last: int) -> Seq<char> {
    if index - last == 1 {
        Seq::empty()
    } else if index - last < JUMP {
        spaces((index - last - 1) as nat)
    } else {
        move_to_code(size.point_of(index).col, size.point_of(index).line)
    }
}

/// A fixed-size grid of cells with a designated background color.
pub struct Buffer {
    cells: Vec<Cell>,
    size: Size,
    bg_color: Color,
}

impl View for Buffer {
    type V = BufferView;

    closed spec fn view(&self) -> BufferView {
        BufferView { size: self.size, cells: self.cells@, bg_color: self.bg_color }
    }
}

impl Buffer {
    #[verifier::type_invariant]
    spec fn inv(self) -> bool {
        self.cells@.len() == self.size.cells()
    }

    /// A buffer of blank cells on black.
    pub fn new(size: Size) -> (buffer: Buffer)
        ensures
            buffer@ == BufferView::blank(size),
            buffer@.wf(),
    {
        let area = size.area();
        let mut cells: Vec<Cell> = Vec::with_capacity(area);
        let mut filled: usize = 0;
        while filled < area
            invariant
                filled <= area,
                cells@.len() == filled,
                forall|i: int| 0 <= i < filled ==> cells@[i] == Cell::blank(),
            decreases area - filled,
        {
            cells.push(Cell::default());
            filled = filled + 1;
        }
        assert(cells@ =~= BufferView::blank(size).cells);
        Buffer { cells, size, bg_color: Color::black() }
    }

    pub fn size(&self) -> (size: Size)
        ensures
            size == self@.size,
            self@.wf(),
    {
        proof {
            use_type_invariant(self);
        }
        self.size
    }

    /// The background that the terminal is taken to be cleared to.
    pub fn bg_color(&self) -> (color: Color)
        ensures
            color == self@.bg_color,
    {
        self.bg_color
    }

    pub fn set_bg_color(&mut self, color: Color)
        ensures
            final(self)@ == (BufferView { bg_color: color, ..old(self)@ }),
    {
        proof {
            use_type_invariant(&*self);
        }
        self.bg_color = color;
    }

    /// The cell at the top left.
    pub fn first(&self) -> (cell: Cell)
        requires
            self@.size.cells() > 0,
        ensures
            cell == self@.cells[0],
    {
        proof {
            use_type_invariant(self);
        }
        self.cells[0]
    }

    /// The cell at a point of the buffer.
    pub fn index(&self, point: Point) -> (cell: &Cell)
        requires
            self@.size.holds(point),
        ensures
            *cell == self@.at(point),
    {
        proof {
            use_type_invariant(self);
            lemma_index_of_point(self.size, point);
            lemma_cells_bound(self.size);
        }
        &self.cells[point.line as usize * self.size.width as usize + point.col as usize]
    }

    /// The cell at a point of the buffer, to be written.
    pub fn index_mut(&mut self, point: Point) -> (cell: &mut Cell)
        requires
            old(self)@.size.holds(point),
        ensures
            *cell == old(self)@.at(point),
            final(self)@ == old(self)@.with(point, *final(cell)),
            final(self)@.at(point) == *final(cell),
            final(self)@.wf(),
    {
        proof {
            use_type_invariant(&*self);
            lemma_index_of_point(self.size, point);
            lemma_cells_bound(self.size);
        }
        &mut self.cells[point.line as usize * self.size.width as usize + point.col as usize]
    }

    /// Appends to `writer` the commands that reproduce the buffer on a
    /// terminal already cleared to the buffer's background.
    pub fn flush(&self, writer: &mut String)
        requires
            self@.size.cells() > 0,
        ensures
            final(writer)@ == old(writer)@ + self@.rendered(),
    {
        proof {
            use_type_invariant(self);
            lemma_cells_bound(self.size);
        }
        queue_move_to(writer, 0, 0);
        queue_cell(writer, self.cells[0]);
        let ghost start = old(writer)@;
        let mut last: usize = 0;
        let mut index: usize = 1;
        assert(writer@ =~= start + (move_to_code(0, 0) + cell_code(self.cells@[0])));
        while index < self.cells.len()
            invariant
                self.cells@.len() == self.size.cells(),
                self.cells@.len() <= 0xffff * 0xffff,
                0 <= last < index <= self.cells@.len(),
                writer@ + self@.rendered_from(index as int, last as int) == start
                    + self@.rendered(),
            decreases self.cells@.len() - index,
        {
            let cell = self.cells[index];
            if !(cell.bg_color == self.bg_color && cell.c == ' ') {
                let ghost before = writer@;
                let jump = index - last;
                if jump > 1 {
                    if jump < JUMP {
                        queue_spaces(writer, jump - 1);
                    } else {
                        proof {
                            lemma_point_of_index(self.size, index as int);
                        }
                        let point = self.size.index_to_point(index);
                        queue_move_to(writer, point.col, point.line);
                    }
                }
                queue_cell_diff(writer, cell, self.cells[last]);
                assert(writer@ + self@.rendered_from(index + 1, index as int) =~= before
                    + self@.rendered_from(index as int, last as int));
                last = index;
            }
            index = index + 1;
        }
        assert(self@.rendered_from(index as int, last as int) =~= Seq::<char>::empty());
        assert(writer@ =~= writer@ + Seq::<char>::empty());
    }
}

impl Clone for Buffer {
    fn clone(&self) -> (copy: Buffer)
        ensures
            copy@ == self@,
            copy@.wf(),
    {
        proof {
            use_type_invariant(self);
        }
        let cells = self.cells.clone();
        assert(cells@ =~= self.cells@);
        Buffer { cells, size: self.size, bg_color: self.bg_color }
    }
}

/// Appends `count` spaces.
fn queue_spaces(writer: &mut String, count: usize)
    ensures
        final(writer)@ == old(writer)@ + spaces(count as nat),
{
    let mut done: usize = 0;
    assert(writer@ =~= old(writer)@ + spaces(0));
    while done < count
        invariant
            done <= count,
            writer@ == old(writer)@ + spaces(done as nat),
        decreases count - done,
    {
        proof {
            reveal_strlit(" ");
        }
        let ghost before = writer@;
        writer.append(" ");
        assert(" "@ =~= seq![' ']);
        assert(before + seq![' '] =~= old(writer)@ + spaces((done + 1) as nat));
        done = done + 1;
    }
}

/// Appends the commands that switch on the attributes of a set.
fn queue_attributes(writer: &mut String, attributes: Attributes)
    ensures
        final(writer)@ == old(writer)@ + attributes_code(attributes),
{
    if attributes.contains(Attributes::bold()) {
        queue_attribute(writer, Attribute::Bold);
    }
    let ghost middle = writer@;
    if attributes.contains(Attributes::reverse()) {
        queue_attribute(writer, Attribute::Reverse);
    }
    assert(writer@ =~= old(writer)@ + attributes_code(attributes));
}

/// Appends a cell in full.
fn queue_cell(writer: &mut String, cell: Cell)
    ensures
        final(writer)@ == old(writer)@ + cell_code(cell),
{
    queue_foreground(writer, cell.fg_color);
    queue_background(writer, cell.bg_color);
    queue_attributes(writer, cell.attributes);
    queue_print(writer, cell.c);
    assert(writer@ =~= old(writer)@ + cell_code(cell));
}

/// The color commands of a diff: each color only where it differs.
pub open spec fn color_diff_code(current: Cell, last: Cell) -> Seq<char> {
    (if current.fg_color != last.fg_color {
        foreground_code(current.fg_color)
    } else {
        Seq::empty()
    }) + (if current.bg_color != last.bg_color {
        background_code(current.bg_color)
    } else {
        Seq::empty()
    })
}

/// The attribute commands of a diff: nothing where the sets are equal, else
/// a reset followed by both colors and the attributes.
pub open spec fn attribute_diff_code(current: Cell, last: Cell) -> Seq<char> {
    if current.attributes != last.attributes {
        sgr_code(Attribute::Reset.sgr()) + foreground_code(current.fg_color) + background_code(
            current.bg_color,
        ) + attributes_code(current.attributes)
    } else {
        Seq::empty()
    }
}

fn queue_color_diff(writer: &mut String, current: Cell, last: Cell)
    ensures
        final(writer)@ == old(writer)@ + color_diff_code(current, last),
{
    if current.fg_color != last.fg_color {
        queue_foreground(writer, current.fg_color);
    }
    if current.bg_color != last.bg_color {
        queue_background(writer, current.bg_color);
    }
    assert(writer@ =~= old(writer)@ + color_diff_code(current, last));
}

fn queue_attribute_diff(writer: &mut String, current: Cell, last: Cell)
    ensures
        final(writer)@ == old(writer)@ + attribute_diff_code(current, last),
{
    if current.attributes != last.attributes {
        queue_attribute(writer, Attribute::Reset);
        queue_foreground(writer, current.fg_color);
        queue_background(writer, current.bg_color);
        queue_attributes(writer, current.attributes);
    }
    assert(writer@ =~= old(writer)@ + attribute_diff_code(current, last));
}

/// Appends what has changed from `last` to `current`, and the glyph.
fn queue_cell_diff(writer: &mut String, current: Cell, last: Cell)
    ensures
        final(writer)@ == old(writer)@ + diff_code(current, last),
{
    queue_color_diff(writer, current, last);
    queue_attribute_diff(writer, current, last);
    queue_print(writer, current.c);
    assert(writer@ =~= old(writer)@ + diff_code(current, last));
}

/// Drawing one more glyph is drawing the text so far and then writing the
/// glyph's cell.
pub proof fn lemma_drawn_step(
    view: BufferView,
    text: Seq<char>,
    count: int,
    start: Point,
    fg_color: Color,
    bg_color: Color,
    attributes: Attributes,
)
    requires
        view.wf(),
        0 <= count < text.len(),
        start.line < view.size.height,
        start.col + count < view.size.width,
    ensures
        view.drawn(text.take(count + 1), start, fg_color, bg_color, attributes) == view.drawn(
            text.take(count),
            start,
            fg_color,
            bg_color,
            attributes,
        ).with(
            Point { line: start.line, col: (start.col + count) as u16 },
            Cell { c: text[count], fg_color, bg_color, attributes },
        ),
{
    let target = Point { line: start.line, col: (start.col + count) as u16 };
    let before = view.drawn(text.take(count), start, fg_color, bg_color, attributes);
    let after = view.drawn(text.take(count + 1), start, fg_color, bg_color, attributes);
    let cell = Cell { c: text[count], fg_color, bg_color, attributes };
    let slot = view.size.index_of(target);
    lemma_index_of_point(view.size, target);
    assert(view.size.point_of(slot) == target);
    assert(after.cells[slot] == cell);
    assert forall|i: int| 0 <= i < view.cells.len() implies after.cells[i] == before.cells.update(
        slot,
        cell,
    )[i] by {
        lemma_point_of_index(view.size, i);
    }
    assert(after.cells =~= before.with(target, cell).cells);
}

/// Glyphs beyond the right edge, or on a line that the buffer lacks, leave
/// no trace: drawing the text up to there is drawing all of it.
pub proof fn lemma_drawn_clipped(
    view: BufferView,
    text: Seq<char>,
    count: int,
    start: Point,
    fg_color: Color,
    bg_color: Color,
    attributes: Attributes,
)
    requires
        view.wf(),
        0 <= count <= text.len(),
        start.line >= view.size.height || start.col + count >= view.size.width || count
            == text.len(),
    ensures
        view.drawn(text.take(count), start, fg_color, bg_color, attributes) == view.drawn(
            text,
            start,
            fg_color,
            bg_color,
            attributes,
        ),
{
    let part = view.drawn(text.take(count), start, fg_color, bg_color, attributes);
    let whole = view.drawn(text, start, fg_color, bg_color, attributes);
    assert forall|i: int| 0 <= i < view.cells.len() implies part.cells[i] == whole.cells[i] by {
        lemma_point_of_index(view.size, i);
    }
    assert(part.cells =~= whole.cells);
}

/// Reading back after a draw: a covered cell holds exactly the glyph, colors
/// and attributes that were written, every other cell of the buffer what it
/// held before, and the buffer keeps its size and background.
pub proof fn lemma_draw_reads_back(
    view: BufferView,
    text: Seq<char>,
    start: Point,
    fg_color: Color,
    bg_color: Color,
    attributes: Attributes,
    point: Point,
)
    requires
        view.wf(),
        view.size.holds(point),
    ensures
        view.drawn(text, start, fg_color, bg_color, attributes).wf(),
        view.drawn(text, start, fg_color, bg_color, attributes).size == view.size,
        view.drawn(text, start, fg_color, bg_color, attributes).bg_color == view.bg_color,
        view.draws(start, text.len(), point) ==> view.drawn(
            text,
            start,
            fg_color,
            bg_color,
            attributes,
        ).at(point) == (Cell { c: text[point.col - start.col], fg_color, bg_color, attributes }),
        !view.draws(start, text.len(), point) ==> view.drawn(
            text,
            start,
            fg_color,
            bg_color,
            attributes,
        ).at(point) == view.at(point),
{
    lemma_index_of_point(view.size, point);
}

/// A draw that starts outside the buffer changes nothing.
pub proof fn lemma_draw_outside(
    view: BufferView,
    text: Seq<char>,
    start: Point,
    fg_color: Color,
    bg_color: Color,
    attributes: Attributes,
)
    requires
        view.wf(),
        !view.size.holds(start),
    ensures
        view.drawn(text, start, fg_color, bg_color, attributes) == view,
{
    let after = view.drawn(text, start, fg_color, bg_color, attributes);
    assert forall|i: int| 0 <= i < view.cells.len() implies after.cells[i] == view.cells[i] by {
        lemma_point_of_index(view.size, i);
    }
    assert(after.cells =~= view.cells);
}

/// A write through the raw index is read back at its point and nowhere else.
pub proof fn lemma_with_reads_back(view: BufferView, point: Point, cell: Cell, other: Point)
    requires
        view.wf(),
        view.size.holds(point),
        view.size.holds(other),
    ensures
        view.with(point, cell).wf(),
        view.with(point, cell).at(point) == cell,
        other != point ==> view.with(point, cell).at(other) == view.at(other),
{
    lemma_index_of_point(view.size, point);
    lemma_index_of_point(view.size, other);
}

/// Flushing is a function of what the buffer holds: two buffers with the
/// same cells, size and background are flushed to the same characters,
/// whatever was flushed before.
pub proof fn lemma_flush_repeats(first: BufferView, second: BufferView)
    requires
        first == second,
    ensures
        first.rendered() == second.rendered(),
{
}

/// A buffer whose cells are all blank on its background is flushed to the
/// cursor home and its first cell alone.
pub proof fn lemma_blank_rendered(view: BufferView)
    requires
        view.wf(),
        view.cells.len() > 0,
        forall|i: int| 1 <= i < view.cells.len() ==> view.cells[i].is_empty_on(view.bg_color),
    ensures
        view.rendered() == move_to_code(0, 0) + cell_code(view.cells[0]),
{
    lemma_blank_tail(view, 1);
    assert(move_to_code(0, 0) + cell_code(view.cells[0]) + Seq::<char>::empty() =~= move_to_code(
        0,
        0,
    ) + cell_code(view.cells[0]));
}

proof fn lemma_blank_tail(view: BufferView, index: int)
    requires
        1 <= index,
        forall|i: int| 1 <= i < view.cells.len() ==> view.cells[i].is_empty_on(view.bg_color),
    ensures
        view.rendered_from(index, 0) == Seq::<char>::empty(),
    decreases view.cells.len() - index,
{
    if index < view.cells.len() {
        lemma_blank_tail(view, index + 1);
    }
}

} // verus!
