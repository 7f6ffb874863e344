//! A user interface drawn on a canvas: buffers of glyphs that are flushed
//! glyph by glyph, text that wraps inside bounds, and draws that are
//! scheduled while the interface waits for input.
//!
//! All positions are `(line, column)`.

pub mod backend;
pub mod buffer;
pub mod components;

pub use crate::color::Color;
pub use crate::ui::buffer::Modifiers;

use crate::ansi::background_code;
use crate::ansi::foreground_code;
use crate::ansi::move_to_code;
use crate::ansi::enter_alternate_screen_code;
use crate::ansi::hide_cursor_code;
use crate::ansi::leave_alternate_screen_code;
use crate::ansi::queue_attribute;
use crate::ansi::queue_background;
use crate::ansi::queue_enter_alternate_screen;
use crate::ansi::queue_foreground;
use crate::ansi::queue_hide_cursor;
use crate::ansi::queue_leave_alternate_screen;
use crate::ansi::queue_move_to;
use crate::ansi::queue_print;
use crate::ansi::queue_show_cursor;
use crate::ansi::sgr_code;
use crate::ansi::show_cursor_code;
use crate::ansi::Attribute;
use crate::ui::buffer::restyled;
use crate::ui::buffer::update_style;
use crate::ui::buffer::Style;
use vstd::prelude::*;
use vstd::slice::slice_subrange;
use vstd::std_specs::iter::IteratorSpec;

verus! {

/// A rectangle on the screen.
#[derive(Clone, Copy, Debug, PartialEq, Eq, Structural)]
pub struct Rectangle {
    /// The line of the top-left corner.
    pub line: u16,
    /// The column of the top-left corner.
    pub col: u16,
    /// The height, in lines.
    pub height: u16,
    /// The width, in columns.
    pub width: u16,
}

impl Rectangle {
    pub fn new(corner: (u16, u16), size: (u16, u16)) -> (rectangle: Rectangle)
        ensures
            rectangle == (Rectangle {
                line: corner.0,
                col: corner.1,
                height: size.0,
                width: size.1,
            }),
    {
        Rectangle { line: corner.0, col: corner.1, height: size.0, width: size.1 }
    }
}

impl core::ops::Add<(u16, u16)> for Rectangle {
    type Output = (u16, u16);

    /// The place on the screen of a position inside the rectangle.
    fn add(self, rhs: (u16, u16)) -> (place: (u16, u16)) {
        (self.line + rhs.0, self.col + rhs.1)
    }
}

impl vstd::std_specs::ops::AddSpecImpl<(u16, u16)> for Rectangle {
    open spec fn obeys_add_spec() -> bool {
        true
    }

    open spec fn add_req(self, rhs: (u16, u16)) -> bool {
        self.line + rhs.0 <= 0xffff && self.col + rhs.1 <= 0xffff
    }

    open spec fn add_spec(self, rhs: (u16, u16)) -> (u16, u16) {
        ((self.line + rhs.0) as u16, (self.col + rhs.1) as u16)
    }
}

/// A character with modifiers, and foreground and background colors.
#[derive(Clone, Copy, Debug, PartialEq, Eq, Structural)]
pub struct Glyph {
    pub c: char,
    pub modifiers: Modifiers,
    pub fg: Color,
    pub bg: Color,
}

impl Glyph {
    /// A space, black on black, without modifiers.
    pub open spec fn blank() -> Glyph {
        Glyph {
            c: ' ',
            modifiers: Modifiers { bits: 0 },
            fg: Color { r: 0, g: 0, b: 0 },
            bg: Color { r: 0, g: 0, b: 0 },
        }
    }

    /// How the glyph is shown.
    pub open spec fn style(self) -> Style {
        Style { fg: self.fg, bg: self.bg, modifiers: self.modifiers }
    }

    fn to_style(&self) -> (style: Style)
        ensures
            style == self.style(),
    {
        Style { fg: self.fg, bg: self.bg, modifiers: self.modifiers }
    }

    pub fn set_c(&mut self, c: char) -> (glyph: &mut Glyph)
        ensures
            *glyph == (Glyph { c, ..*old(self) }),
            *final(self) == *final(glyph),
    {
        self.c = c;
        self
    }

    pub fn set_modifiers(&mut self, modifiers: Modifiers) -> (glyph: &mut Glyph)
        ensures
            *glyph == (Glyph { modifiers, ..*old(self) }),
            *final(self) == *final(glyph),
    {
        self.modifiers = modifiers;
        self
    }

    pub fn set_fg(&mut self, fg: Color) -> (glyph: &mut Glyph)
        ensures
            *glyph == (Glyph { fg, ..*old(self) }),
            *final(self) == *final(glyph),
    {
        self.fg = fg;
        self
    }

    pub fn set_bg(&mut self, bg: Color) -> (glyph: &mut Glyph)
        ensures
            *glyph == (Glyph { bg, ..*old(self) }),
            *final(self) == *final(glyph),
    {
        self.bg = bg;
        self
    }
}

impl Default for Glyph {
    fn default() -> (glyph: Glyph)
        ensures
            glyph == Glyph::blank(),
    {
        Glyph { c: ' ', modifiers: Modifiers::none(), fg: Color::black(), bg: Color::black() }
    }
}

/// What a buffer holds: its size, and its glyphs in row-major order.
pub struct BufferView {
    pub lines: u16,
    pub cols: u16,
    pub cells: Seq<Glyph>,
}

impl BufferView {
    /// There is one glyph for every position.
    pub open spec fn wf(self) -> bool {
        self.cells.len() == self.lines * self.cols
    }

    /// Whether `(line, col)` is a position of the buffer.
    pub open spec fn holds(self, pos: (u16, u16)) -> bool {
        pos.0 < self.lines && pos.1 < self.cols
    }

    /// The glyph at a position.
    pub open spec fn at(self, pos: (u16, u16)) -> Glyph
        recommends
            self.holds(pos),
    {
        self.cells[pos.0 * self.cols + pos.1]
    }

    /// The buffer with one glyph replaced.
    pub open spec fn with(self, pos: (u16, u16), glyph: Glyph) -> BufferView {
        BufferView { cells: self.cells.update(pos.0 * self.cols + pos.1, glyph), ..self }
    }

    /// The buffer of a size with every glyph blank.
    pub open spec fn blank(lines: u16, cols: u16) -> BufferView {
        BufferView {
            lines,
            cols,
            cells: Seq::new((lines * cols) as nat, |i: int| Glyph::blank()),
        }
    }

    /// The glyph at an index of the buffer after it was given a new size:
    /// what stood at that position before, or a blank.
    pub open spec fn resized_cell(self, cols: u16, index: int) -> Glyph {
        if cols > 0 && index / (cols as int) < self.lines && index % (cols as int) < self.cols {
            self.cells[(index / (cols as int)) * self.cols + index % (cols as int)]
        } else {
            Glyph::blank()
        }
    }

    /// The buffer after it was given a new size: every glyph keeps its
    /// position, positions that are new are blank.
    pub open spec fn resized(self, lines: u16, cols: u16) -> BufferView {
        BufferView {
            lines,
            cols,
            cells: Seq::new((lines * cols) as nat, |i: int| self.resized_cell(cols, i)),
        }
    }

    /// What a flush sends: the style of the first glyph, the cursor home,
    /// both colors and the first glyph, then every other glyph with what
    /// changes before it.
    pub open spec fn flushed(self) -> Seq<char>
        recommends
            self.cells.len() > 0,
    {
        restyled(Style::plain(), self.cells[0].style(), Attribute::RapidBlink) + move_to_code(0, 0)
            + foreground_code(self.cells[0].fg) + background_code(self.cells[0].bg)
            + seq![self.cells[0].c] + self.flushed_from(1)
    }

    /// The commands for the glyphs from `index` on, each after its
    /// predecessor.
    pub open spec fn flushed_from(self, index: int) -> Seq<char>
        decreases self.cells.len() - index,
    {
        if index < 1 || index >= self.cells.len() {
            Seq::empty()
        } else {
            restyled(
                self.cells[index - 1].style(),
                self.cells[index].style(),
                Attribute::RapidBlink,
            ) + seq![self.cells[index].c] + self.flushed_from(index + 1)
        }
    }
}

/// A position of a buffer has an index among its glyphs.
pub proof fn lemma_index(lines: int, cols: int, line: int, col: int)
    requires
        0 <= line < lines <= 0xffff,
        0 <= col < cols <= 0xffff,
    ensures
        0 <= line * cols + col < lines * cols <= 0xffff * 0xffff,
        (line * cols + col) / cols == line,
        (line * cols + col) % cols == col,
{
    assert(0 <= line * cols + col < lines * cols <= 0xffff * 0xffff) by (nonlinear_arith)
        requires
            0 <= line < lines <= 0xffff,
            0 <= col < cols <= 0xffff,
    ;
    vstd::arithmetic::div_mod::lemma_fundamental_div_mod_converse(line * cols + col, cols, line, col);
}

/// An index below the number of glyphs belongs to a position.
pub proof fn lemma_position(lines: int, cols: int, index: int)
    requires
        0 <= lines <= 0xffff,
        0 <= cols <= 0xffff,
        0 <= index < lines * cols,
    ensures
        cols > 0,
        0 <= index / cols < lines,
        0 <= index % cols < cols,
        (index / cols) * cols + index % cols == index,
{
    assert(cols > 0) by (nonlinear_arith)
        requires
            0 <= index < lines * cols,
            0 <= lines,
            0 <= cols,
    ;
    vstd::arithmetic::div_mod::lemma_fundamental_div_mod(index, cols);
    vstd::arithmetic::div_mod::lemma_div_pos_is_pos(index, cols);
    assert(index / cols < lines) by (nonlinear_arith)
        requires
            0 <= index < lines * cols,
            cols > 0,
            index == cols * (index / cols) + index % cols,
            0 <= index % cols < cols,
    ;
    assert(cols * (index / cols) == (index / cols) * cols) by (nonlinear_arith);
}

/// A grid of glyphs.
pub struct Buffer {
    buf: Vec<Glyph>,
    lines: u16,
    cols: u16,
}

impl View for Buffer {
    type V = BufferView;

    closed spec fn view(&self) -> BufferView {
        BufferView { lines: self.lines, cols: self.cols, cells: self.buf@ }
    }
}

impl Clone for Buffer {
    fn clone(&self) -> (copy: Buffer)
        ensures
            copy@ == self@,
            copy@.wf(),
    {
        proof {
            use_type_invariant(self);
        }
        let buf = self.buf.clone();
        assert(buf@ =~= self.buf@);
        Buffer { buf, lines: self.lines, cols: self.cols }
    }
}

impl Buffer {
    #[verifier::type_invariant]
    spec fn inv(self) -> bool {
        self.buf@.len() == self.lines * self.cols
    }

    /// A buffer of blank glyphs.
    pub fn new(lines: u16, cols: u16) -> (buffer: Buffer)
        ensures
            buffer@ == BufferView::blank(lines, cols),
            buffer@.wf(),
    {
        proof {
            assert(lines * cols <= 0xffff * 0xffff) by (nonlinear_arith)
                requires
                    0 <= lines <= 0xffff,
                    0 <= cols <= 0xffff,
            ;
        }
        let area = lines as usize * cols as usize;
        let mut buf: Vec<Glyph> = Vec::with_capacity(area);
        while buf.len() < area
            invariant
                buf@.len() <= area,
                forall|i: int| 0 <= i < buf@.len() ==> buf@[i] == Glyph::blank(),
            decreases area - buf@.len(),
        {
            buf.push(Glyph::default());
        }
        assert(buf@ =~= BufferView::blank(lines, cols).cells);
        Buffer { buf, lines, cols }
    }

    pub fn size(&self) -> (size: (u16, u16))
        ensures
            size == (self@.lines, self@.cols),
            self@.wf(),
    {
        proof {
            use_type_invariant(self);
        }
        (self.lines, self.cols)
    }

    pub fn in_bounds(&self, pos: (u16, u16)) -> (inside: bool)
        ensures
            inside == self@.holds(pos),
    {
        pos.0 < self.lines && pos.1 < self.cols
    }

    /// The glyph at a position of the buffer.
    pub fn index(&self, pos: (u16, u16)) -> (glyph: &Glyph)
        requires
            self@.holds(pos),
        ensures
            *glyph == self@.at(pos),
    {
        proof {
            use_type_invariant(self);
            lemma_index(self.lines as int, self.cols as int, pos.0 as int, pos.1 as int);
        }
        &self.buf[pos.0 as usize * self.cols as usize + pos.1 as usize]
    }

    /// The glyph at a position of the buffer, to be written.
    pub fn index_mut(&mut self, pos: (u16, u16)) -> (glyph: &mut Glyph)
        requires
            old(self)@.holds(pos),
        ensures
            *glyph == old(self)@.at(pos),
            final(self)@ == old(self)@.with(pos, *final(glyph)),
            final(self)@.at(pos) == *final(glyph),
            final(self)@.wf(),
    {
        proof {
            use_type_invariant(&*self);
            lemma_index(self.lines as int, self.cols as int, pos.0 as int, pos.1 as int);
        }
        &mut self.buf[pos.0 as usize * self.cols as usize + pos.1 as usize]
    }

    /// The glyph at the top left.
    pub fn first(&self) -> (glyph: &Glyph)
        requires
            self@.cells.len() > 0,
        ensures
            *glyph == self@.cells[0],
    {
        &self.buf[0]
    }

    /// Every pair of neighbouring glyphs in the row-major order.
    pub fn pairs(&self) -> (pairs: Vec<&[Glyph]>)
        ensures
            pairs@.len() == (if self@.cells.len() > 0 {
                self@.cells.len() - 1
            } else {
                0
            }),
            forall|i: int|
                0 <= i < pairs@.len() ==> (#[trigger] pairs@[i])@ == self@.cells.subrange(i, i + 2),
    {
        let mut pairs: Vec<&[Glyph]> = Vec::new();
        let cells = self.buf.as_slice();
        if cells.len() < 2 {
            return pairs;
        }
        let count = cells.len() - 1;
        let mut from: usize = 0;
        while from < count
            invariant
                from <= count,
                count == cells@.len() - 1,
                cells@.len() <= usize::MAX,
                cells@ == self.buf@,
                pairs@.len() == from,
                forall|i: int|
                    0 <= i < from ==> (#[trigger] pairs@[i])@ == cells@.subrange(i, i + 2),
            decreases count - from,
        {
            pairs.push(slice_subrange(cells, from, from + 2));
            from = from + 1;
        }
        pairs
    }

    /// Gives the buffer a new size. Every glyph keeps its position; what no
    /// longer fits is dropped, and positions that are new are blank.
    pub fn resize(&mut self, new_lines: u16, new_cols: u16)
        ensures
            final(self)@ == old(self)@.resized(new_lines, new_cols),
            final(self)@.wf(),
    {
        proof {
            use_type_invariant(&*self);
        }
        let mut grown = Buffer::new(new_lines, new_cols);
        let lines = if self.lines < new_lines {
            self.lines
        } else {
            new_lines
        };
        let cols = if self.cols < new_cols {
            self.cols
        } else {
            new_cols
        };
        proof {
            assert forall|l: u16, c: u16| l < new_lines && c < new_cols implies #[trigger]
                grown@.at((l, c)) == Glyph::blank() by {
                lemma_index(new_lines as int, new_cols as int, l as int, c as int);
            }
        }
        let mut line: u16 = 0;
        while line < lines
            invariant
                line <= lines,
                lines <= self.lines,
                lines <= new_lines,
                cols <= self.cols,
                cols <= new_cols,
                self@.wf(),
                grown@.wf(),
                grown@.lines == new_lines,
                grown@.cols == new_cols,
                forall|l: u16, c: u16|
                    l < new_lines && c < new_cols ==> #[trigger] grown@.at((l, c)) == (if l < line
                        && c < cols {
                        self@.at((l, c))
                    } else {
                        Glyph::blank()
                    }),
            decreases lines - line,
        {
            let mut col: u16 = 0;
            while col < cols
                invariant
                    line < lines,
                    col <= cols,
                    lines <= self.lines,
                    lines <= new_lines,
                    cols <= self.cols,
                    cols <= new_cols,
                    self@.wf(),
                    grown@.wf(),
                    grown@.lines == new_lines,
                    grown@.cols == new_cols,
                    forall|l: u16, c: u16|
                        l < new_lines && c < new_cols ==> #[trigger] grown@.at((l, c)) == (if (l
                            < line && c < cols) || (l == line && c < col) {
                            self@.at((l, c))
                        } else {
                            Glyph::blank()
                        }),
                decreases cols - col,
            {
                let glyph = *self.index((line, col));
                let ghost before = grown@;
                *grown.index_mut((line, col)) = glyph;
                proof {
                    assert forall|l: u16, c: u16| l < new_lines && c < new_cols implies #[trigger]
                        grown@.at((l, c)) == (if (l < line && c < cols) || (l == line && c < col
                        + 1) {
                        self@.at((l, c))
                    } else {
                        Glyph::blank()
                    }) by {
                        lemma_index(new_lines as int, new_cols as int, l as int, c as int);
                        lemma_index(new_lines as int, new_cols as int, line as int, col as int);
                        assert(before.at((l, c)) == (if (l < line && c < cols) || (l == line && c
                            < col) {
                            self@.at((l, c))
                        } else {
                            Glyph::blank()
                        }));
                    }
                }
                col = col + 1;
            }
            line = line + 1;
        }
        proof {
            let target = self@.resized(new_lines, new_cols);
            assert forall|i: int| 0 <= i < grown@.cells.len() implies grown@.cells[i]
                == target.cells[i] by {
                lemma_position(new_lines as int, new_cols as int, i);
                let l = (i / (new_cols as int)) as u16;
                let c = (i % (new_cols as int)) as u16;
                assert(grown@.at((l, c)) == grown@.cells[i]);
            }
            assert(grown@.cells =~= target.cells);
        }
        *self = grown;
    }

    /// Appends to `writer` the commands that show the buffer.
    pub fn flush(&self, writer: &mut String)
        requires
            self@.cells.len() > 0,
        ensures
            final(writer)@ == old(writer)@ + self@.flushed(),
    {
        let first = *self.first();
        update_style(writer, plain_style(), first.to_style(), Attribute::RapidBlink);
        queue_move_to(writer, 0, 0);
        queue_foreground(writer, first.fg);
        queue_background(writer, first.bg);
        queue_print(writer, first.c);
        let ghost head = writer@;
        assert(head =~= old(writer)@ + (restyled(
            Style::plain(),
            first.style(),
            Attribute::RapidBlink,
        ) + move_to_code(0, 0) + foreground_code(first.fg) + background_code(first.bg)
            + seq![first.c]));
        let pairs = self.pairs();
        let mut done: usize = 0;
        while done < pairs.len()
            invariant
                done <= pairs@.len(),
                pairs@.len() == self@.cells.len() - 1,
                forall|i: int|
                    0 <= i < pairs@.len() ==> (#[trigger] pairs@[i])@ == self@.cells.subrange(
                        i,
                        i + 2,
                    ),
                writer@ + self@.flushed_from(done + 1) == head + self@.flushed_from(1),
            decreases pairs@.len() - done,
        {
            let pair = pairs[done];
            assert(pair@ == self@.cells.subrange(done as int, done + 2));
            assert(pair@[0] == self@.cells[done as int]);
            assert(pair@[1] == self@.cells[done + 1]);
            let ghost before = writer@;
            set_term_attrs(writer, &pair[0], &pair[1]);
            queue_print(writer, pair[1].c);
            assert(writer@ + self@.flushed_from(done + 2) =~= before + self@.flushed_from(
                done + 1,
            ));
            done = done + 1;
        }
        assert(writer@ =~= writer@ + self@.flushed_from(done + 1));
        assert(writer@ =~= old(writer)@ + self@.flushed());
    }
}

/// Black on black, without modifiers.
fn plain_style() -> (style: Style)
    ensures
        style == Style::plain(),
{
    Style { fg: Color::black(), bg: Color::black(), modifiers: Modifiers::none() }
}

/// Appends the commands that bring the terminal from the style of `from`
/// to that of `to`.
pub fn set_term_attrs(writer: &mut String, from: &Glyph, to: &Glyph)
    ensures
        final(writer)@ == old(writer)@ + restyled(
            from.style(),
            to.style(),
            Attribute::RapidBlink,
        ),
{
    update_style(writer, from.to_style(), to.to_style(), Attribute::RapidBlink);
}

/// A glyph of a text with the place on the screen that the layout gives it.
pub open spec fn placed(c: char, line: int, col: int) -> Seq<(char, (u16, u16))> {
    if 0 <= line <= 0xffff && 0 <= col <= 0xffff {
        seq![(c, (line as u16, col as u16))]
    } else {
        Seq::empty()
    }
}

/// The layout of `text` from the glyph at `index` on, when `offset` glyphs
/// stand on the current line already. The text starts at `(line, col)`
/// inside `bounds`. A newline begins the next line; so does a line that is
/// as wide as the bounds, unless it is the last line that the bounds have
/// room for, where the layout ends. Every line begins at column `col`.
/// Places that do not fit in `u16` are left out.
pub open spec fn laid(
    text: Seq<char>,
    index: int,
    offset: int,
    line: int,
    col: int,
    bounds: Rectangle,
) -> Seq<(char, (u16, u16))>
    decreases text.len() - index, bounds.height - line,
{
    if index < 0 || index >= text.len() {
        Seq::empty()
    } else if text[index] == '\n' {
        laid(text, index + 1, 0, line + 1, col, bounds)
    } else if offset == bounds.width {
        if line < bounds.height - 1 {
            laid(text, index, 0, line + 1, col, bounds)
        } else {
            Seq::empty()
        }
    } else {
        placed(text[index], bounds.line + line, bounds.col + col + offset) + laid(
            text,
            index + 1,
            offset + 1,
            line,
            col,
            bounds,
        )
    }
}

/// Bounds without width have room for no glyph.
pub proof fn lemma_no_width(text: Seq<char>, index: int, line: int, col: int, bounds: Rectangle)
    requires
        bounds.width == 0,
        0 <= index < text.len(),
        text[index] != '\n',
    ensures
        laid(text, index, 0, line, col, bounds) == Seq::<(char, (u16, u16))>::empty(),
    decreases bounds.height - line,
{
    if line < bounds.height - 1 {
        lemma_no_width(text, index, line + 1, col, bounds);
    }
}

/// Below the last line that `u16` can name, nothing is placed.
pub proof fn lemma_below_screen(
    text: Seq<char>,
    index: int,
    offset: int,
    line: int,
    col: int,
    bounds: Rectangle,
)
    requires
        line > 0xffff,
        0 <= index,
    ensures
        laid(text, index, offset, line, col, bounds) == Seq::<(char, (u16, u16))>::empty(),
    decreases text.len() - index,
{
    if index < text.len() {
        if text[index] == '\n' {
            lemma_below_screen(text, index + 1, 0, line + 1, col, bounds);
        } else if offset != bounds.width {
            lemma_below_screen(text, index + 1, offset + 1, line, col, bounds);
        }
    }
}

/// Lays out `text` from `pos` inside `bounds`: the glyphs that are shown,
/// in order, each with its place on the screen.
pub fn map_text_bounds(text: &str, pos: (u16, u16), bounds: Rectangle) -> (places: Vec<
    (char, (u16, u16)),
>)
    ensures
        places@ == laid(text@, 0, 0, pos.0 as int, pos.1 as int, bounds),
{
    let mut places: Vec<(char, (u16, u16))> = Vec::new();
    let mut chars = text.chars();
    let ghost mut index: int = 0;
    let mut offset: u16 = 0;
    let mut line: u32 = pos.0 as u32;
    let ghost whole = laid(text@, 0, 0, pos.0 as int, pos.1 as int, bounds);
    loop
        invariant_except_break
            0 <= index <= text@.len(),
            offset <= bounds.width,
            line <= 0xffff,
            chars.remaining() == text@.skip(index),
            chars.obeys_prophetic_iter_laws(),
            places@ + laid(text@, index, offset as int, line as int, pos.1 as int, bounds)
                == whole,
        ensures
            places@ == whole,
        decreases text@.len() - index,
    {
        let ghost before = places@;
        let ghost rest = laid(text@, index, offset as int, line as int, pos.1 as int, bounds);
        match chars.next() {
            None => {
                assert(places@ =~= places@ + rest);
                break ;
            },
            Some(c) => {
                assert(text@.skip(index)[0] == text@[index]);
                assert(text@.skip(index).drop_first() =~= text@.skip(index + 1));
                if c == '\n' {
                    line = line + 1;
                    offset = 0;
                } else {
                    if offset == bounds.width {
                        if bounds.height == 0 || line >= (bounds.height - 1) as u32 {
                            assert(places@ =~= places@ + rest);
                            break ;
                        }
                        line = line + 1;
                        offset = 0;
                        assert(laid(text@, index, 0, line as int, pos.1 as int, bounds) == rest);
                        if bounds.width == 0 {
                            proof {
                                lemma_no_width(text@, index, line as int, pos.1 as int, bounds);
                            }
                            assert(places@ =~= places@ + rest);
                            break ;
                        }
                    }
                    let to_line = bounds.line as u32 + line;
                    let to_col = bounds.col as u32 + pos.1 as u32 + offset as u32;
                    assert(rest == placed(c, to_line as int, to_col as int) + laid(
                        text@,
                        index + 1,
                        offset + 1,
                        line as int,
                        pos.1 as int,
                        bounds,
                    ));
                    if to_line <= 0xffff && to_col <= 0xffff {
                        places.push((c, (to_line as u16, to_col as u16)));
                    }
                    assert(places@ =~= before + placed(c, to_line as int, to_col as int));
                    offset = offset + 1;
                }
                proof {
                    index = index + 1;
                }
                assert(places@ + laid(
                    text@,
                    index,
                    offset as int,
                    line as int,
                    pos.1 as int,
                    bounds,
                ) =~= before + rest);
                if line > 0xffff {
                    proof {
                        lemma_below_screen(
                            text@,
                            index,
                            offset as int,
                            line as int,
                            pos.1 as int,
                            bounds,
                        );
                    }
                    assert(places@ =~= before + rest);
                    break ;
                }
            },
        }
    }
    places
}

/// Something that can draw itself.
pub trait Element {
    fn view(&mut self, canvas: &mut Canvas);
}

/// The buffer after a glyph was put at a place; a place outside the buffer
/// is passed over.
pub open spec fn put(
    view: BufferView,
    place: (char, (u16, u16)),
    modifiers: Modifiers,
    fg: Color,
    bg: Color,
) -> BufferView {
    if view.holds(place.1) {
        view.with(place.1, Glyph { c: place.0, modifiers, fg, bg })
    } else {
        view
    }
}

/// The buffer after the glyphs of a layout were put at their places, one
/// after the other.
pub open spec fn inked(
    view: BufferView,
    places: Seq<(char, (u16, u16))>,
    modifiers: Modifiers,
    fg: Color,
    bg: Color,
) -> BufferView
    decreases places.len(),
{
    if places.len() == 0 {
        view
    } else {
        put(inked(view, places.drop_last(), modifiers, fg, bg), places.last(), modifiers, fg, bg)
    }
}

/// What a draw is made of when it is put to the buffer.
pub struct DrawView {
    pub buffer: BufferView,
    pub text: Seq<char>,
    pub line: u16,
    pub col: u16,
    pub bounds: Rectangle,
    pub modifiers: Modifiers,
    pub fg: Color,
    pub bg: Color,
}

impl DrawView {
    /// The buffer after the draw.
    pub open spec fn inked(self) -> BufferView {
        inked(
            self.buffer,
            laid(self.text, 0, 0, self.line as int, self.col as int, self.bounds),
            self.modifiers,
            self.fg,
            self.bg,
        )
    }
}

/// A draw in the making: text, where it goes and how it looks. Nothing is
/// drawn before `ink` is called.
pub struct DrawBuilder<'buffer> {
    pub buffer: &'buffer mut Buffer,
    pub text: String,
    pub line: u16,
    pub col: u16,
    pub bounds: Rectangle,
    pub modifiers: Modifiers,
    pub fg: Color,
    pub bg: Color,
}

impl<'buffer> View for DrawBuilder<'buffer> {
    type V = DrawView;

    open spec fn view(&self) -> DrawView {
        DrawView {
            buffer: self.buffer@,
            text: self.text@,
            line: self.line,
            col: self.col,
            bounds: self.bounds,
            modifiers: self.modifiers,
            fg: self.fg,
            bg: self.bg,
        }
    }
}

impl<'buffer> DrawBuilder<'buffer> {
    /// A draw of `text` at the top left, black on black, bounded by the
    /// buffer.
    pub fn new(buffer: &'buffer mut Buffer, text: String) -> (builder: DrawBuilder<'buffer>)
        ensures
            builder@ == (DrawView {
                buffer: old(buffer)@,
                text: text@,
                line: 0,
                col: 0,
                bounds: Rectangle {
                    line: 0,
                    col: 0,
                    height: old(buffer)@.lines,
                    width: old(buffer)@.cols,
                },
                modifiers: Modifiers { bits: 0 },
                fg: Color { r: 0, g: 0, b: 0 },
                bg: Color { r: 0, g: 0, b: 0 },
            }),
            builder@.buffer.wf(),
            *final(buffer) == *final(builder.buffer),
    {
        let size = buffer.size();
        let bounds = Rectangle::new((0, 0), size);
        DrawBuilder {
            buffer,
            text,
            line: 0,
            col: 0,
            bounds,
            fg: Color::default(),
            bg: Color::default(),
            modifiers: Modifiers::none(),
        }
    }

    /// Puts the text to the buffer.
    pub fn ink(self)
        ensures
            final(self.buffer)@ == self@.inked(),
    {
        let places = map_text_bounds(self.text.as_str(), (self.line, self.col), self.bounds);
        let buffer = self.buffer;
        let ghost start = buffer@;
        let mut done: usize = 0;
        assert(places@.take(0) =~= Seq::<(char, (u16, u16))>::empty());
        while done < places.len()
            invariant
                done <= places@.len(),
                buffer@ == inked(
                    start,
                    places@.take(done as int),
                    self.modifiers,
                    self.fg,
                    self.bg,
                ),
                *final(buffer) == *final(self.buffer),
            decreases places@.len() - done,
        {
            let place = places[done];
            proof {
                assert(places@.take(done + 1).drop_last() =~= places@.take(done as int));
                assert(places@.take(done + 1).last() == place);
            }
            if buffer.in_bounds(place.1) {
                *buffer.index_mut(place.1) = Glyph {
                    c: place.0,
                    modifiers: self.modifiers,
                    fg: self.fg,
                    bg: self.bg,
                };
            }
            done = done + 1;
        }
        assert(places@.take(done as int) =~= places@);
    }

    /// Sets where the text begins.
    pub fn at(self, pos: (u16, u16)) -> (builder: DrawBuilder<'buffer>)
        ensures
            builder@ == (DrawView { line: pos.0, col: pos.1, ..self@ }),
            *final(builder.buffer) == *final(self.buffer),
    {
        let mut builder = self;
        builder.line = pos.0;
        builder.col = pos.1;
        builder
    }

    /// Sets the number of lines that the text may take.
    pub fn max_height(self, max_height: u16) -> (builder: DrawBuilder<'buffer>)
        ensures
            builder@ == (DrawView {
                bounds: Rectangle { height: max_height, ..self@.bounds },
                ..self@
            }),
            *final(builder.buffer) == *final(self.buffer),
    {
        let mut builder = self;
        builder.bounds.height = max_height;
        builder
    }

    /// Sets the width at which the text wraps.
    pub fn max_width(self, max_width: u16) -> (builder: DrawBuilder<'buffer>)
        ensures
            builder@ == (DrawView {
                bounds: Rectangle { width: max_width, ..self@.bounds },
                ..self@
            }),
            *final(builder.buffer) == *final(self.buffer),
    {
        let mut builder = self;
        builder.bounds.width = max_width;
        builder
    }

    pub fn modifiers(self, modifiers: Modifiers) -> (builder: DrawBuilder<'buffer>)
        ensures
            builder@ == (DrawView { modifiers, ..self@ }),
            *final(builder.buffer) == *final(self.buffer),
    {
        let mut builder = self;
        builder.modifiers = modifiers;
        builder
    }

    pub fn fg(self, fg: Color) -> (builder: DrawBuilder<'buffer>)
        ensures
            builder@ == (DrawView { fg, ..self@ }),
            *final(builder.buffer) == *final(self.buffer),
    {
        let mut builder = self;
        builder.fg = fg;
        builder
    }

    pub fn bg(self, bg: Color) -> (builder: DrawBuilder<'buffer>)
        ensures
            builder@ == (DrawView { bg, ..self@ }),
            *final(builder.buffer) == *final(self.buffer),
    {
        let mut builder = self;
        builder.bg = bg;
        builder
    }
}

/// The surface that a frame is drawn on.
pub struct Canvas<'buffer> {
    pub buffer: &'buffer mut Buffer,
}

impl<'buffer> View for Canvas<'buffer> {
    type V = BufferView;

    open spec fn view(&self) -> BufferView {
        self.buffer@
    }
}

impl<'buffer> Canvas<'buffer> {
    /// A canvas over `buffer`; what is drawn on the canvas is in the buffer
    /// once the canvas is gone.
    pub fn new(buffer: &'buffer mut Buffer) -> (canvas: Canvas<'buffer>)
        ensures
            canvas@ == old(buffer)@,
            canvas@.wf(),
            *final(buffer) == *final(canvas.buffer),
    {
        let _ = buffer.size();
        Canvas { buffer }
    }

    /// Begins a draw of `text`.
    pub fn draw<'canvas>(&'canvas mut self, text: &str) -> (builder: DrawBuilder<'canvas>)
        ensures
            builder@ == (DrawView {
                buffer: old(self)@,
                text: text@,
                line: 0,
                col: 0,
                bounds: Rectangle {
                    line: 0,
                    col: 0,
                    height: old(self)@.lines,
                    width: old(self)@.cols,
                },
                modifiers: Modifiers { bits: 0 },
                fg: Color { r: 0, g: 0, b: 0 },
                bg: Color { r: 0, g: 0, b: 0 },
            }),
            *final(self).buffer == *final(builder.buffer),
            *final(final(self).buffer) == *final(old(self).buffer),
    {
        DrawBuilder::new(&mut *self.buffer, text.to_owned())
    }

    /// Lets an element draw itself: the element's `view` is called once,
    /// with this canvas.
    pub fn draw_element<E: Element>(&mut self, element: E)
        ensures
            exists|drawer: &mut E, canvas: &mut Canvas|
                *drawer == element && *canvas == *old(self) && *final(canvas) == *final(self)
                    && #[trigger] call_ensures(E::view, (drawer, canvas), ()),
    {
        let mut element = element;
        element.view(self);
    }

    /// Multiplies both colors of the glyph at `pos` by `numer / denom`.
    pub fn lighten(&mut self, numer: u32, denom: u32, pos: (u16, u16))
        requires
            denom > 0,
            old(self)@.holds(pos),
        ensures
            final(self)@ == old(self)@.with(
                pos,
                Glyph {
                    fg: old(self)@.at(pos).fg.scaled(numer, denom),
                    bg: old(self)@.at(pos).bg.scaled(numer, denom),
                    ..old(self)@.at(pos)
                },
            ),
            *final(final(self).buffer) == *final(old(self).buffer),
    {
        let glyph = self.buffer.index_mut(pos);
        glyph.fg = glyph.fg.scale(numer, denom);
        glyph.bg = glyph.bg.scale(numer, denom);
    }

    pub fn size(&self) -> (size: (u16, u16))
        ensures
            size == (self@.lines, self@.cols),
            self@.wf(),
    {
        self.buffer.size()
    }

    pub fn in_bounds(&self, pos: (u16, u16)) -> (inside: bool)
        ensures
            inside == self@.holds(pos),
    {
        self.buffer.in_bounds(pos)
    }
}

/// A draw that is made again and again while the interface waits for
/// input. Times are in nanoseconds.
pub struct Glimmer<V> {
    /// The time until the next draw.
    pub timeout: u128,
    /// The time from one draw to the next.
    pub interval: u128,
    /// What is drawn.
    pub view: V,
}

impl<V> Glimmer<V> {
    /// A glimmer that is first drawn after one interval.
    pub fn new(interval: u128, view: V) -> (glimmer: Glimmer<V>)
        ensures
            glimmer.timeout == interval,
            glimmer.interval == interval,
            glimmer.view == view,
    {
        Glimmer { timeout: interval, interval, view }
    }
}

/// Whether the glimmers stand in the order of their timeouts, the longest
/// first.
pub open spec fn ordered<V>(glimmers: Seq<Glimmer<V>>) -> bool {
    forall|i: int, j: int|
        0 <= i <= j < glimmers.len() ==> glimmers[i].timeout >= glimmers[j].timeout
}

/// The glimmers with `elapsed` taken off every timeout.
pub open spec fn elapsed_by<V>(glimmers: Seq<Glimmer<V>>, elapsed: u128) -> Seq<Glimmer<V>> {
    Seq::new(glimmers.len(), |i: int| sooner(glimmers[i], elapsed))
}

/// The glimmer with `elapsed` taken off its timeout.
pub open spec fn sooner<V>(glimmer: Glimmer<V>, elapsed: u128) -> Glimmer<V> {
    Glimmer { timeout: (glimmer.timeout - elapsed) as u128, ..glimmer }
}

/// The glimmer with a full interval to wait again.
pub open spec fn rescheduled<V>(glimmer: Glimmer<V>) -> Glimmer<V> {
    Glimmer { timeout: glimmer.interval, ..glimmer }
}

/// The scheduled glimmers, the one that is due first at the end.
pub struct Glimmers<V>(Vec<Glimmer<V>>);

impl<V> View for Glimmers<V> {
    type V = Seq<Glimmer<V>>;

    closed spec fn view(&self) -> Seq<Glimmer<V>> {
        self.0@
    }
}

impl<V> Glimmers<V> {
    #[verifier::type_invariant]
    spec fn inv(self) -> bool {
        ordered(self.0@)
    }

    pub fn new() -> (glimmers: Glimmers<V>)
        ensures
            glimmers@ == Seq::<Glimmer<V>>::empty(),
    {
        Glimmers(Vec::new())
    }

    /// Schedules a glimmer: it is put where the order of the timeouts is
    /// kept.
    pub fn push(&mut self, glimmer: Glimmer<V>)
        ensures
            ordered(final(self)@),
            exists|at: int|
                0 <= at <= old(self)@.len() && #[trigger] old(self)@.insert(at, glimmer)
                    == final(self)@,
    {
        proof {
            use_type_invariant(&*self);
        }
        let mut low: usize = 0;
        let mut high: usize = self.0.len();
        while low < high
            invariant
                low <= high <= self.0@.len(),
                ordered(self.0@),
                forall|i: int| 0 <= i < low ==> self.0@[i].timeout >= glimmer.timeout,
                forall|i: int| high <= i < self.0@.len() ==> self.0@[i].timeout <= glimmer.timeout,
            decreases high - low,
        {
            let middle = low + (high - low) / 2;
            if self.0[middle].timeout >= glimmer.timeout {
                low = middle + 1;
            } else {
                high = middle;
            }
        }
        let mut taken: Glimmers<V> = Glimmers(Vec::new());
        core::mem::swap(self, &mut taken);
        let mut list = taken.0;
        let ghost before = list@;
        list.insert(low, glimmer);
        assert(list@ == before.insert(low as int, glimmer));
        assert(ordered(list@)) by {
            assert forall|i: int, j: int| 0 <= i <= j < list@.len() implies list@[i].timeout
                >= list@[j].timeout by {
                let from = if i < low {
                    i
                } else {
                    i - 1
                };
                let to = if j < low {
                    j
                } else {
                    j - 1
                };
                if i != low && j != low {
                    assert(before[from].timeout >= before[to].timeout);
                }
            }
        }
        *self = Glimmers(list);
        assert(old(self)@.insert(low as int, glimmer) == self@);
    }

    /// Drops every glimmer.
    pub fn clear(&mut self)
        ensures
            final(self)@ == Seq::<Glimmer<V>>::empty(),
    {
        *self = Glimmers(Vec::new());
    }

    pub fn is_empty(&self) -> (empty: bool)
        ensures
            empty == (self@.len() == 0),
    {
        self.0.len() == 0
    }

    pub fn len(&self) -> (count: usize)
        ensures
            count == self@.len(),
            ordered(self@),
    {
        proof {
            use_type_invariant(self);
        }
        self.0.len()
    }

    /// The time until the glimmer that is due first.
    pub fn next_timeout(&self) -> (timeout: u128)
        requires
            self@.len() > 0,
        ensures
            timeout == self@.last().timeout,
            forall|i: int| 0 <= i < self@.len() ==> self@[i].timeout >= timeout,
    {
        proof {
            use_type_invariant(self);
        }
        self.0[self.0.len() - 1].timeout
    }

    /// Takes out the glimmer that is due first.
    pub fn pop(&mut self) -> (glimmer: Option<Glimmer<V>>)
        ensures
            old(self)@.len() == 0 ==> glimmer is None && final(self)@ == old(self)@,
            old(self)@.len() > 0 ==> glimmer == Some(old(self)@.last()) && final(self)@
                == old(self)@.drop_last(),
            ordered(final(self)@),
    {
        proof {
            use_type_invariant(&*self);
        }
        let mut taken: Glimmers<V> = Glimmers(Vec::new());
        core::mem::swap(self, &mut taken);
        let mut list = taken.0;
        let glimmer = list.pop();
        *self = Glimmers(list);
        glimmer
    }

    /// Takes `elapsed` off every timeout.
    pub fn decrement_timeouts(&mut self, elapsed: u128)
        requires
            old(self)@.len() > 0 ==> elapsed <= old(self)@.last().timeout,
        ensures
            final(self)@ == elapsed_by(old(self)@, elapsed),
            ordered(final(self)@),
    {
        proof {
            use_type_invariant(&*self);
        }
        let mut taken: Glimmers<V> = Glimmers(Vec::new());
        core::mem::swap(self, &mut taken);
        let mut list = taken.0;
        let ghost before = list@;
        let mut done: usize = 0;
        while done < list.len()
            invariant
                done <= list@.len(),
                list@.len() == before.len(),
                before.len() > 0 ==> elapsed <= before.last().timeout,
                ordered(before),
                forall|i: int| 0 <= i < done ==> #[trigger] list@[i] == sooner(before[i], elapsed),
                forall|i: int| done <= i < list@.len() ==> #[trigger] list@[i] == before[i],
            decreases list@.len() - done,
        {
            assert(before[done as int].timeout >= before.last().timeout);
            let timeout = list[done].timeout - elapsed;
            list[done].timeout = timeout;
            done = done + 1;
        }
        assert(list@ =~= elapsed_by(before, elapsed));
        assert(ordered(list@)) by {
            assert forall|i: int, j: int| 0 <= i <= j < list@.len() implies list@[i].timeout
                >= list@[j].timeout by {
                assert(before[i].timeout >= before[j].timeout);
                assert(before[j].timeout >= before.last().timeout);
            }
        }
        *self = Glimmers(list);
    }
}

/// What an interface holds: the size of the terminal, the buffer of the
/// last frame, and the scheduled glimmers.
pub struct UiView<V> {
    pub lines: u16,
    pub cols: u16,
    pub buffer: BufferView,
    pub glimmers: Seq<Glimmer<V>>,
}

/// The commands that take over the terminal: reset the attributes, hide the
/// cursor, and switch to the alternate screen.
pub open spec fn setup_code() -> Seq<char> {
    sgr_code(Attribute::Reset.sgr()) + hide_cursor_code() + enter_alternate_screen_code()
}

/// The commands that hand the terminal back.
pub open spec fn teardown_code() -> Seq<char> {
    sgr_code(Attribute::Reset.sgr()) + show_cursor_code() + leave_alternate_screen_code()
}

/// The least of two times.
pub open spec fn least(a: u128, b: u128) -> u128 {
    if a <= b {
        a
    } else {
        b
    }
}

/// The state of the interface between frames. It writes nothing by
/// itself: every function appends the commands for the terminal to a
/// `String`, which the caller sends on.
pub struct Ui<V> {
    lines: u16,
    cols: u16,
    buffer: Buffer,
    pub glimmers: Glimmers<V>,
}

impl<V> View for Ui<V> {
    type V = UiView<V>;

    closed spec fn view(&self) -> UiView<V> {
        UiView {
            lines: self.lines,
            cols: self.cols,
            buffer: self.buffer@,
            glimmers: self.glimmers@,
        }
    }
}

impl<V> Ui<V> {
    /// An interface for a terminal of the given size. Appends the commands
    /// that take over the terminal and show a blank buffer.
    pub fn new(lines: u16, cols: u16, writer: &mut String) -> (ui: Ui<V>)
        requires
            lines > 0,
            cols > 0,
        ensures
            ui@ == (UiView::<V> {
                lines,
                cols,
                buffer: BufferView::blank(lines, cols),
                glimmers: Seq::empty(),
            }),
            final(writer)@ == old(writer)@ + setup_code() + BufferView::blank(lines, cols).flushed(),
    {
        queue_attribute(writer, Attribute::Reset);
        queue_hide_cursor(writer);
        queue_enter_alternate_screen(writer);
        assert(writer@ =~= old(writer)@ + setup_code());
        let buffer = Buffer::new(lines, cols);
        proof {
            lemma_index(lines as int, cols as int, 0, 0);
        }
        buffer.flush(writer);
        Ui { lines, cols, buffer, glimmers: Glimmers::new() }
    }

    /// Appends the commands that hand the terminal back.
    pub fn leave(writer: &mut String)
        ensures
            final(writer)@ == old(writer)@ + teardown_code(),
    {
        queue_attribute(writer, Attribute::Reset);
        queue_show_cursor(writer);
        queue_leave_alternate_screen(writer);
        assert(writer@ =~= old(writer)@ + teardown_code());
    }

    pub fn size(&self) -> (size: (u16, u16))
        ensures
            size == (self@.lines, self@.cols),
    {
        (self.lines, self.cols)
    }

    /// Takes note of the size that the terminal reports.
    pub fn resize(&mut self, lines: u16, cols: u16)
        ensures
            final(self)@ == (UiView { lines, cols, ..old(self)@ }),
    {
        self.lines = lines;
        self.cols = cols;
    }

    /// Runs `f` on a blank buffer of the terminal's size and appends the
    /// flush of what it drew.
    pub fn render<F: FnOnce(Canvas)>(&mut self, f: F, writer: &mut String)
        requires
            old(self)@.lines > 0,
            old(self)@.cols > 0,
            forall|canvas: Canvas|
                canvas@ == BufferView::blank(old(self)@.lines, old(self)@.cols)
                    ==> #[trigger] f.requires((canvas,)),
            forall|canvas: Canvas| #[trigger]
                f.ensures((canvas,), ()) ==> final(canvas.buffer)@.lines == canvas@.lines && final(canvas.buffer)@.cols == canvas@.cols,
        ensures
            final(self)@.lines == old(self)@.lines,
            final(self)@.cols == old(self)@.cols,
            final(self)@.glimmers == old(self)@.glimmers,
            final(self)@.buffer.wf(),
            final(writer)@ == old(writer)@ + final(self)@.buffer.flushed(),
            exists|canvas: Canvas|
                canvas@ == BufferView::blank(old(self)@.lines, old(self)@.cols) && final(canvas.buffer)@ == final(self)@.buffer && #[trigger] f.ensures((canvas,), ()),
    {
        self.buffer = Buffer::new(self.lines, self.cols);
        let canvas = Canvas::new(&mut self.buffer);
        let ghost shown = canvas;
        f(canvas);
        assert(f.ensures((shown,), ()));
        let _ = self.buffer.size();
        proof {
            lemma_index(self.lines as int, self.cols as int, 0, 0);
        }
        self.buffer.flush(writer);
    }

    /// Brings the buffer to the size of the terminal and appends its flush.
    pub fn flush(&mut self, writer: &mut String)
        requires
            old(self)@.lines > 0,
            old(self)@.cols > 0,
        ensures
            final(self)@ == (UiView {
                buffer: old(self)@.buffer.resized(old(self)@.lines, old(self)@.cols),
                ..old(self)@
            }),
            final(writer)@ == old(writer)@ + final(self)@.buffer.flushed(),
    {
        self.buffer.resize(self.lines, self.cols);
        proof {
            lemma_index(self.lines as int, self.cols as int, 0, 0);
        }
        self.buffer.flush(writer);
    }

    /// Takes note of input that arrived `elapsed` into the wait for the
    /// next glimmer: the time that has passed, but no more than was waited
    /// for, is taken off every timeout.
    pub fn interrupted(&mut self, elapsed: u128)
        ensures
            final(self)@.lines == old(self)@.lines,
            final(self)@.cols == old(self)@.cols,
            final(self)@.buffer == old(self)@.buffer,
            old(self)@.glimmers.len() == 0 ==> final(self)@.glimmers == old(self)@.glimmers,
            old(self)@.glimmers.len() > 0 ==> final(self)@.glimmers == elapsed_by(
                old(self)@.glimmers,
                least(elapsed, old(self)@.glimmers.last().timeout),
            ),
    {
        if !self.glimmers.is_empty() {
            let timeout = self.glimmers.next_timeout();
            let spent = if elapsed <= timeout {
                elapsed
            } else {
                timeout
            };
            self.glimmers.decrement_timeouts(spent);
        }
    }
}

impl<V: FnMut(Canvas)> Ui<V> {
    /// Draws the glimmer that is due, after the wait for it has passed
    /// without input. Its timeout is taken off every glimmer; the glimmer
    /// draws on a copy of the last frame, brought to the terminal's size,
    /// and the flush of the copy is appended; then the glimmer is scheduled
    /// again, one interval on.
    pub fn glimmer(&mut self, writer: &mut String)
        requires
            old(self)@.glimmers.len() > 0,
            old(self)@.lines > 0,
            old(self)@.cols > 0,
            forall|canvas: Canvas| #[trigger] old(self)@.glimmers.last().view.requires((canvas,)),
            forall|canvas: Canvas| #[trigger]
                old(self)@.glimmers.last().view.ensures((canvas,), ()) ==> final(canvas.buffer)@.lines == canvas@.lines && final(canvas.buffer)@.cols == canvas@.cols,
        ensures
            final(self)@.lines == old(self)@.lines,
            final(self)@.cols == old(self)@.cols,
            final(self)@.buffer == old(self)@.buffer.resized(old(self)@.lines, old(self)@.cols),
            ordered(final(self)@.glimmers),
            exists|at: int|
                0 <= at < old(self)@.glimmers.len() && #[trigger] elapsed_by(
                    old(self)@.glimmers.drop_last(),
                    old(self)@.glimmers.last().timeout,
                ).insert(at, rescheduled(old(self)@.glimmers.last())) == final(self)@.glimmers,
            exists|canvas: Canvas|
                canvas@ == final(self)@.buffer && #[trigger] old(self)@.glimmers.last().view.ensures((canvas,), ()) && final(writer)@ == old(writer)@
                    + final(canvas.buffer)@.flushed(),
    {
        let ghost scheduled = self.glimmers@;
        let timeout = self.glimmers.next_timeout();
        self.glimmers.decrement_timeouts(timeout);
        let mut glimmer = self.glimmers.pop().unwrap();
        assert(glimmer == sooner(scheduled.last(), timeout));
        assert(self.glimmers@ =~= elapsed_by(scheduled.drop_last(), timeout));
        self.buffer.resize(self.lines, self.cols);
        let mut overlay = self.buffer.clone();
        let canvas = Canvas::new(&mut overlay);
        let ghost shown = canvas;
        let ghost callee = glimmer.view;
        (glimmer.view)(canvas);
        assert(callee.ensures((shown,), ()));
        let _ = overlay.size();
        proof {
            lemma_index(self.lines as int, self.cols as int, 0, 0);
        }
        overlay.flush(writer);
        glimmer.timeout = glimmer.interval;
        assert(glimmer.view == callee);
        assert(glimmer == rescheduled(scheduled.last()));
        let ghost waiting = self.glimmers@;
        self.glimmers.push(glimmer);
        proof {
            let at = choose|at: int|
                0 <= at <= waiting.len() && #[trigger] waiting.insert(at, glimmer)
                    == self.glimmers@;
            assert(elapsed_by(scheduled.drop_last(), timeout).insert(
                at,
                rescheduled(scheduled.last()),
            ) == self.glimmers@);
        }
    }
}

/// The buffer after the glyphs of a layout were typed one by one: each is
/// put at its place, and the buffer is brought to the terminal's size
/// after each.
pub open spec fn typed(
    view: BufferView,
    places: Seq<(char, (u16, u16))>,
    lines: u16,
    cols: u16,
    modifiers: Modifiers,
    fg: Color,
    bg: Color,
) -> BufferView
    decreases places.len(),
{
    if places.len() == 0 {
        view
    } else {
        put(
            typed(view, places.drop_last(), lines, cols, modifiers, fg, bg),
            places.last(),
            modifiers,
            fg,
            bg,
        ).resized(lines, cols)
    }
}

impl<V> Ui<V> {
    /// Types `text` onto the last frame, glyph by glyph, wrapping at the
    /// edge of the terminal. Returns one frame for every glyph: the flush
    /// of the buffer once that glyph is typed.
    pub fn typewrite(
        &mut self,
        text: &str,
        pos: (u16, u16),
        fg: Color,
        bg: Color,
        modifiers: Modifiers,
    ) -> (frames: Vec<String>)
        requires
            old(self)@.lines > 0,
            old(self)@.cols > 0,
        ensures
            final(self)@.lines == old(self)@.lines,
            final(self)@.cols == old(self)@.cols,
            final(self)@.glimmers == old(self)@.glimmers,
            frames@.len() == laid(
                text@,
                0,
                0,
                pos.0 as int,
                pos.1 as int,
                Rectangle { line: 0, col: 0, height: old(self)@.lines, width: old(self)@.cols },
            ).len(),
            forall|i: int|
                0 <= i < frames@.len() ==> (#[trigger] frames@[i])@ == typed(
                    old(self)@.buffer,
                    laid(
                        text@,
                        0,
                        0,
                        pos.0 as int,
                        pos.1 as int,
                        Rectangle {
                            line: 0,
                            col: 0,
                            height: old(self)@.lines,
                            width: old(self)@.cols,
                        },
                    ).take(i + 1),
                    old(self)@.lines,
                    old(self)@.cols,
                    modifiers,
                    fg,
                    bg,
                ).flushed(),
            final(self)@.buffer == typed(
                old(self)@.buffer,
                laid(
                    text@,
                    0,
                    0,
                    pos.0 as int,
                    pos.1 as int,
                    Rectangle { line: 0, col: 0, height: old(self)@.lines, width: old(self)@.cols },
                ),
                old(self)@.lines,
                old(self)@.cols,
                modifiers,
                fg,
                bg,
            ),
    {
        let bounds = Rectangle::new((0, 0), (self.lines, self.cols));
        let places = map_text_bounds(text, pos, bounds);
        let ghost start = self.buffer@;
        let mut frames: Vec<String> = Vec::new();
        let mut done: usize = 0;
        assert(places@.take(0) =~= Seq::<(char, (u16, u16))>::empty());
        while done < places.len()
            invariant
                done <= places@.len(),
                self.lines == old(self).lines,
                self.cols == old(self).cols,
                self.lines > 0,
                self.cols > 0,
                self.glimmers == old(self).glimmers,
                frames@.len() == done,
                self.buffer@ == typed(
                    start,
                    places@.take(done as int),
                    self.lines,
                    self.cols,
                    modifiers,
                    fg,
                    bg,
                ),
                forall|i: int|
                    0 <= i < done ==> (#[trigger] frames@[i])@ == typed(
                        start,
                        places@.take(i + 1),
                        self.lines,
                        self.cols,
                        modifiers,
                        fg,
                        bg,
                    ).flushed(),
            decreases places@.len() - done,
        {
            let place = places[done];
            proof {
                assert(places@.take(done + 1).drop_last() =~= places@.take(done as int));
                assert(places@.take(done + 1).last() == place);
            }
            if self.buffer.in_bounds(place.1) {
                *self.buffer.index_mut(place.1) = Glyph { c: place.0, modifiers, fg, bg };
            }
            self.buffer.resize(self.lines, self.cols);
            proof {
                lemma_index(self.lines as int, self.cols as int, 0, 0);
            }
            let mut frame = String::new();
            self.buffer.flush(&mut frame);
            assert(frame@ =~= self.buffer@.flushed());
            frames.push(frame);
            done = done + 1;
        }
        assert(places@.take(done as int) =~= places@);
        frames
    }
}

} // verus!
