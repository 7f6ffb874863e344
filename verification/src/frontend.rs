//! The screen as a program sees it: sizes and points, display attributes,
//! and the drawing surface that a frame script writes to.

pub mod buffer;
pub mod flicker;

use crate::ansi::background_code;
use crate::ansi::clear_all_code;
use crate::ansi::enter_alternate_screen_code;
use crate::ansi::hide_cursor_code;
use crate::ansi::leave_alternate_screen_code;
use crate::ansi::move_to_code;
use crate::ansi::queue_attribute;
use crate::ansi::queue_background;
use crate::ansi::queue_clear_all;
use crate::ansi::queue_enter_alternate_screen;
use crate::ansi::queue_hide_cursor;
use crate::ansi::queue_leave_alternate_screen;
use crate::ansi::queue_move_to;
use crate::ansi::queue_show_cursor;
use crate::ansi::sgr_code;
use crate::ansi::show_cursor_code;
use crate::ansi::Attribute;
use crate::color::Color;
use crate::frontend::buffer::lemma_drawn_clipped;
use crate::frontend::buffer::lemma_drawn_step;
use crate::frontend::buffer::Buffer;
use crate::frontend::buffer::BufferView;
use crate::frontend::buffer::Cell;
use vstd::prelude::*;
use vstd::std_specs::iter::IteratorSpec;

verus! {

/// The extent of a terminal or a buffer, in character cells.
#[derive(Clone, Copy, Debug, PartialEq, Eq, Structural)]
pub struct Size {
    pub height: u16,
    pub width: u16,
}

/// A cell position: a line and a column, both counted from zero.
#[derive(Clone, Copy, Debug, PartialEq, Eq, Structural)]
pub struct Point {
    pub line: u16,
    pub col: u16,
}

/// Bit of the bold attribute.
pub const BOLD: u8 = 1;

/// Bit of the reverse-video attribute.
pub const REVERSE: u8 = 2;

/// A set of display attributes, one bit for each.
#[derive(Clone, Copy, Debug, PartialEq, Eq, Structural)]
pub struct Attributes {
    pub bits: u8,
}

impl Attributes {
    /// Whether every attribute of `other` is in the set.
    pub open spec fn has(self, other: Attributes) -> bool {
        self.bits & other.bits == other.bits
    }

    pub open spec fn is_bold(self) -> bool {
        self.bits & BOLD == BOLD
    }

    pub open spec fn is_reverse(self) -> bool {
        self.bits & REVERSE == REVERSE
    }

    /// The empty set.
    pub fn normal() -> (attributes: Attributes)
        ensures
            attributes.bits == 0,
            !attributes.is_bold(),
            !attributes.is_reverse(),
    {
        assert(0u8 & 1 != 1 && 0u8 & 2 != 2) by (bit_vector);
        Attributes { bits: 0 }
    }

    pub fn bold() -> (attributes: Attributes)
        ensures
            attributes.bits == BOLD,
            attributes.is_bold(),
            !attributes.is_reverse(),
    {
        assert(1u8 & 1 == 1 && 1u8 & 2 != 2) by (bit_vector);
        Attributes { bits: BOLD }
    }

    pub fn reverse() -> (attributes: Attributes)
        ensures
            attributes.bits == REVERSE,
            !attributes.is_bold(),
            attributes.is_reverse(),
    {
        assert(2u8 & 1 != 1 && 2u8 & 2 == 2) by (bit_vector);
        Attributes { bits: REVERSE }
    }

    pub fn contains(&self, other: Attributes) -> (inside: bool)
        ensures
            inside == self.has(other),
    {
        self.bits & other.bits == other.bits
    }

    pub fn is_empty(&self) -> (empty: bool)
        ensures
            empty == (self.bits == 0),
    {
        self.bits == 0
    }

    /// The attributes of either set.
    pub fn union(self, other: Attributes) -> (both: Attributes)
        ensures
            both.bits == self.bits | other.bits,
            both.is_bold() == (self.is_bold() || other.is_bold()),
            both.is_reverse() == (self.is_reverse() || other.is_reverse()),
    {
        let a = self.bits;
        let b = other.bits;
        assert(((a | b) & 1 == 1) == (a & 1 == 1 || b & 1 == 1) && ((a | b) & 2 == 2) == (a & 2 == 2
            || b & 2 == 2)) by (bit_vector);
        Attributes { bits: a | b }
    }

    /// The attributes of this set that `other` lacks.
    pub fn difference(self, other: Attributes) -> (rest: Attributes)
        ensures
            rest.bits == self.bits & !other.bits,
            rest.is_bold() == (self.is_bold() && !other.is_bold()),
            rest.is_reverse() == (self.is_reverse() && !other.is_reverse()),
    {
        let a = self.bits;
        let b = other.bits;
        assert(((a & !b) & 1 == 1) == (a & 1 == 1 && !(b & 1 == 1)) && ((a & !b) & 2 == 2) == (a & 2
            == 2 && !(b & 2 == 2))) by (bit_vector);
        Attributes { bits: a & !b }
    }
}

impl Size {
    /// The number of cells.
    pub open spec fn cells(self) -> nat {
        (self.height as nat) * (self.width as nat)
    }

    /// Whether a point lies inside: both components strictly below the size's.
    pub open spec fn holds(self, point: Point) -> bool {
        point.line < self.height && point.col < self.width
    }

    /// The row-major index of a point.
    pub open spec fn index_of(self, point: Point) -> int {
        point.line as int * self.width as int + point.col as int
    }

    /// The point of a row-major index.
    pub open spec fn point_of(self, index: int) -> Point
        recommends
            self.width > 0,
            0 <= index < self.cells(),
    {
        Point { line: (index / self.width as int) as u16, col: (index % self.width as int) as u16 }
    }

    pub fn area(&self) -> (area: usize)
        ensures
            area == self.cells(),
    {
        proof {
            lemma_cells_bound(*self);
        }
        self.height as usize * self.width as usize
    }

    pub fn contains(&self, point: Point) -> (inside: bool)
        ensures
            inside == self.holds(point),
    {
        point.line < self.height && point.col < self.width
    }

    /// The point at a row-major index of a buffer of this size.
    pub fn index_to_point(&self, index: usize) -> (point: Point)
        requires
            index < self.cells(),
        ensures
            point == self.point_of(index as int),
            self.holds(point),
            self.index_of(point) == index,
    {
        proof {
            lemma_point_of_index(*self, index as int);
        }
        let width = self.width as usize;
        Point { line: (index / width) as u16, col: (index % width) as u16 }
    }
}

impl From<(u16, u16)> for Size {
    fn from(pair: (u16, u16)) -> (size: Size) {
        Size { height: pair.0, width: pair.1 }
    }
}

impl vstd::std_specs::convert::FromSpecImpl<(u16, u16)> for Size {
    open spec fn obeys_from_spec() -> bool {
        true
    }

    open spec fn from_spec(pair: (u16, u16)) -> Size {
        Size { height: pair.0, width: pair.1 }
    }
}

impl Point {
    /// The point `col` columns to the right, or to the left where `col` is
    /// negative. The column wraps around at the ends of `u16`.
    pub fn offset_col(self, col: i32) -> (moved: Point)
        ensures
            moved.line == self.line,
            moved.col as int == (self.col as int + col as int) % 0x10000,
    {
        let wide: i64 = self.col as i64 + col as i64;
        let shifted: u64 = (wide + 0x1_0000_0000) as u64;
        assert(shifted as int % 0x10000 == wide as int % 0x10000);
        Point { line: self.line, col: (shifted % 0x10000) as u16 }
    }
}

impl From<(u16, u16)> for Point {
    fn from(pair: (u16, u16)) -> (point: Point) {
        Point { line: pair.0, col: pair.1 }
    }
}

impl vstd::std_specs::convert::FromSpecImpl<(u16, u16)> for Point {
    open spec fn obeys_from_spec() -> bool {
        true
    }

    open spec fn from_spec(pair: (u16, u16)) -> Point {
        Point { line: pair.0, col: pair.1 }
    }
}

/// The drawing surface handed to a frame script: a buffer that can be drawn
/// on but neither resized nor replaced.
pub struct Screen<'a> {
    pub buffer: &'a mut Buffer,
}

impl<'a> View for Screen<'a> {
    type V = BufferView;

    open spec fn view(&self) -> BufferView {
        self.buffer@
    }
}

impl<'a> Screen<'a> {
    /// A screen over `buffer`; what is drawn on the screen is in the buffer
    /// once the screen is gone.
    pub fn new(buffer: &'a mut Buffer) -> (screen: Screen<'a>)
        ensures
            screen@ == old(buffer)@,
            screen@.wf(),
            final(buffer)@ == final(screen.buffer)@,
    {
        let _ = buffer.size();
        Screen { buffer }
    }

    /// Draws `text` on one line, its first glyph at `point`. Glyphs that
    /// fall outside the screen are dropped without complaint.
    pub fn draw(
        &mut self,
        text: &str,
        point: Point,
        fg_color: Color,
        bg_color: Color,
        attributes: Attributes,
    )
        ensures
            final(self)@ == old(self)@.drawn(text@, point, fg_color, bg_color, attributes),
            final(self)@.wf(),
            *final(final(self).buffer) == *final(old(self).buffer),
    {
        let size = self.buffer.size();
        let ghost start = self@;
        let mut chars = text.chars();
        let mut count: usize = 0;
        proof {
            assert(text@.take(0) =~= Seq::<char>::empty());
            lemma_drawn_nothing(start, point, fg_color, bg_color, attributes);
        }
        loop
            invariant
                start.wf(),
                start == old(self)@,
                size == start.size,
                count <= text@.len(),
                count <= 0xffff,
                chars.remaining() == text@.skip(count as int),
                chars.obeys_prophetic_iter_laws(),
                self@ == start.drawn(text@.take(count as int), point, fg_color, bg_color, attributes),
                *final(self.buffer) == *final(old(self).buffer),
            ensures
                self@ == start.drawn(text@, point, fg_color, bg_color, attributes),
                self@.wf(),
                *final(self.buffer) == *final(old(self).buffer),
            decreases text@.len() - count,
        {
            let inside = point.line < size.height && point.col as usize + count < size.width as usize;
            if !inside {
                proof {
                    lemma_drawn_clipped(
                        start,
                        text@,
                        count as int,
                        point,
                        fg_color,
                        bg_color,
                        attributes,
                    );
                }
                break;
            }
            match chars.next() {
                Some(c) => {
                    let target = Point { line: point.line, col: (point.col as usize + count) as u16 };
                    proof {
                        assert(text@.skip(count as int)[0] == text@[count as int]);
                        assert(text@.skip(count as int).drop_first() =~= text@.skip(count + 1));
                        lemma_drawn_step(
                            start,
                            text@,
                            count as int,
                            point,
                            fg_color,
                            bg_color,
                            attributes,
                        );
                    }
                    *self.buffer.index_mut(target) = Cell { c, fg_color, bg_color, attributes };
                    count = count + 1;
                },
                None => {
                    proof {
                        lemma_drawn_clipped(
                            start,
                            text@,
                            count as int,
                            point,
                            fg_color,
                            bg_color,
                            attributes,
                        );
                    }
                    break;
                },
            }
        }
    }

    /// Names the color that the terminal is cleared to before a flush.
    pub fn set_bg_color(&mut self, color: Color)
        ensures
            final(self)@ == (BufferView { bg_color: color, ..old(self)@ }),
            *final(final(self).buffer) == *final(old(self).buffer),
    {
        self.buffer.set_bg_color(color);
    }

    /// Multiplies the foreground of the cell at `point` by `numer / denom`.
    /// A point outside the screen is left alone.
    pub fn lighten(&mut self, numer: u32, denom: u32, point: Point)
        requires
            denom > 0,
        ensures
            final(self)@ == old(self)@.lit(numer, denom, point),
            *final(final(self).buffer) == *final(old(self).buffer),
    {
        if self.buffer.size().contains(point) {
            let cell = self.buffer.index_mut(point);
            cell.fg_color = cell.fg_color.scale(numer, denom);
        }
    }

    pub fn size(&self) -> (size: Size)
        ensures
            size == self@.size,
            self@.wf(),
    {
        self.buffer.size()
    }
}

/// What a frontend holds: the size that the terminal last reported, and the
/// buffer of the last frame.
pub struct FrontendView {
    pub size: Size,
    pub buffer: BufferView,
}

/// The commands that take over the terminal: hide the cursor, switch to the
/// alternate screen, home the cursor, and clear to black.
pub open spec fn setup_code() -> Seq<char> {
    hide_cursor_code() + enter_alternate_screen_code() + move_to_code(0, 0) + background_code(
        Color { r: 0, g: 0, b: 0 },
    ) + clear_all_code()
}

/// The commands that hand the terminal back.
pub open spec fn teardown_code() -> Seq<char> {
    show_cursor_code() + leave_alternate_screen_code()
}

/// The commands of one frame: clear the screen, flush the buffer, and
/// reset the attributes.
pub open spec fn frame_code(view: BufferView) -> Seq<char> {
    clear_all_code() + view.rendered() + sgr_code(Attribute::Reset.sgr())
}

/// The renderer's state between frames. It writes nothing by itself: every
/// function appends the commands for the terminal to a `String`, which the
/// caller sends on.
pub struct Frontend {
    buffer: Buffer,
    size: Size,
}

impl View for Frontend {
    type V = FrontendView;

    closed spec fn view(&self) -> FrontendView {
        FrontendView { size: self.size, buffer: self.buffer@ }
    }
}

impl Frontend {
    /// A frontend for a terminal of the given size, with a blank buffer.
    /// Appends the commands that take over the terminal.
    pub fn new(size: Size, writer: &mut String) -> (frontend: Frontend)
        ensures
            frontend@.size == size,
            frontend@.buffer == BufferView::blank(size),
            final(writer)@ == old(writer)@ + setup_code(),
    {
        queue_hide_cursor(writer);
        queue_enter_alternate_screen(writer);
        queue_move_to(writer, 0, 0);
        queue_background(writer, Color::black());
        queue_clear_all(writer);
        assert(writer@ =~= old(writer)@ + setup_code());
        Frontend { buffer: Buffer::new(size), size }
    }

    /// Appends the commands that hand the terminal back.
    pub fn leave(writer: &mut String)
        ensures
            final(writer)@ == old(writer)@ + teardown_code(),
    {
        queue_show_cursor(writer);
        queue_leave_alternate_screen(writer);
        assert(writer@ =~= old(writer)@ + teardown_code());
    }

    pub fn size(&self) -> (size: Size)
        ensures
            size == self@.size,
    {
        self.size
    }

    /// The size of the buffer of the last frame.
    pub fn frame_size(&self) -> (size: Size)
        ensures
            size == self@.buffer.size,
    {
        self.buffer.size()
    }

    /// Takes note of the size that the terminal reports. The next frame
    /// that starts from a blank buffer has this size.
    pub fn resize(&mut self, size: Size)
        ensures
            final(self)@ == (FrontendView { size, ..old(self)@ }),
    {
        self.size = size;
    }

    /// Runs `script` on a blank buffer of the terminal's size and appends
    /// the frame.
    pub fn render<F: FnOnce(Screen)>(&mut self, script: F, writer: &mut String)
        requires
            old(self)@.size.cells() > 0,
            forall|screen: Screen|
                screen@ == BufferView::blank(old(self)@.size) ==> #[trigger] script.requires(
                    (screen,),
                ),
            forall|screen: Screen| #[trigger]
                script.ensures((screen,), ()) ==> final(screen.buffer)@.size == screen@.size,
        ensures
            final(self)@.size == old(self)@.size,
            final(self)@.buffer.size == old(self)@.size,
            final(self)@.buffer.wf(),
            final(writer)@ == old(writer)@ + frame_code(final(self)@.buffer),
            exists|screen: Screen|
                screen@ == BufferView::blank(old(self)@.size) && final(screen.buffer)@
                    == final(self)@.buffer && #[trigger] script.ensures((screen,), ()),
    {
        self.buffer = Buffer::new(self.size);
        self.render_unclearing(script, writer);
    }

    /// Runs `script` on the buffer of the last frame and appends the frame.
    pub fn render_unclearing<F: FnOnce(Screen)>(&mut self, script: F, writer: &mut String)
        requires
            old(self)@.buffer.size.cells() > 0,
            forall|screen: Screen|
                screen@ == old(self)@.buffer ==> #[trigger] script.requires((screen,)),
            forall|screen: Screen| #[trigger]
                script.ensures((screen,), ()) ==> final(screen.buffer)@.size == screen@.size,
        ensures
            final(self)@.size == old(self)@.size,
            final(self)@.buffer.size == old(self)@.buffer.size,
            final(self)@.buffer.wf(),
            final(writer)@ == old(writer)@ + frame_code(final(self)@.buffer),
            exists|screen: Screen|
                screen@ == old(self)@.buffer && final(screen.buffer)@ == final(self)@.buffer
                    && #[trigger] script.ensures((screen,), ()),
    {
        let screen = Screen::new(&mut self.buffer);
        let ghost shown = screen;
        script(screen);
        assert(script.ensures((shown,), ()));
        let _ = self.buffer.size();
        queue_clear_all(writer);
        self.buffer.flush(writer);
        queue_attribute(writer, Attribute::Reset);
        assert(writer@ =~= old(writer)@ + frame_code(self.buffer@));
    }
}

/// Drawing no glyph changes nothing.
pub proof fn lemma_drawn_nothing(
    view: BufferView,
    start: Point,
    fg_color: Color,
    bg_color: Color,
    attributes: Attributes,
)
    ensures
        view.drawn(Seq::<char>::empty(), start, fg_color, bg_color, attributes) == view,
{
    assert(view.drawn(Seq::<char>::empty(), start, fg_color, bg_color, attributes).cells
        =~= view.cells);
}

/// A size has at most `65535 * 65535` cells, which fits in `usize`.
pub proof fn lemma_cells_bound(size: Size)
    ensures
        size.cells() <= 0xffff * 0xffff,
        size.cells() <= usize::MAX,
{
    assert(size.height as int * size.width as int <= 0xffff * 0xffff) by (nonlinear_arith)
        requires
            0 <= size.height <= 0xffff,
            0 <= size.width <= 0xffff,
    ;
}

/// Every index below the number of cells belongs to exactly one point inside.
pub proof fn lemma_point_of_index(size: Size, index: int)
    requires
        0 <= index < size.cells(),
    ensures
        size.width > 0,
        0 <= index / (size.width as int) < size.height,
        0 <= index % (size.width as int) < size.width,
        size.holds(size.point_of(index)),
        size.index_of(size.point_of(index)) == index,
{
    let w = size.width as int;
    let h = size.height as int;
    assert(w > 0) by (nonlinear_arith)
        requires
            0 <= index < h * w,
            w >= 0,
    ;
    vstd::arithmetic::div_mod::lemma_fundamental_div_mod(index, w);
    vstd::arithmetic::div_mod::lemma_div_pos_is_pos(index, w);
    assert(index / w < h) by (nonlinear_arith)
        requires
            0 <= index < h * w,
            w > 0,
            index == w * (index / w) + index % w,
            0 <= index % w < w,
    ;
    assert(w * (index / w) == (index / w) * w) by (nonlinear_arith);
}

/// Every point inside has an index below the number of cells, and no two
/// points share one.
pub proof fn lemma_index_of_point(size: Size, point: Point)
    requires
        size.holds(point),
    ensures
        0 <= size.index_of(point) < size.cells(),
        size.point_of(size.index_of(point)) == point,
{
    let w = size.width as int;
    let h = size.height as int;
    let l = point.line as int;
    let c = point.col as int;
    assert(0 <= l * w + c < h * w) by (nonlinear_arith)
        requires
            0 <= l < h,
            0 <= c < w,
    ;
    vstd::arithmetic::div_mod::lemma_fundamental_div_mod_converse(l * w + c, w, l, c);
}

} // verus!
