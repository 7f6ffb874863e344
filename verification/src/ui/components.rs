//! An interface made of components, each of which draws with a pen that
//! is confined to the component's part of the screen.

use crate::ansi::clear_all_code;
use crate::ansi::enter_alternate_screen_code;
use crate::ansi::hide_cursor_code;
use crate::ansi::leave_alternate_screen_code;
use crate::ansi::queue_attribute;
use crate::ansi::queue_clear_all;
use crate::ansi::queue_enter_alternate_screen;
use crate::ansi::queue_hide_cursor;
use crate::ansi::queue_leave_alternate_screen;
use crate::ansi::queue_show_cursor;
use crate::ansi::sgr_code;
use crate::ansi::show_cursor_code;
use crate::ansi::Attribute;
use crate::grid::GridView;
use crate::ui::buffer::flushed;
use crate::ui::buffer::Buffer;
use crate::ui::buffer::Glyph;
use crate::ui::buffer::Modifiers;
use crate::ui::buffer::Rgb;
use vstd::prelude::*;
use vstd::std_specs::iter::IteratorSpec;

verus! {

/// A part of the screen and what draws it.
pub struct Component<V> {
    pub line: u16,
    pub col: u16,
    pub lines: u16,
    pub cols: u16,
    pub view: V,
}

impl<V> Component<V> {
    /// A component of the given size with its top-left corner at `corner`.
    pub fn new(corner: (u16, u16), size: (u16, u16), view: V) -> (component: Component<V>)
        ensures
            component.line == corner.0,
            component.col == corner.1,
            component.lines == size.0,
            component.cols == size.1,
            component.view == view,
    {
        Component { lines: size.0, cols: size.1, line: corner.0, col: corner.1, view }
    }
}

/// The layout of `text` from the glyph at `index` on, when `offset` glyphs
/// stand on the current line already. The text starts at `(line, col)`
/// inside a pen of `lines` by `cols`. A newline begins the next line; so
/// does a glyph that would stand beyond column `cols`, unless it is on the
/// last line of the pen, where the layout ends. Every line begins at column
/// `col`. Places that do not fit in `u16` are left out.
pub open spec fn penned(
    text: Seq<char>,
    index: int,
    offset: int,
    line: int,
    col: int,
    lines: u16,
    cols: u16,
) -> Seq<(char, (u16, u16))>
    decreases text.len() - index, lines - line,
{
    if index < 0 || index >= text.len() {
        Seq::empty()
    } else if text[index] == '\n' {
        penned(text, index + 1, 0, line + 1, col, lines, cols)
    } else if col + offset > cols {
        if line < lines - 1 {
            penned(text, index, 0, line + 1, col, lines, cols)
        } else {
            Seq::empty()
        }
    } else {
        (if 0 <= line <= 0xffff && 0 <= col + offset <= 0xffff {
            seq![(text[index], (line as u16, (col + offset) as u16))]
        } else {
            Seq::empty()
        }) + penned(text, index + 1, offset + 1, line, col, lines, cols)
    }
}

/// Below the last line that `u16` can name, nothing is placed.
pub proof fn lemma_penned_out(
    text: Seq<char>,
    index: int,
    offset: int,
    line: int,
    col: int,
    lines: u16,
    cols: u16,
)
    requires
        0 <= index,
        line > 0xffff,
    ensures
        penned(text, index, offset, line, col, lines, cols) == Seq::<(char, (u16, u16))>::empty(),
    decreases text.len() - index,
{
    if index < text.len() {
        if text[index] == '\n' {
            lemma_penned_out(text, index + 1, 0, line + 1, col, lines, cols);
        } else if col + offset <= cols {
            lemma_penned_out(text, index + 1, offset + 1, line, col, lines, cols);
        }
    }
}

/// Lays out `text` from `pos` inside a pen of `lines` by `cols`.
pub fn lay_out(text: &str, pos: (u16, u16), lines: u16, cols: u16) -> (places: Vec<
    (char, (u16, u16)),
>)
    ensures
        places@ == penned(text@, 0, 0, pos.0 as int, pos.1 as int, lines, cols),
{
    let mut places: Vec<(char, (u16, u16))> = Vec::new();
    let mut chars = text.chars();
    let ghost mut index: int = 0;
    let mut offset: u32 = 0;
    let mut line: u32 = pos.0 as u32;
    let col: u32 = pos.1 as u32;
    let ghost whole = penned(text@, 0, 0, pos.0 as int, pos.1 as int, lines, cols);
    loop
        invariant_except_break
            0 <= index <= text@.len(),
            line <= 0xffff,
            offset <= 0x10000,
            col == pos.1,
            chars.remaining() == text@.skip(index),
            chars.obeys_prophetic_iter_laws(),
            places@ + penned(text@, index, offset as int, line as int, col as int, lines, cols)
                == whole,
        ensures
            places@ == whole,
        decreases text@.len() - index,
    {
        let ghost before = places@;
        let ghost rest = penned(text@, index, offset as int, line as int, col as int, lines, cols);
        match chars.next() {
            None => {
                assert(places@ =~= places@ + rest);
                break ;
            },
            Some(c) => {
                assert(text@.skip(index)[0] == text@[index]);
                assert(text@.skip(index).drop_first() =~= text@.skip(index + 1));
                if c == '\n' {
                    line = line + 1;
                    offset = 0;
                } else {
                    let mut room = true;
                    while col + offset > cols as u32 && room
                        invariant
                            0 <= index < text@.len(),
                            text@[index] == c,
                            c != '\n',
                            line <= 0xffff,
                            offset <= 0x10000,
                            col <= 0xffff,
                            room ==> rest == penned(
                                text@,
                                index,
                                offset as int,
                                line as int,
                                col as int,
                                lines,
                                cols,
                            ),
                            !room ==> rest == Seq::<(char, (u16, u16))>::empty(),
                        decreases lines - line, room as int,
                    {
                        if lines == 0 || line >= (lines - 1) as u32 {
                            room = false;
                        } else {
                            line = line + 1;
                            offset = 0;
                        }
                    }
                    if !room {
                        assert(places@ =~= places@ + rest);
                        break ;
                    }
                    let to_col = col + offset;
                    assert(rest == (if 0 <= line <= 0xffff && 0 <= to_col <= 0xffff {
                        seq![(c, (line as u16, to_col as u16))]
                    } else {
                        Seq::empty()
                    }) + penned(
                        text@,
                        index + 1,
                        offset + 1,
                        line as int,
                        col as int,
                        lines,
                        cols,
                    ));
                    places.push((c, (line as u16, to_col as u16)));
                    offset = offset + 1;
                }
                proof {
                    index = index + 1;
                }
                assert(places@ + penned(
                    text@,
                    index,
                    offset as int,
                    line as int,
                    col as int,
                    lines,
                    cols,
                ) =~= before + rest);
                if line > 0xffff {
                    proof {
                        lemma_penned_out(
                            text@,
                            index,
                            offset as int,
                            line as int,
                            col as int,
                            lines,
                            cols,
                        );
                    }
                    assert(places@ =~= before + rest);
                    break ;
                }
            },
        }
    }
    places
}

/// The buffer after a glyph was drawn at `pos`; a position outside the
/// buffer, or one that `u16` cannot name, is passed over.
pub open spec fn drawn_at(
    view: GridView<Glyph>,
    pos: (int, int),
    glyph: Glyph,
) -> GridView<Glyph> {
    if 0 <= pos.0 < view.lines && 0 <= pos.1 < view.cols && pos.0 <= 0xffff && pos.1 <= 0xffff {
        GridView { cells: view.cells.update(pos.0 * view.cols + pos.1, glyph), ..view }
    } else {
        view
    }
}

/// The buffer after the glyphs of a layout were drawn through a pen whose
/// corner is at `(line, col)`, one after the other.
pub open spec fn penned_on(
    view: GridView<Glyph>,
    places: Seq<(char, (u16, u16))>,
    corner: (u16, u16),
    fg: Rgb,
    bg: Rgb,
    modifiers: Modifiers,
) -> GridView<Glyph>
    decreases places.len(),
{
    if places.len() == 0 {
        view
    } else {
        drawn_at(
            penned_on(view, places.drop_last(), corner, fg, bg, modifiers),
            (places.last().1.0 + corner.0, places.last().1.1 + corner.1),
            Glyph { ch: places.last().0, fg, bg, modifiers },
        )
    }
}

/// A pen that draws on one component's part of the screen.
pub struct Pen<'buf> {
    pub buffer: &'buf mut Buffer,
    pub line: u16,
    pub col: u16,
    pub lines: u16,
    pub cols: u16,
}

impl<'buf> Pen<'buf> {
    /// Whether the pen stands on a buffer that holds a glyph for every
    /// position.
    pub open spec fn wf(&self) -> bool {
        self.buffer@.wf()
    }

    /// Draws a glyph at a position inside the pen's part of the screen. A
    /// position that falls outside the buffer is passed over.
    pub fn draw(&mut self, ch: char, pos: (u16, u16), fg: Rgb, bg: Rgb, modifiers: Modifiers)
        ensures
            final(self).buffer@ == drawn_at(
                old(self).buffer@,
                (pos.0 + old(self).line, pos.1 + old(self).col),
                Glyph { ch, fg, bg, modifiers },
            ),
            final(self).buffer@.wf(),
            final(self).line == old(self).line,
            final(self).col == old(self).col,
            final(self).lines == old(self).lines,
            final(self).cols == old(self).cols,
            *final(final(self).buffer) == *final(old(self).buffer),
    {
        let line = pos.0 as u32 + self.line as u32;
        let col = pos.1 as u32 + self.col as u32;
        let size = self.buffer.0.size();
        if line <= 0xffff && col <= 0xffff {
            self.buffer.draw(ch, (line as u16, col as u16), fg, bg, modifiers);
        }
    }

    /// Draws a text from a position inside the pen's part of the screen.
    /// The text wraps where it has passed the pen's width by a column.
    pub fn draw_str(&mut self, text: &str, pos: (u16, u16), fg: Rgb, bg: Rgb, modifiers: Modifiers)
        ensures
            final(self).buffer@ == penned_on(
                old(self).buffer@,
                penned(text@, 0, 0, pos.0 as int, pos.1 as int, old(self).lines, old(self).cols),
                (old(self).line, old(self).col),
                fg,
                bg,
                modifiers,
            ),
            final(self).line == old(self).line,
            final(self).col == old(self).col,
            final(self).lines == old(self).lines,
            final(self).cols == old(self).cols,
            *final(final(self).buffer) == *final(old(self).buffer),
    {
        let places = lay_out(text, pos, self.lines, self.cols);
        let ghost start = self.buffer@;
        let mut done: usize = 0;
        assert(places@.take(0) =~= Seq::<(char, (u16, u16))>::empty());
        while done < places.len()
            invariant
                done <= places@.len(),
                self.line == old(self).line,
                self.col == old(self).col,
                self.lines == old(self).lines,
                self.cols == old(self).cols,
                *final(self.buffer) == *final(old(self).buffer),
                self.buffer@ == penned_on(
                    start,
                    places@.take(done as int),
                    (self.line, self.col),
                    fg,
                    bg,
                    modifiers,
                ),
            decreases places@.len() - done,
        {
            let place = places[done];
            proof {
                assert(places@.take(done + 1).drop_last() =~= places@.take(done as int));
                assert(places@.take(done + 1).last() == place);
            }
            self.draw(place.0, place.1, fg, bg, modifiers);
            done = done + 1;
        }
        assert(places@.take(done as int) =~= places@);
    }
}

/// The commands that take over the terminal: reset the attributes, hide the
/// cursor, and switch to the alternate screen.
pub open spec fn setup_code() -> Seq<char> {
    sgr_code(Attribute::Reset.sgr()) + hide_cursor_code() + enter_alternate_screen_code()
}

/// The commands that hand the terminal back.
pub open spec fn teardown_code() -> Seq<char> {
    sgr_code(Attribute::Reset.sgr()) + show_cursor_code() + leave_alternate_screen_code()
}

/// An interface that shows components. It writes nothing by itself: every
/// function appends the commands for the terminal to a `String`, which the
/// caller sends on.
pub struct Ui<'a, V> {
    pub components: &'a [Component<V>],
    pub buffer: Buffer,
}

impl<'a, V: Fn(Pen)> Ui<'a, V> {
    /// An interface without components for a terminal of the given size.
    /// Appends the commands that take over the terminal.
    pub fn new(size: (usize, usize), writer: &mut String) -> (ui: Ui<'a, V>)
        requires
            size.0 * size.1 <= usize::MAX,
        ensures
            ui.components@.len() == 0,
            ui.buffer@.wf(),
            ui.buffer@.lines == size.0,
            ui.buffer@.cols == size.1,
            final(writer)@ == old(writer)@ + setup_code(),
    {
        queue_attribute(writer, Attribute::Reset);
        queue_hide_cursor(writer);
        queue_enter_alternate_screen(writer);
        assert(writer@ =~= old(writer)@ + setup_code());
        Ui { components: &[], buffer: Buffer::new(size) }
    }

    /// Appends the commands that hand the terminal back.
    pub fn leave(writer: &mut String)
        ensures
            final(writer)@ == old(writer)@ + teardown_code(),
    {
        queue_attribute(writer, Attribute::Reset);
        queue_show_cursor(writer);
        queue_leave_alternate_screen(writer);
        assert(writer@ =~= old(writer)@ + teardown_code());
    }

    pub fn set_components(&mut self, components: &'a [Component<V>])
        ensures
            final(self).components == components,
            final(self).buffer == old(self).buffer,
    {
        self.components = components;
    }

    /// A pen for a component.
    pub fn pen_for<'ui>(&'ui mut self, component: &Component<V>) -> (pen: Pen<'ui>)
        ensures
            *pen.buffer == old(self).buffer,
            pen.line == component.line,
            pen.col == component.col,
            pen.lines == component.lines,
            pen.cols == component.cols,
            final(self).buffer == *final(pen.buffer),
            final(self).components == old(self).components,
    {
        Pen {
            buffer: &mut self.buffer,
            line: component.line,
            col: component.col,
            lines: component.lines,
            cols: component.cols,
        }
    }

    /// Brings the buffer to the size of the terminal, lets every component
    /// draw with its pen, in their order, and appends the commands that
    /// clear the screen and show the buffer.
    ///
    /// The contract follows the buffer through the components: `trail`
    /// holds it before the first has drawn, between any two, and after the
    /// last.
    pub fn render_components(&mut self, size: (usize, usize), writer: &mut String)
        requires
            0 < size.0 * size.1 <= usize::MAX,
            forall|i: int, pen: Pen|
                0 <= i < old(self).components@.len() ==> #[trigger] old(self).components@[i].view.requires((pen,)),
            forall|i: int, pen: Pen|
                0 <= i < old(self).components@.len() && #[trigger] old(self).components@[i].view.ensures((pen,), ()) ==> final(pen.buffer)@.wf() && final(pen.buffer)@.cells.len() == pen.buffer@.cells.len(),
        ensures
            final(self).components == old(self).components,
            final(self).buffer@.cells.len() == size.0 * size.1,
            final(writer)@ == old(writer)@ + clear_all_code() + flushed(final(self).buffer@.cells),
            exists|trail: Seq<Buffer>|
                {
                    let components = old(self).components@;
                    &&& #[trigger] trail.len() == components.len() + 1
                    &&& resizes(old(self).buffer@, trail[0]@, size)
                    &&& trail[components.len() as int] == final(self).buffer
                    &&& forall|i: int| #[trigger]
                        is_turn(components.len(), i) ==> exists|pen: Pen|
                            *pen.buffer == trail[i] && *final(pen.buffer) == trail[i + 1]
                                && pen.line == components[i].line && pen.col == components[i].col
                                && pen.lines == components[i].lines && pen.cols
                                == components[i].cols && #[trigger] components[i].view.ensures(
                                (pen,),
                                (),
                            )
                },
    {
        self.buffer.resize(size);
        queue_clear_all(writer);
        let components = self.components;
        let ghost mut trail: Seq<Buffer> = seq![self.buffer];
        let mut done: usize = 0;
        while done < components.len()
            invariant
                done <= components@.len(),
                components == old(self).components,
                self.components == old(self).components,
                self.buffer@.cells.len() == size.0 * size.1,
                forall|i: int, pen: Pen|
                    0 <= i < components@.len() ==> #[trigger] components@[i].view.requires((pen,)),
                forall|i: int, pen: Pen|
                    0 <= i < components@.len() && #[trigger] components@[i].view.ensures(
                        (pen,),
                        (),
                    ) ==> final(pen.buffer)@.wf() && final(pen.buffer)@.cells.len()
                        == pen.buffer@.cells.len(),
                trail.len() == done + 1,
                resizes(old(self).buffer@, trail[0]@, size),
                trail[done as int] == self.buffer,
                forall|i: int| #[trigger]
                    is_turn(components@.len(), i) && i < done ==> exists|pen: Pen|
                        *pen.buffer == trail[i] && *final(pen.buffer) == trail[i + 1] && pen.line
                            == components@[i].line && pen.col == components@[i].col && pen.lines
                            == components@[i].lines && pen.cols == components@[i].cols
                            && #[trigger] components@[i].view.ensures((pen,), ()),
            decreases components@.len() - done,
        {
            let component = &components[done];
            let ghost settled = trail;
            let pen = self.pen_for(component);
            let ghost lent = pen;
            (component.view)(pen);
            assert(components@[done as int].view.ensures((lent,), ()));
            proof {
                trail = trail.push(self.buffer);
                assert forall|i: int| #[trigger] is_turn(components@.len(), i) && i < done
                    + 1 implies exists|pen: Pen|
                    *pen.buffer == trail[i] && *final(pen.buffer) == trail[i + 1] && pen.line
                        == components@[i].line && pen.col == components@[i].col && pen.lines
                        == components@[i].lines && pen.cols == components@[i].cols
                        && #[trigger] components@[i].view.ensures((pen,), ()) by {
                    if i < done {
                        assert(trail[i] == settled[i] && trail[i + 1] == settled[i + 1]);
                    } else {
                        assert(*lent.buffer == trail[i] && *final(lent.buffer) == trail[i + 1]);
                    }
                }
            }
            done = done + 1;
        }
        self.buffer.flush(writer);
        assert(writer@ =~= old(writer)@ + clear_all_code() + flushed(self.buffer@.cells));
        assert({
            &&& trail.len() == components@.len() + 1
            &&& resizes(old(self).buffer@, trail[0]@, size)
            &&& trail[components@.len() as int] == self.buffer
            &&& forall|i: int| #[trigger]
                is_turn(components@.len(), i) ==> exists|pen: Pen|
                    *pen.buffer == trail[i] && *final(pen.buffer) == trail[i + 1] && pen.line
                        == components@[i].line && pen.col == components@[i].col && pen.lines
                        == components@[i].lines && pen.cols == components@[i].cols
                        && #[trigger] components@[i].view.ensures((pen,), ())
        });
    }
}

/// Whether a list of `count` components has one of number `index`, counted
/// from zero.
pub open spec fn is_turn(count: nat, index: int) -> bool {
    0 <= index < count
}

/// Whether `after` is `before` brought to a new size: the glyphs keep
/// their place in the row-major order, and new places are blank.
pub open spec fn resizes(before: GridView<Glyph>, after: GridView<Glyph>, size: (usize, usize)) -> bool {
    &&& after.wf()
    &&& after.lines == size.0
    &&& after.cols == size.1
    &&& forall|i: int|
        0 <= i < after.cells.len() ==> #[trigger] after.cells[i] == (if i < before.cells.len() {
            before.cells[i]
        } else {
            Glyph::blank()
        })
}

} // verus!
