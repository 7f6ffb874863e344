//! The buffer of a terminal interface that speaks to the terminal through
//! its capabilities.
//!
//! What is sent is planned here as a list of operations; to send them is
//! left to whoever knows the terminal.

use crate::grid::Grid;
use crate::grid::GridView;
use crate::ui::backend::Attr;
use crate::ui::backend::Buffer;
use crate::ui::buffer::Modifiers;
use crate::ui::buffer::Rgb;
use crate::ui::buffer::BLINK;
use crate::ui::buffer::BOLD;
use crate::ui::buffer::REVERSE;
use crate::ui::buffer::UNDERLINE;
use vstd::prelude::*;

verus! {

/// A character with its colors and attributes.
#[derive(Clone, Copy, Debug, PartialEq, Eq, Structural)]
pub struct Glyph {
    pub ch: char,
    pub fg: Rgb,
    pub bg: Rgb,
    pub attr: Attr,
}

impl Glyph {
    /// A space, black on black, without attributes.
    pub open spec fn blank() -> Glyph {
        Glyph {
            ch: ' ',
            fg: Rgb { r: 0, g: 0, b: 0 },
            bg: Rgb { r: 0, g: 0, b: 0 },
            attr: Modifiers { bits: 0 },
        }
    }

    pub fn new() -> (glyph: Glyph)
        ensures
            glyph == Glyph::blank(),
    {
        Glyph { ch: ' ', fg: Rgb::black(), bg: Rgb::black(), attr: Modifiers::none() }
    }
}

/// One step of a flush.
#[derive(Clone, Copy, Debug, PartialEq, Eq, Structural)]
pub enum Op {
    /// Move the cursor to the top left.
    Home,
    /// Switch all attributes off.
    Reset,
    /// Switch bold on.
    Bold,
    /// Switch underline on.
    Underline,
    /// Switch blink on.
    Blink,
    /// Switch reverse video on.
    Reverse,
    /// Set the foreground color.
    Foreground(Rgb),
    /// Set the background color.
    Background(Rgb),
    /// Print a character.
    Print(char),
}

/// The operations that switch on the attributes of a set, in the order
/// bold, underline, blink, reverse.
pub open spec fn enabling(attr: Attr) -> Seq<Op> {
    (if attr.bits & BOLD == BOLD {
        seq![Op::Bold]
    } else {
        Seq::empty()
    }) + (if attr.bits & UNDERLINE == UNDERLINE {
        seq![Op::Underline]
    } else {
        Seq::empty()
    }) + (if attr.bits & BLINK == BLINK {
        seq![Op::Blink]
    } else {
        Seq::empty()
    }) + (if attr.bits & REVERSE == REVERSE {
        seq![Op::Reverse]
    } else {
        Seq::empty()
    })
}

/// Each color of `curr` that differs from that of `last`.
pub open spec fn recoloring(last: Glyph, curr: Glyph) -> Seq<Op> {
    (if curr.fg != last.fg {
        seq![Op::Foreground(curr.fg)]
    } else {
        Seq::empty()
    }) + (if curr.bg != last.bg {
        seq![Op::Background(curr.bg)]
    } else {
        Seq::empty()
    })
}

/// The operations that bring the terminal from the style of `last` to that
/// of `curr`. Where `curr` has every attribute of `last`, those that are
/// new are switched on and each color is set if it differs; else all is
/// reset, and both colors and every attribute of `curr` are set.
pub open spec fn updating(last: Glyph, curr: Glyph) -> Seq<Op> {
    if curr.attr.has(last.attr) {
        enabling(curr.attr.minus(last.attr)) + recoloring(last, curr)
    } else {
        seq![Op::Reset, Op::Foreground(curr.fg), Op::Background(curr.bg)] + enabling(curr.attr)
    }
}

/// The operations for the glyphs from `index` on, each after its
/// predecessor.
pub open spec fn following(glyphs: Seq<Glyph>, index: int) -> Seq<Op>
    decreases glyphs.len() - index,
{
    if index < 1 || index >= glyphs.len() {
        Seq::empty()
    } else {
        updating(glyphs[index - 1], glyphs[index]) + seq![Op::Print(glyphs[index].ch)] + following(
            glyphs,
            index + 1,
        )
    }
}

/// The operations of a flush: home, both colors of the first glyph and the
/// glyph, then every other glyph with what changes before it.
pub open spec fn planned(glyphs: Seq<Glyph>) -> Seq<Op>
    recommends
        glyphs.len() > 0,
{
    seq![
        Op::Home,
        Op::Foreground(glyphs[0].fg),
        Op::Background(glyphs[0].bg),
        Op::Print(glyphs[0].ch),
    ] + following(glyphs, 1)
}

/// Whether every glyph is blank.
pub open spec fn all_blank(glyphs: Seq<Glyph>) -> bool {
    forall|i: int| 0 <= i < glyphs.len() ==> glyphs[i] == Glyph::blank()
}

/// The buffer of a terminal interface.
pub struct TuiBuffer(pub Grid<Glyph>);

impl View for TuiBuffer {
    type V = GridView<Glyph>;

    open spec fn view(&self) -> GridView<Glyph> {
        self.0@
    }
}

impl TuiBuffer {
    /// A buffer of blank glyphs.
    pub fn new(size: (usize, usize)) -> (buffer: TuiBuffer)
        requires
            size.0 * size.1 <= usize::MAX,
        ensures
            buffer@.wf(),
            buffer@.lines == size.0,
            buffer@.cols == size.1,
            all_blank(buffer@.cells),
    {
        TuiBuffer(Grid::new(size, Glyph::new()))
    }

    /// Gives the buffer a new size. Glyphs keep their place in the
    /// row-major order; new places are blank.
    pub fn resize(&mut self, size: (usize, usize))
        requires
            size.0 * size.1 <= usize::MAX,
        ensures
            final(self)@.wf(),
            final(self)@.lines == size.0,
            final(self)@.cols == size.1,
            forall|i: int|
                0 <= i < final(self)@.cells.len() ==> #[trigger] final(self)@.cells[i] == (if i
                    < old(self)@.cells.len() {
                    old(self)@.cells[i]
                } else {
                    Glyph::blank()
                }),
    {
        self.0.resize(size, Glyph::new());
    }

    /// Makes every glyph blank.
    pub fn clear(&mut self)
        ensures
            final(self)@.wf(),
            final(self)@.lines == old(self)@.lines,
            final(self)@.cols == old(self)@.cols,
            all_blank(final(self)@.cells),
    {
        self.0.fill(Glyph::new());
    }

    pub fn size(&self) -> (size: (usize, usize))
        ensures
            size == (self@.lines, self@.cols),
            self@.wf(),
    {
        self.0.size()
    }

    /// The glyph at the top left.
    pub fn first(&self) -> (glyph: &Glyph)
        requires
            self@.cells.len() > 0,
        ensures
            *glyph == self@.cells[0],
    {
        let size = self.0.size();
        proof {
            if size.0 == 0 || size.1 == 0 {
                assert(size.0 * size.1 == 0) by (nonlinear_arith)
                    requires
                        size.0 == 0 || size.1 == 0,
                ;
            }
        }
        self.0.index((0, 0))
    }

    /// Every run of `size` neighbouring glyphs in the row-major order.
    pub fn windows(&self, size: usize) -> (runs: Vec<&[Glyph]>)
        requires
            size > 0,
        ensures
            runs@.len() == (if size <= self@.cells.len() {
                self@.cells.len() - size + 1
            } else {
                0
            }),
            forall|i: int|
                0 <= i < runs@.len() ==> (#[trigger] runs@[i])@ == self@.cells.subrange(i, i + size),
    {
        self.0.windows(size)
    }

    /// Puts a glyph at `(line, col)`; without a background, the glyph keeps
    /// the background that is there. A position outside the buffer is
    /// passed over.
    pub fn put(&mut self, ch: char, pos: (u16, u16), fg: Rgb, bg: Option<Rgb>, attr: Attr)
        ensures
            final(self)@.wf(),
            final(self)@.lines == old(self)@.lines,
            final(self)@.cols == old(self)@.cols,
            old(self)@.holds((pos.0 as usize, pos.1 as usize)) ==> final(self)@.cells == old(self)@.cells.update(
                pos.0 * old(self)@.cols + pos.1,
                Glyph {
                    ch,
                    fg,
                    bg: match bg {
                        Some(bg) => bg,
                        None => old(self)@.at((pos.0 as usize, pos.1 as usize)).bg,
                    },
                    attr,
                },
            ),
            !old(self)@.holds((pos.0 as usize, pos.1 as usize)) ==> final(self)@ == old(self)@,
    {
        let place = (pos.0 as usize, pos.1 as usize);
        let _ = self.0.size();
        if !self.0.in_bounds(place) {
            return ;
        }
        let glyph = self.0.index_mut(place);
        glyph.ch = ch;
        glyph.fg = fg;
        glyph.bg = match bg {
            Some(bg) => bg,
            None => glyph.bg,
        };
        glyph.attr = attr;
    }

    /// The operations that show the buffer.
    pub fn plan(&self) -> (ops: Vec<Op>)
        requires
            self@.cells.len() > 0,
        ensures
            ops@ == planned(self@.cells),
    {
        let first = *self.first();
        let mut ops: Vec<Op> = Vec::new();
        ops.push(Op::Home);
        ops.push(Op::Foreground(first.fg));
        ops.push(Op::Background(first.bg));
        ops.push(Op::Print(first.ch));
        let ghost head = ops@;
        let pairs = self.windows(2);
        let mut done: usize = 0;
        while done < pairs.len()
            invariant
                done <= pairs@.len(),
                pairs@.len() == self@.cells.len() - 1,
                forall|i: int|
                    0 <= i < pairs@.len() ==> (#[trigger] pairs@[i])@ == self@.cells.subrange(
                        i,
                        i + 2,
                    ),
                ops@ + following(self@.cells, done + 1) == head + following(self@.cells, 1),
            decreases pairs@.len() - done,
        {
            let pair = pairs[done];
            assert(pair@ == self@.cells.subrange(done as int, done + 2));
            assert(pair@[0] == self@.cells[done as int]);
            assert(pair@[1] == self@.cells[done + 1]);
            let ghost before = ops@;
            update_term_attrs(&mut ops, &pair[0], &pair[1]);
            ops.push(Op::Print(pair[1].ch));
            assert(ops@ + following(self@.cells, done + 2) =~= before + following(
                self@.cells,
                done + 1,
            ));
            done = done + 1;
        }
        assert(ops@ =~= ops@ + following(self@.cells, done + 1));
        assert(ops@ =~= planned(self@.cells));
        ops
    }
}

impl Buffer for TuiBuffer {
    fn draw_ch(&mut self, ch: char, pos: (u16, u16), fg: Rgb, bg: Option<Rgb>, attr: Attr)
        ensures
            final(self)@.wf(),
            final(self)@.lines == old(self)@.lines,
            final(self)@.cols == old(self)@.cols,
            old(self)@.holds((pos.0 as usize, pos.1 as usize)) ==> final(self)@.cells == old(self)@.cells.update(
                pos.0 * old(self)@.cols + pos.1,
                Glyph {
                    ch,
                    fg,
                    bg: match bg {
                        Some(bg) => bg,
                        None => old(self)@.at((pos.0 as usize, pos.1 as usize)).bg,
                    },
                    attr,
                },
            ),
            !old(self)@.holds((pos.0 as usize, pos.1 as usize)) ==> final(self)@ == old(self)@,
    {
        self.put(ch, pos, fg, bg, attr);
    }
}

/// Appends the operations that switch on the attributes of a set.
pub fn set_term_attrs(ops: &mut Vec<Op>, attr: Attr)
    ensures
        final(ops)@ == old(ops)@ + enabling(attr),
{
    if attr.bits & BOLD == BOLD {
        ops.push(Op::Bold);
    }
    if attr.bits & UNDERLINE == UNDERLINE {
        ops.push(Op::Underline);
    }
    if attr.bits & BLINK == BLINK {
        ops.push(Op::Blink);
    }
    if attr.bits & REVERSE == REVERSE {
        ops.push(Op::Reverse);
    }
    assert(ops@ =~= old(ops)@ + enabling(attr));
}

/// Appends the operations that bring the terminal from the style of `last`
/// to that of `curr`.
pub fn update_term_attrs(ops: &mut Vec<Op>, last: &Glyph, curr: &Glyph)
    ensures
        final(ops)@ == old(ops)@ + updating(*last, *curr),
{
    if curr.attr.contains(last.attr) {
        set_term_attrs(ops, curr.attr.difference(last.attr));
        if curr.fg != last.fg {
            ops.push(Op::Foreground(curr.fg));
        }
        if curr.bg != last.bg {
            ops.push(Op::Background(curr.bg));
        }
        assert(ops@ =~= old(ops)@ + updating(*last, *curr));
    } else {
        ops.push(Op::Reset);
        ops.push(Op::Foreground(curr.fg));
        ops.push(Op::Background(curr.bg));
        set_term_attrs(ops, curr.attr);
        assert(ops@ =~= old(ops)@ + updating(*last, *curr));
    }
}

} // verus!
