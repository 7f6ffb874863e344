//! A buffer of glyphs on a grid, flushed in full.
//!
//! Every glyph is printed; between two glyphs only what differs is sent.
//! Modifiers can be switched on one by one, but a modifier can only be
//! switched off by a reset of all, after which the colors are sent again.

use crate::ansi::background_code;
use crate::ansi::foreground_code;
use crate::ansi::move_to_code;
use crate::ansi::queue_attribute;
use crate::ansi::queue_background;
use crate::ansi::queue_foreground;
use crate::ansi::queue_move_to;
use crate::ansi::queue_print;
use crate::ansi::sgr_code;
use crate::ansi::Attribute;
use crate::color::Color;
use crate::grid::Grid;
use crate::grid::GridView;
use vstd::prelude::*;

verus! {

/// Bit of the bold modifier.
pub const BOLD: u8 = 1;

/// Bit of the underline modifier.
pub const UNDERLINE: u8 = 2;

/// Bit of the blink modifier.
pub const BLINK: u8 = 4;

/// Bit of the reverse-video modifier.
pub const REVERSE: u8 = 8;

/// A set of display modifiers, one bit for each.
#[derive(Clone, Copy, Debug, PartialEq, Eq, Structural)]
pub struct Modifiers {
    pub bits: u8,
}

impl Modifiers {
    /// Whether every modifier of `other` is in the set.
    pub open spec fn has(self, other: Modifiers) -> bool {
        self.bits & other.bits == other.bits
    }

    /// The modifiers of this set that `other` lacks.
    pub open spec fn minus(self, other: Modifiers) -> Modifiers {
        Modifiers { bits: self.bits & !other.bits }
    }

    /// The empty set.
    pub fn none() -> (modifiers: Modifiers)
        ensures
            modifiers.bits == 0,
    {
        Modifiers { bits: 0 }
    }

    pub fn bold() -> (modifiers: Modifiers)
        ensures
            modifiers.bits == BOLD,
    {
        Modifiers { bits: BOLD }
    }

    pub fn underline() -> (modifiers: Modifiers)
        ensures
            modifiers.bits == UNDERLINE,
    {
        Modifiers { bits: UNDERLINE }
    }

    pub fn blink() -> (modifiers: Modifiers)
        ensures
            modifiers.bits == BLINK,
    {
        Modifiers { bits: BLINK }
    }

    pub fn reverse() -> (modifiers: Modifiers)
        ensures
            modifiers.bits == REVERSE,
    {
        Modifiers { bits: REVERSE }
    }

    pub fn contains(&self, other: Modifiers) -> (inside: bool)
        ensures
            inside == self.has(other),
    {
        self.bits & other.bits == other.bits
    }

    pub fn is_empty(&self) -> (empty: bool)
        ensures
            empty == (self.bits == 0),
    {
        self.bits == 0
    }

    /// The modifiers of either set.
    pub fn union(self, other: Modifiers) -> (both: Modifiers)
        ensures
            both.bits == self.bits | other.bits,
    {
        Modifiers { bits: self.bits | other.bits }
    }

    /// The modifiers of this set that `other` lacks.
    pub fn difference(self, other: Modifiers) -> (rest: Modifiers)
        ensures
            rest == self.minus(other),
    {
        Modifiers { bits: self.bits & !other.bits }
    }
}

/// A set without `other` holds nothing of `other`, and nothing that the
/// set did not hold; taking away what is not there changes nothing.
pub proof fn lemma_minus(set: Modifiers, other: Modifiers)
    ensures
        set.minus(other).bits & other.bits == 0,
        set.has(set.minus(other)),
        set.bits & other.bits == 0 ==> set.minus(other) == set,
        set.minus(set).bits == 0,
{
    let a = set.bits;
    let b = other.bits;
    assert((a & !b) & b == 0 && a & (a & !b) == (a & !b) && (a & b == 0 ==> a & !b == a) && a & !a
        == 0) by (bit_vector);
}

/// A 24-bit color.
#[derive(Clone, Copy, Debug, PartialEq, Eq, Structural)]
pub struct Rgb {
    pub r: u8,
    pub g: u8,
    pub b: u8,
}

impl Rgb {
    /// The color for the terminal.
    pub open spec fn color(self) -> Color {
        Color { r: self.r, g: self.g, b: self.b }
    }

    /// The color that `0xRRGGBB` denotes.
    pub fn new(hex: u32) -> (rgb: Rgb)
        ensures
            rgb.color() == Color::from_hex(hex),
    {
        let color = Color::new(hex);
        Rgb { r: color.r, g: color.g, b: color.b }
    }

    pub fn black() -> (rgb: Rgb)
        ensures
            rgb == (Rgb { r: 0, g: 0, b: 0 }),
    {
        Rgb { r: 0, g: 0, b: 0 }
    }

    fn to_color(self) -> (color: Color)
        ensures
            color == self.color(),
    {
        Color { r: self.r, g: self.g, b: self.b }
    }
}

/// A character with its colors and modifiers.
#[derive(Clone, Copy, Debug, PartialEq, Eq, Structural)]
pub struct Glyph {
    pub ch: char,
    pub fg: Rgb,
    pub bg: Rgb,
    pub modifiers: Modifiers,
}

impl Glyph {
    /// How the glyph is shown.
    pub open spec fn style(self) -> Style {
        Style { fg: self.fg.color(), bg: self.bg.color(), modifiers: self.modifiers }
    }

    fn to_style(&self) -> (style: Style)
        ensures
            style == self.style(),
    {
        Style { fg: self.fg.to_color(), bg: self.bg.to_color(), modifiers: self.modifiers }
    }

    /// A space, black on black, without modifiers.
    pub open spec fn blank() -> Glyph {
        Glyph {
            ch: ' ',
            fg: Rgb { r: 0, g: 0, b: 0 },
            bg: Rgb { r: 0, g: 0, b: 0 },
            modifiers: Modifiers { bits: 0 },
        }
    }
}

impl Default for Glyph {
    fn default() -> (glyph: Glyph)
        ensures
            glyph == Glyph::blank(),
    {
        Glyph { ch: ' ', fg: Rgb::black(), bg: Rgb::black(), modifiers: Modifiers::none() }
    }
}

/// How a glyph is shown: its colors and its modifiers.
#[derive(Clone, Copy, Debug, PartialEq, Eq, Structural)]
pub struct Style {
    pub fg: Color,
    pub bg: Color,
    pub modifiers: Modifiers,
}

impl Style {
    /// Black on black, without modifiers.
    pub open spec fn plain() -> Style {
        Style {
            fg: Color { r: 0, g: 0, b: 0 },
            bg: Color { r: 0, g: 0, b: 0 },
            modifiers: Modifiers { bits: 0 },
        }
    }
}

/// The commands that switch on the modifiers of a set, in the order bold,
/// underline, blink, reverse. `blink` is the attribute that stands for the
/// blink modifier.
pub open spec fn enable_code(added: Modifiers, blink: Attribute) -> Seq<char> {
    (if added.bits & BOLD == BOLD {
        sgr_code(Attribute::Bold.sgr())
    } else {
        Seq::empty()
    }) + (if added.bits & UNDERLINE == UNDERLINE {
        sgr_code(Attribute::Underlined.sgr())
    } else {
        Seq::empty()
    }) + (if added.bits & BLINK == BLINK {
        sgr_code(blink.sgr())
    } else {
        Seq::empty()
    }) + (if added.bits & REVERSE == REVERSE {
        sgr_code(Attribute::Reverse.sgr())
    } else {
        Seq::empty()
    })
}

/// The commands that bring the colors from those of `from` to those of
/// `to`. Where `to` lacks a modifier of `from`, all is reset and both
/// colors are sent; else each color is sent only if it differs.
pub open spec fn restyle_code(from: Style, to: Style) -> Seq<char> {
    if from.modifiers.minus(to.modifiers).bits != 0 {
        sgr_code(Attribute::Reset.sgr()) + foreground_code(to.fg) + background_code(to.bg)
    } else {
        (if from.fg != to.fg {
            foreground_code(to.fg)
        } else {
            Seq::empty()
        }) + (if from.bg != to.bg {
            background_code(to.bg)
        } else {
            Seq::empty()
        })
    }
}

/// The modifiers that have to be switched on to get from `from` to `to`:
/// all of `to` after a reset, else those that `from` lacks.
pub open spec fn added(from: Style, to: Style) -> Modifiers {
    if from.modifiers.minus(to.modifiers).bits != 0 {
        to.modifiers
    } else {
        to.modifiers.minus(from.modifiers)
    }
}

/// The commands that bring the terminal from one style to another.
pub open spec fn restyled(from: Style, to: Style, blink: Attribute) -> Seq<char> {
    restyle_code(from, to) + enable_code(added(from, to), blink)
}

/// The commands that bring the terminal from the style of `from` to that
/// of `to`.
pub open spec fn update_code(from: Glyph, to: Glyph) -> Seq<char> {
    restyled(from.style(), to.style(), Attribute::SlowBlink)
}

/// The commands for the glyphs from `index` on, each after its
/// predecessor.
pub open spec fn pairs_code(glyphs: Seq<Glyph>, index: int) -> Seq<char>
    decreases glyphs.len() - index,
{
    if index < 1 || index >= glyphs.len() {
        Seq::empty()
    } else {
        update_code(glyphs[index - 1], glyphs[index]) + seq![glyphs[index].ch] + pairs_code(
            glyphs,
            index + 1,
        )
    }
}

/// What a flush sends: the style of the first glyph, both its colors, the
/// cursor home, and then every glyph but the first with what changes
/// before it.
pub open spec fn flushed(glyphs: Seq<Glyph>) -> Seq<char>
    recommends
        glyphs.len() > 0,
{
    update_code(Glyph::blank(), glyphs[0]) + foreground_code(glyphs[0].fg.color())
        + background_code(glyphs[0].bg.color()) + move_to_code(0, 0) + pairs_code(glyphs, 1)
}

/// A buffer of glyphs.
pub struct Buffer(pub Grid<Glyph>);

impl View for Buffer {
    type V = GridView<Glyph>;

    open spec fn view(&self) -> GridView<Glyph> {
        self.0@
    }
}

/// Whether every glyph is blank.
pub open spec fn all_blank(glyphs: Seq<Glyph>) -> bool {
    forall|i: int| 0 <= i < glyphs.len() ==> glyphs[i] == Glyph::blank()
}

impl Buffer {
    /// A buffer of blank glyphs.
    pub fn new(size: (usize, usize)) -> (buffer: Buffer)
        requires
            size.0 * size.1 <= usize::MAX,
        ensures
            buffer@.wf(),
            buffer@.lines == size.0,
            buffer@.cols == size.1,
            all_blank(buffer@.cells),
    {
        Buffer(Grid::new(size, Glyph::default()))
    }

    /// Gives the buffer a new size. Glyphs keep their place in the
    /// row-major order; new places are blank.
    pub fn resize(&mut self, size: (usize, usize))
        requires
            size.0 * size.1 <= usize::MAX,
        ensures
            final(self)@.wf(),
            final(self)@.lines == size.0,
            final(self)@.cols == size.1,
            forall|i: int|
                0 <= i < final(self)@.cells.len() ==> #[trigger] final(self)@.cells[i] == (if i
                    < old(self)@.cells.len() {
                    old(self)@.cells[i]
                } else {
                    Glyph::blank()
                }),
    {
        self.0.resize(size, Glyph::default());
    }

    /// Makes every glyph blank.
    pub fn clear(&mut self)
        ensures
            final(self)@.wf(),
            final(self)@.lines == old(self)@.lines,
            final(self)@.cols == old(self)@.cols,
            all_blank(final(self)@.cells),
    {
        self.0.fill(Glyph::default());
    }

    /// Puts a glyph at `(line, col)`. A position outside the buffer is
    /// passed over.
    pub fn draw(&mut self, ch: char, pos: (u16, u16), fg: Rgb, bg: Rgb, modifiers: Modifiers)
        ensures
            final(self)@.wf(),
            final(self)@.lines == old(self)@.lines,
            final(self)@.cols == old(self)@.cols,
            old(self)@.holds((pos.0 as usize, pos.1 as usize)) ==> final(self)@.cells == old(
                self,
            )@.cells.update(
                pos.0 * old(self)@.cols + pos.1,
                Glyph { ch, fg, bg, modifiers },
            ) && final(self)@.at((pos.0 as usize, pos.1 as usize)) == (Glyph {
                ch,
                fg,
                bg,
                modifiers,
            }),
            !old(self)@.holds((pos.0 as usize, pos.1 as usize)) ==> final(self)@ == old(self)@,
    {
        let place = (pos.0 as usize, pos.1 as usize);
        let _ = self.0.size();
        if !self.0.in_bounds(place) {
            return ;
        }
        let glyph = self.0.index_mut(place);
        glyph.ch = ch;
        glyph.fg = fg;
        glyph.bg = bg;
        glyph.modifiers = modifiers;
    }

    /// The glyph at the top left.
    pub fn first(&self) -> (glyph: &Glyph)
        requires
            self@.cells.len() > 0,
        ensures
            *glyph == self@.cells[0],
    {
        let size = self.0.size();
        proof {
            if size.0 == 0 || size.1 == 0 {
                assert(size.0 * size.1 == 0) by (nonlinear_arith)
                    requires
                        size.0 == 0 || size.1 == 0,
                ;
            }
        }
        self.0.index((0, 0))
    }

    /// Every run of `size` neighbouring glyphs in the row-major order.
    pub fn windows(&self, size: usize) -> (runs: Vec<&[Glyph]>)
        requires
            size > 0,
        ensures
            runs@.len() == (if size <= self@.cells.len() {
                self@.cells.len() - size + 1
            } else {
                0
            }),
            forall|i: int|
                0 <= i < runs@.len() ==> (#[trigger] runs@[i])@ == self@.cells.subrange(i, i + size),
    {
        self.0.windows(size)
    }

    /// Appends to `writer` the commands that show the buffer.
    pub fn flush(&self, writer: &mut String)
        requires
            self@.cells.len() > 0,
        ensures
            final(writer)@ == old(writer)@ + flushed(self@.cells),
    {
        let first = *self.first();
        update_term_attrs(writer, &Glyph::default(), &first);
        queue_foreground(writer, first.fg.to_color());
        queue_background(writer, first.bg.to_color());
        queue_move_to(writer, 0, 0);
        let ghost head = writer@;
        assert(head =~= old(writer)@ + (update_code(Glyph::blank(), first) + foreground_code(
            first.fg.color(),
        ) + background_code(first.bg.color()) + move_to_code(0, 0)));
        let pairs = self.windows(2);
        let mut done: usize = 0;
        while done < pairs.len()
            invariant
                done <= pairs@.len(),
                pairs@.len() == self@.cells.len() - 1,
                forall|i: int|
                    0 <= i < pairs@.len() ==> (#[trigger] pairs@[i])@ == self@.cells.subrange(
                        i,
                        i + 2,
                    ),
                writer@ + pairs_code(self@.cells, done + 1) == head + pairs_code(self@.cells, 1),
            decreases pairs@.len() - done,
        {
            let pair = pairs[done];
            assert(pair@ == self@.cells.subrange(done as int, done + 2));
            assert(pair@[0] == self@.cells[done as int]);
            assert(pair@[1] == self@.cells[done + 1]);
            let ghost before = writer@;
            update_term_attrs(writer, &pair[0], &pair[1]);
            queue_print(writer, pair[1].ch);
            assert(writer@ + pairs_code(self@.cells, done + 2) =~= before + pairs_code(
                self@.cells,
                done + 1,
            ));
            done = done + 1;
        }
        assert(writer@ =~= writer@ + pairs_code(self@.cells, done + 1));
        assert(writer@ =~= old(writer)@ + flushed(self@.cells));
    }
}

/// Appends the commands that switch on the modifiers of a set.
fn queue_modifiers(writer: &mut String, added: Modifiers, blink: Attribute)
    ensures
        final(writer)@ == old(writer)@ + enable_code(added, blink),
{
    if added.bits & BOLD == BOLD {
        queue_attribute(writer, Attribute::Bold);
    }
    if added.bits & UNDERLINE == UNDERLINE {
        queue_attribute(writer, Attribute::Underlined);
    }
    let ghost half = writer@;
    if added.bits & BLINK == BLINK {
        queue_attribute(writer, blink);
    }
    if added.bits & REVERSE == REVERSE {
        queue_attribute(writer, Attribute::Reverse);
    }
    assert(writer@ =~= old(writer)@ + enable_code(added, blink));
}

/// Appends the commands that bring the colors from those of `from` to
/// those of `to`, and returns the modifiers that are yet to be switched on.
fn queue_restyle(writer: &mut String, from: Style, to: Style) -> (yet: Modifiers)
    ensures
        final(writer)@ == old(writer)@ + restyle_code(from, to),
        yet == added(from, to),
{
    let removed = from.modifiers.difference(to.modifiers);
    if !removed.is_empty() {
        queue_attribute(writer, Attribute::Reset);
        queue_foreground(writer, to.fg);
        queue_background(writer, to.bg);
        assert(writer@ =~= old(writer)@ + restyle_code(from, to));
        to.modifiers
    } else {
        if from.fg != to.fg {
            queue_foreground(writer, to.fg);
        }
        if from.bg != to.bg {
            queue_background(writer, to.bg);
        }
        assert(writer@ =~= old(writer)@ + restyle_code(from, to));
        to.modifiers.difference(from.modifiers)
    }
}

/// Appends the commands that bring the terminal from one style to another.
pub fn update_style(writer: &mut String, from: Style, to: Style, blink: Attribute)
    ensures
        final(writer)@ == old(writer)@ + restyled(from, to, blink),
{
    let yet = queue_restyle(writer, from, to);
    queue_modifiers(writer, yet, blink);
    assert(writer@ =~= old(writer)@ + restyled(from, to, blink));
}

/// Appends the commands that bring the terminal from the style of `from`
/// to that of `to`.
pub fn update_term_attrs(writer: &mut String, from: &Glyph, to: &Glyph)
    ensures
        final(writer)@ == old(writer)@ + update_code(*from, *to),
{
    update_style(writer, from.to_style(), to.to_style(), Attribute::SlowBlink);
}

/// Between glyphs of one style nothing is sent.
pub proof fn lemma_same_style(style: Style, blink: Attribute)
    ensures
        restyled(style, style, blink) == Seq::<char>::empty(),
{
    lemma_minus(style.modifiers, style.modifiers);
    let a = style.modifiers.bits;
    assert((a & !a) & 1 != 1 && (a & !a) & 2 != 2 && (a & !a) & 4 != 4 && (a & !a) & 8 != 8)
        by (bit_vector);
    assert(restyled(style, style, blink) =~= Seq::<char>::empty());
}

} // verus!
