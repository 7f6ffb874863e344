//! What a user interface has to offer, whatever it draws on, and the
//! components that are drawn through it.

pub mod tui;

pub use crate::ui::buffer::Rgb;

use crate::ui::buffer::Modifiers;
use vstd::prelude::*;
use vstd::std_specs::iter::IteratorSpec;

verus! {

/// The display attributes of a glyph.
pub type Attr = Modifiers;

/// What the user did.
#[derive(Clone, Copy, Debug, PartialEq, Eq, Structural)]
pub enum Event {
    /// A key was pressed; the byte that the terminal sent.
    Key(u8),
}

/// A user interface.
pub trait Ui<V>: Sized {
    fn new() -> Self;

    fn render(&mut self, components: &[Component<V>]);

    fn size(&self) -> (usize, usize);

    fn poll_event(&mut self) -> Event;
}

/// A surface that glyphs can be put on.
pub trait Buffer {
    /// Puts a glyph at `(line, col)`. Without a background, the glyph keeps
    /// the background that is there.
    fn draw_ch(&mut self, ch: char, pos: (u16, u16), fg: Rgb, bg: Option<Rgb>, attr: Attr);
}

/// Columns are counted up to this number; no glyph beyond it has a place.
pub const COLUMN_LIMIT: u32 = 0x10000;

/// The offset of the glyph after one at `offset`.
pub open spec fn advanced(offset: int) -> int {
    if offset < COLUMN_LIMIT {
        offset + 1
    } else {
        offset
    }
}

/// The glyphs of a text with their places: one column for each glyph, and
/// a new line, begun at column `col`, after every newline. Places that do
/// not fit in `u16` are left out.
pub open spec fn spelled(text: Seq<char>, index: int, offset: int, line: int, col: int) -> Seq<
    (char, (u16, u16)),
>
    decreases text.len() - index,
{
    if index < 0 || index >= text.len() {
        Seq::empty()
    } else if text[index] == '\n' {
        spelled(text, index + 1, 0, line + 1, col)
    } else {
        (if 0 <= line <= 0xffff && 0 <= col + offset <= 0xffff {
            seq![(text[index], (line as u16, (col + offset) as u16))]
        } else {
            Seq::empty()
        }) + spelled(text, index + 1, advanced(offset), line, col)
    }
}

/// Below the last line that `u16` can name, nothing is placed.
pub proof fn lemma_spelled_out(text: Seq<char>, index: int, offset: int, line: int, col: int)
    requires
        0 <= index,
        line > 0xffff,
    ensures
        spelled(text, index, offset, line, col) == Seq::<(char, (u16, u16))>::empty(),
    decreases text.len() - index,
{
    if index < text.len() {
        if text[index] == '\n' {
            lemma_spelled_out(text, index + 1, 0, line + 1, col);
        } else {
            lemma_spelled_out(text, index + 1, advanced(offset), line, col);
        }
    }
}

/// The places of the glyphs of a text that begins at `pos`.
pub fn spell(text: &str, pos: (u16, u16)) -> (places: Vec<(char, (u16, u16))>)
    ensures
        places@ == spelled(text@, 0, 0, pos.0 as int, pos.1 as int),
{
    let mut places: Vec<(char, (u16, u16))> = Vec::new();
    let mut chars = text.chars();
    let ghost mut index: int = 0;
    let mut offset: u32 = 0;
    let mut line: u32 = pos.0 as u32;
    let ghost whole = spelled(text@, 0, 0, pos.0 as int, pos.1 as int);
    loop
        invariant_except_break
            0 <= index <= text@.len(),
            line <= 0xffff,
            offset <= COLUMN_LIMIT,
            chars.remaining() == text@.skip(index),
            chars.obeys_prophetic_iter_laws(),
            places@ + spelled(text@, index, offset as int, line as int, pos.1 as int) == whole,
        ensures
            places@ == whole,
        decreases text@.len() - index,
    {
        let ghost before = places@;
        let ghost rest = spelled(text@, index, offset as int, line as int, pos.1 as int);
        match chars.next() {
            None => {
                assert(places@ =~= places@ + rest);
                break ;
            },
            Some(c) => {
                assert(text@.skip(index)[0] == text@[index]);
                assert(text@.skip(index).drop_first() =~= text@.skip(index + 1));
                if c == '\n' {
                    line = line + 1;
                    offset = 0;
                } else {
                    let to_col = pos.1 as u32 + offset;
                    if to_col <= 0xffff {
                        places.push((c, (line as u16, to_col as u16)));
                    }
                    if offset < COLUMN_LIMIT {
                        offset = offset + 1;
                    }
                }
                proof {
                    index = index + 1;
                }
                assert(places@ + spelled(text@, index, offset as int, line as int, pos.1 as int)
                    =~= before + rest);
                if line > 0xffff {
                    proof {
                        lemma_spelled_out(text@, index, offset as int, line as int, pos.1 as int);
                    }
                    assert(places@ =~= before + rest);
                    break ;
                }
            },
        }
    }
    places
}

/// Whether drawing `glyphs` makes a call of number `index`, counted from
/// zero.
pub open spec fn is_call(glyphs: Seq<(char, (u16, u16))>, index: int) -> bool {
    0 <= index < glyphs.len()
}

/// The left and right sides of a frame of `lines` by `cols`, from `line`
/// down: a corner or a bar at either end of every line.
pub open spec fn sides(lines: u16, cols: u16, line: int) -> Seq<(char, (u16, u16))>
    decreases lines - line,
{
    if line < 0 || line >= lines {
        Seq::empty()
    } else {
        seq![
            (
                if line == 0 {
                    '┌'
                } else if line == lines - 1 {
                    '└'
                } else {
                    '│'
                },
                (line as u16, 0u16),
            ),
            (
                if line == 0 {
                    '┐'
                } else if line == lines - 1 {
                    '┘'
                } else {
                    '│'
                },
                (line as u16, (cols - 1) as u16),
            ),
        ] + sides(lines, cols, line + 1)
    }
}

/// The top and bottom of a frame of `lines` by `cols`, from `col` on: a
/// dash on the first and the last line of every column between the
/// corners.
pub open spec fn bars(lines: u16, cols: u16, col: int) -> Seq<(char, (u16, u16))>
    decreases cols - col,
{
    if col < 1 || col >= cols - 1 {
        Seq::empty()
    } else {
        seq![('─', (0u16, col as u16)), ('─', ((lines - 1) as u16, col as u16))] + bars(
            lines,
            cols,
            col + 1,
        )
    }
}

/// The glyphs of a frame with their places inside the component.
pub open spec fn frame(lines: u16, cols: u16) -> Seq<(char, (u16, u16))> {
    sides(lines, cols, 0) + bars(lines, cols, 1)
}

/// The glyphs with their places moved by a corner.
pub open spec fn moved(glyphs: Seq<(char, (u16, u16))>, corner: (u16, u16)) -> Seq<
    (char, (u16, u16)),
> {
    Seq::new(glyphs.len(), |i: int| moved_one(glyphs[i], corner))
}

/// One glyph with its place moved by a corner.
pub open spec fn moved_one(glyph: (char, (u16, u16)), corner: (u16, u16)) -> (char, (u16, u16)) {
    (glyph.0, ((glyph.1.0 + corner.0) as u16, (glyph.1.1 + corner.1) as u16))
}

/// Puts glyphs on a surface, one after the other.
///
/// The contract follows the surface through the calls: `trail` holds it
/// before the first call, between any two, and after the last.
pub fn draw_all<B: Buffer>(
    buffer: &mut B,
    glyphs: &Vec<(char, (u16, u16))>,
    fg: Rgb,
    bg: Option<Rgb>,
    attr: Attr,
)
    ensures
        exists|trail: Seq<B>|
            {
                &&& #[trigger] trail.len() == glyphs@.len() + 1
                &&& trail[0] == *old(buffer)
                &&& trail[glyphs@.len() as int] == *final(buffer)
                &&& forall|i: int| #[trigger]
                    is_call(glyphs@, i) ==> exists|surface: &mut B|
                        *surface == trail[i] && *final(surface) == trail[i + 1]
                            && #[trigger] call_ensures(
                            B::draw_ch,
                            (surface, glyphs@[i].0, glyphs@[i].1, fg, bg, attr),
                            (),
                        )
            },
{
    let ghost mut trail: Seq<B> = seq![*buffer];
    let mut done: usize = 0;
    while done < glyphs.len()
        invariant
            done <= glyphs@.len(),
            trail.len() == done + 1,
            trail[0] == *old(buffer),
            trail[done as int] == *buffer,
            forall|i: int| #[trigger]
                is_call(glyphs@, i) && i < done ==> exists|surface: &mut B|
                    *surface == trail[i] && *final(surface) == trail[i + 1]
                        && #[trigger] call_ensures(
                        B::draw_ch,
                        (surface, glyphs@[i].0, glyphs@[i].1, fg, bg, attr),
                        (),
                    ),
        decreases glyphs@.len() - done,
    {
        let glyph = glyphs[done];
        let ghost before = *buffer;
        let ghost settled = trail;
        buffer.draw_ch(glyph.0, glyph.1, fg, bg, attr);
        proof {
            assert(exists|surface: &mut B|
                *surface == before && *final(surface) == *buffer && #[trigger] call_ensures(
                    B::draw_ch,
                    (surface, glyph.0, glyph.1, fg, bg, attr),
                    (),
                ));
            trail = trail.push(*buffer);
            assert forall|i: int| #[trigger] is_call(glyphs@, i) && i < done + 1 implies exists|
                surface: &mut B,
            |
                *surface == trail[i] && *final(surface) == trail[i + 1] && #[trigger] call_ensures(
                    B::draw_ch,
                    (surface, glyphs@[i].0, glyphs@[i].1, fg, bg, attr),
                    (),
                ) by {
                if i < done {
                    assert(trail[i] == settled[i] && trail[i + 1] == settled[i + 1]);
                }
            }
        }
        done = done + 1;
    }
    assert({
        &&& trail.len() == glyphs@.len() + 1
        &&& trail[0] == *old(buffer)
        &&& trail[glyphs@.len() as int] == *buffer
        &&& forall|i: int| #[trigger]
            is_call(glyphs@, i) ==> exists|surface: &mut B|
                *surface == trail[i] && *final(surface) == trail[i + 1] && #[trigger] call_ensures(
                    B::draw_ch,
                    (surface, glyphs@[i].0, glyphs@[i].1, fg, bg, attr),
                    (),
                )
    });
}

/// Puts a text on a surface, its first glyph at `pos`; a newline begins
/// the next line at the column of `pos`.
pub fn draw_str<B: Buffer>(
    buffer: &mut B,
    text: &str,
    pos: (u16, u16),
    fg: Rgb,
    bg: Option<Rgb>,
    attr: Attr,
)
    ensures
        exists|trail: Seq<B>|
            {
                let glyphs = spelled(text@, 0, 0, pos.0 as int, pos.1 as int);
                &&& #[trigger] trail.len() == glyphs.len() + 1
                &&& trail[0] == *old(buffer)
                &&& trail[glyphs.len() as int] == *final(buffer)
                &&& forall|i: int| #[trigger]
                    is_call(glyphs, i) ==> exists|surface: &mut B|
                        *surface == trail[i] && *final(surface) == trail[i + 1]
                            && #[trigger] call_ensures(
                            B::draw_ch,
                            (surface, glyphs[i].0, glyphs[i].1, fg, bg, attr),
                            (),
                        )
            },
{
    let places = spell(text, pos);
    draw_all(buffer, &places, fg, bg, attr);
}

/// A part of the screen that draws itself.
pub struct Component<V> {
    pub line: u16,
    pub col: u16,
    pub lines: u16,
    pub cols: u16,
    pub view: V,
}

impl<V> Component<V> {
    /// A component of the given size with its top-left corner at `corner`.
    pub fn new(corner: (u16, u16), size: (u16, u16), view: V) -> (component: Component<V>)
        ensures
            component.line == corner.0,
            component.col == corner.1,
            component.lines == size.0,
            component.cols == size.1,
            component.view == view,
    {
        Component { line: corner.0, col: corner.1, lines: size.0, cols: size.1, view }
    }

    /// Whether a position inside the component has a place on the screen
    /// that `u16` can name.
    pub open spec fn reaches(&self, pos: (u16, u16)) -> bool {
        pos.0 + self.line <= 0xffff && pos.1 + self.col <= 0xffff
    }

    /// Puts a glyph at a position inside the component.
    pub fn draw_ch<B: Buffer>(
        &self,
        ch: char,
        buffer: &mut B,
        pos: (u16, u16),
        fg: Rgb,
        bg: Option<Rgb>,
        attr: Attr,
    )
        requires
            self.reaches(pos),
        ensures
            exists|surface: &mut B|
                *surface == *old(buffer) && *final(surface) == *final(buffer)
                    && #[trigger] call_ensures(
                    B::draw_ch,
                    (
                        surface,
                        ch,
                        ((pos.0 + self.line) as u16, (pos.1 + self.col) as u16),
                        fg,
                        bg,
                        attr,
                    ),
                    (),
                ),
    {
        let ghost before = *buffer;
        let place = (pos.0 + self.line, pos.1 + self.col);
        buffer.draw_ch(ch, place, fg, bg, attr);
        assert(exists|surface: &mut B|
            *surface == before && *final(surface) == *buffer && #[trigger] call_ensures(
                B::draw_ch,
                (surface, ch, place, fg, bg, attr),
                (),
            ));
    }

    /// Puts a text at a position inside the component.
    pub fn draw_str<B: Buffer>(
        &self,
        text: &str,
        buffer: &mut B,
        pos: (u16, u16),
        fg: Rgb,
        bg: Option<Rgb>,
        attr: Attr,
    )
        requires
            self.reaches(pos),
        ensures
            exists|trail: Seq<B>|
                {
                    let glyphs = spelled(
                        text@,
                        0,
                        0,
                        pos.0 + self.line,
                        pos.1 + self.col,
                    );
                    &&& #[trigger] trail.len() == glyphs.len() + 1
                    &&& trail[0] == *old(buffer)
                    &&& trail[glyphs.len() as int] == *final(buffer)
                    &&& forall|i: int| #[trigger]
                        is_call(glyphs, i) ==> exists|surface: &mut B|
                            *surface == trail[i] && *final(surface) == trail[i + 1]
                                && #[trigger] call_ensures(
                                B::draw_ch,
                                (surface, glyphs[i].0, glyphs[i].1, fg, bg, attr),
                                (),
                            )
                },
    {
        draw_str(buffer, text, (pos.0 + self.line, pos.1 + self.col), fg, bg, attr);
    }

    /// Draws a frame of lines along the edge of the component, in light
    /// gray: first its sides from the top down, then its top and bottom
    /// from left to right.
    pub fn draw_border<B: Buffer>(&self, buffer: &mut B)
        requires
            self.lines > 0,
            self.cols > 0,
            self.line + self.lines <= 0x10000,
            self.col + self.cols <= 0x10000,
        ensures
            exists|trail: Seq<B>|
                {
                    let glyphs = moved(frame(self.lines, self.cols), (self.line, self.col));
                    &&& #[trigger] trail.len() == glyphs.len() + 1
                    &&& trail[0] == *old(buffer)
                    &&& trail[glyphs.len() as int] == *final(buffer)
                    &&& forall|i: int| #[trigger]
                        is_call(glyphs, i) ==> exists|surface: &mut B|
                            *surface == trail[i] && *final(surface) == trail[i + 1]
                                && #[trigger] call_ensures(
                                B::draw_ch,
                                (
                                    surface,
                                    glyphs[i].0,
                                    glyphs[i].1,
                                    Rgb { r: 0xcc, g: 0xcc, b: 0xcc },
                                    None,
                                    Modifiers { bits: 0 },
                                ),
                                (),
                            )
                },
    {
        let white: Rgb = Rgb::new(0xcccccc);
        assert(white == (Rgb { r: 0xcc, g: 0xcc, b: 0xcc })) by {
            assert(white.color() == crate::color::Color::from_hex(0xcccccc));
        }
        let corner = (self.line, self.col);
        let mut glyphs: Vec<(char, (u16, u16))> = Vec::new();
        let ghost whole = moved(frame(self.lines, self.cols), corner);
        let mut line: u16 = 0;
        while line < self.lines
            invariant
                line <= self.lines,
                self.lines > 0,
                self.cols > 0,
                self.line + self.lines <= 0x10000,
                self.col + self.cols <= 0x10000,
                corner == (self.line, self.col),
                glyphs@ + moved(sides(self.lines, self.cols, line as int), corner) == moved(
                    sides(self.lines, self.cols, 0),
                    corner,
                ),
            decreases self.lines - line,
        {
            let left = if line == 0 {
                '┌'
            } else if line == self.lines - 1 {
                '└'
            } else {
                '│'
            };
            let right = if line == 0 {
                '┐'
            } else if line == self.lines - 1 {
                '┘'
            } else {
                '│'
            };
            let ghost before = glyphs@;
            glyphs.push((left, (line + self.line, self.col)));
            glyphs.push((right, (line + self.line, self.cols - 1 + self.col)));
            assert(glyphs@ + moved(sides(self.lines, self.cols, line + 1), corner) =~= before
                + moved(sides(self.lines, self.cols, line as int), corner));
            line = line + 1;
        }
        let ghost sided = glyphs@;
        assert(sided =~= moved(sides(self.lines, self.cols, 0), corner));
        let mut col: u16 = 1;
        while col < self.cols - 1
            invariant
                1 <= col,
                self.lines > 0,
                self.cols > 0,
                self.line + self.lines <= 0x10000,
                self.col + self.cols <= 0x10000,
                corner == (self.line, self.col),
                glyphs@ + moved(bars(self.lines, self.cols, col as int), corner) == sided + moved(
                    bars(self.lines, self.cols, 1),
                    corner,
                ),
            decreases self.cols - col,
        {
            let ghost before = glyphs@;
            glyphs.push(('─', (self.line, col + self.col)));
            glyphs.push(('─', (self.lines - 1 + self.line, col + self.col)));
            assert(glyphs@ + moved(bars(self.lines, self.cols, col + 1), corner) =~= before
                + moved(bars(self.lines, self.cols, col as int), corner));
            col = col + 1;
        }
        assert(glyphs@ =~= whole);
        draw_all(buffer, &glyphs, white, None, Modifiers::none());
    }
}

} // verus!
