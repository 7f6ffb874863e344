use torch::ui::backend::draw_str;
use torch::ui::backend::spell;
use torch::ui::backend::tui::update_term_attrs;
use torch::ui::backend::tui::Glyph;
use torch::ui::backend::tui::Op;
use torch::ui::backend::tui::TuiBuffer;
use torch::ui::backend::Attr;
use torch::ui::backend::Buffer;
use torch::ui::backend::Component;
use torch::ui::backend::Event;
use torch::ui::backend::Rgb;

fn white() -> Rgb {
    Rgb::new(0xffffff)
}

fn red() -> Rgb {
    Rgb::new(0xff0000)
}

fn text_of(buffer: &TuiBuffer) -> Vec<String> {
    let (lines, cols) = buffer.size();
    (0..lines).map(|line| (0..cols).map(|col| buffer.0.index((line, col)).ch).collect()).collect()
}

fn update(last: Glyph, curr: Glyph) -> Vec<Op> {
    let mut ops = Vec::new();
    update_term_attrs(&mut ops, &last, &curr);
    ops
}

/// A surface that notes what is drawn on it.
struct Notes(Vec<(char, (u16, u16))>);

impl Buffer for Notes {
    fn draw_ch(&mut self, ch: char, pos: (u16, u16), _: Rgb, _: Option<Rgb>, _: Attr) {
        self.0.push((ch, pos));
    }
}

#[test]
fn events_compare() {
    assert_eq!(Event::Key(b'h'), Event::Key(104));
    assert_ne!(Event::Key(b'h'), Event::Key(b'j'));
}

#[test]
fn text_is_spelled_along_a_line() {
    assert_eq!(spell("ab", (1, 2)), vec![('a', (1, 2)), ('b', (1, 3))]);
    assert!(spell("", (1, 2)).is_empty());
}

#[test]
fn newline_begins_the_next_line() {
    assert_eq!(
        spell("ab\nc\n\nd", (1, 2)),
        vec![('a', (1, 2)), ('b', (1, 3)), ('c', (2, 2)), ('d', (4, 2))]
    );
}

#[test]
fn spelled_places_beyond_u16_are_left_out() {
    assert_eq!(spell("abc", (0, 65534)), vec![('a', (0, 65534)), ('b', (0, 65535))]);
    assert_eq!(spell("a\nb", (65535, 0)), vec![('a', (65535, 0))]);
    assert_eq!(spell("abc\nd", (9, 65535)), vec![('a', (9, 65535)), ('d', (10, 65535))]);
}

#[test]
fn draw_str_draws_glyph_by_glyph() {
    let mut notes = Notes(Vec::new());
    draw_str(&mut notes, "hi\nyo", (3, 4), white(), None, Attr::none());
    assert_eq!(notes.0, vec![('h', (3, 4)), ('i', (3, 5)), ('y', (4, 4)), ('o', (4, 5))]);
}

#[test]
fn component_draws_relative_to_its_corner() {
    let component = Component::new((2, 3), (5, 10), ());
    assert_eq!((component.line, component.col, component.lines, component.cols), (2, 3, 5, 10));
    let mut notes = Notes(Vec::new());
    component.draw_ch('x', &mut notes, (1, 1), white(), None, Attr::none());
    component.draw_str("ab\nc", &mut notes, (0, 2), white(), None, Attr::none());
    assert_eq!(notes.0, vec![('x', (3, 4)), ('a', (2, 5)), ('b', (2, 6)), ('c', (3, 5))]);
}

#[test]
fn border_frames_the_component() {
    let component = Component::new((1, 1), (3, 4), ());
    let mut buffer = TuiBuffer::new((5, 6));
    component.draw_border(&mut buffer);
    assert_eq!(text_of(&buffer), vec!["      ", " ┌──┐ ", " │  │ ", " └──┘ ", "      "]);
    assert_eq!(buffer.0.index((1, 1)).fg, Rgb::new(0xcccccc));
}

#[test]
fn border_of_a_single_line() {
    let component = Component::new((0, 0), (1, 3), ());
    let mut notes = Notes(Vec::new());
    component.draw_border(&mut notes);
    assert_eq!(
        notes.0,
        vec![('┌', (0, 0)), ('┐', (0, 2)), ('─', (0, 1)), ('─', (0, 1))]
    );
}

#[test]
fn new_tui_buffer_is_blank() {
    let buffer = TuiBuffer::new((2, 3));
    assert_eq!(buffer.size(), (2, 3));
    assert_eq!(*buffer.first(), Glyph::new());
    assert_eq!(text_of(&buffer), vec!["   ", "   "]);
    assert_eq!(buffer.windows(2).len(), 5);
    assert_eq!(Glyph::new(), Glyph { ch: ' ', fg: Rgb::black(), bg: Rgb::black(), attr: Attr::none() });
}

#[test]
fn glyph_without_background_keeps_the_one_that_is_there() {
    let mut buffer = TuiBuffer::new((1, 2));
    buffer.draw_ch('a', (0, 1), white(), Some(red()), Attr::bold());
    assert_eq!(*buffer.0.index((0, 1)), Glyph { ch: 'a', fg: white(), bg: red(), attr: Attr::bold() });
    buffer.put('b', (0, 1), red(), None, Attr::none());
    assert_eq!(*buffer.0.index((0, 1)), Glyph { ch: 'b', fg: red(), bg: red(), attr: Attr::none() });
    buffer.put('c', (1, 0), red(), None, Attr::none());
    buffer.put('c', (0, 2), red(), None, Attr::none());
    assert_eq!(text_of(&buffer), vec![" b"]);
}

#[test]
fn clear_and_resize() {
    let mut buffer = TuiBuffer::new((1, 2));
    buffer.put('a', (0, 0), white(), None, Attr::none());
    buffer.put('b', (0, 1), white(), None, Attr::none());
    buffer.resize((2, 2));
    assert_eq!(text_of(&buffer), vec!["ab", "  "]);
    buffer.resize((2, 1));
    assert_eq!(text_of(&buffer), vec!["a", "b"]);
    buffer.clear();
    assert_eq!(text_of(&buffer), vec![" ", " "]);
}

#[test]
fn kept_attributes_are_not_sent_again() {
    let last = Glyph { ch: 'a', fg: white(), bg: red(), attr: Attr::bold() };
    let curr = Glyph { ch: 'b', fg: red(), bg: red(), attr: Attr::bold().union(Attr::reverse()) };
    assert_eq!(update(last, curr), vec![Op::Reverse, Op::Foreground(red())]);
    assert_eq!(update(last, last), Vec::new());
    let all = Attr::bold().union(Attr::underline()).union(Attr::blink()).union(Attr::reverse());
    assert_eq!(
        update(Glyph::new(), Glyph { attr: all, ..Glyph::new() }),
        vec![Op::Bold, Op::Underline, Op::Blink, Op::Reverse]
    );
}

#[test]
fn lost_attribute_forces_a_reset() {
    let last = Glyph { ch: 'a', fg: white(), bg: red(), attr: Attr::bold().union(Attr::blink()) };
    let curr = Glyph { ch: 'b', fg: white(), bg: red(), attr: Attr::blink() };
    assert_eq!(
        update(last, curr),
        vec![Op::Reset, Op::Foreground(white()), Op::Background(red()), Op::Blink]
    );
}

#[test]
fn plan_homes_and_prints_every_glyph() {
    let mut buffer = TuiBuffer::new((1, 3));
    buffer.put('a', (0, 0), red(), None, Attr::bold());
    buffer.put('b', (0, 1), red(), None, Attr::bold());
    buffer.put('c', (0, 2), white(), None, Attr::none());
    assert_eq!(
        buffer.plan(),
        vec![
            Op::Home,
            Op::Foreground(red()),
            Op::Background(Rgb::black()),
            Op::Print('a'),
            Op::Print('b'),
            Op::Reset,
            Op::Foreground(white()),
            Op::Background(Rgb::black()),
            Op::Print('c'),
        ]
    );
}
