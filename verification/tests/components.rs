use torch::ui::buffer::Buffer;
use torch::ui::buffer::Glyph;
use torch::ui::buffer::Modifiers;
use torch::ui::buffer::Rgb;
use torch::ui::components::lay_out;
use torch::ui::components::Component;
use torch::ui::components::Pen;
use torch::ui::components::Ui;

type View = Box<dyn Fn(Pen)>;

fn white() -> Rgb {
    Rgb::new(0xffffff)
}

fn text_of(buffer: &Buffer) -> Vec<String> {
    let (lines, cols) = buffer.0.size();
    (0..lines).map(|line| (0..cols).map(|col| buffer.0.index((line, col)).ch).collect()).collect()
}

fn pen(buffer: &mut Buffer, corner: (u16, u16), size: (u16, u16)) -> Pen<'_> {
    Pen { buffer, line: corner.0, col: corner.1, lines: size.0, cols: size.1 }
}

#[test]
fn text_is_laid_out_along_a_line() {
    assert_eq!(lay_out("ab", (1, 2), 5, 10), vec![('a', (1, 2)), ('b', (1, 3))]);
    assert_eq!(
        lay_out("a\nb\n\nc", (0, 1), 5, 10),
        vec![('a', (0, 1)), ('b', (1, 1)), ('c', (3, 1))]
    );
}

#[test]
fn text_wraps_once_it_has_passed_the_width() {
    // A pen of three columns holds four glyphs in a line.
    assert_eq!(
        lay_out("abcdef", (0, 0), 5, 3),
        vec![('a', (0, 0)), ('b', (0, 1)), ('c', (0, 2)), ('d', (0, 3)), ('e', (1, 0)), ('f', (1, 1))]
    );
    assert_eq!(
        lay_out("abcd", (0, 2), 5, 3),
        vec![('a', (0, 2)), ('b', (0, 3)), ('c', (1, 2)), ('d', (1, 3))]
    );
}

#[test]
fn wrapping_ends_on_the_last_line_of_the_pen() {
    assert_eq!(lay_out("abcdefgh", (0, 0), 1, 3).len(), 4);
    assert_eq!(lay_out("abcdefgh", (0, 0), 0, 3).len(), 4);
    assert_eq!(lay_out("abcdefghijk", (0, 0), 2, 3).len(), 8);
    // A text that begins beyond the width has no line to wrap to.
    assert!(lay_out("ab", (0, 4), 5, 3).is_empty());
}

#[test]
fn pen_draws_relative_to_its_corner() {
    let mut buffer = Buffer::new((3, 5));
    {
        let mut pen = pen(&mut buffer, (1, 2), (2, 3));
        pen.draw('x', (0, 0), white(), Rgb::black(), Modifiers::bold());
        pen.draw('y', (1, 2), white(), Rgb::black(), Modifiers::none());
        // Outside the buffer.
        pen.draw('z', (2, 0), white(), Rgb::black(), Modifiers::none());
        pen.draw('z', (0, 3), white(), Rgb::black(), Modifiers::none());
        pen.draw('z', (65535, 65535), white(), Rgb::black(), Modifiers::none());
    }
    assert_eq!(text_of(&buffer), vec!["     ", "  x  ", "    y"]);
    assert_eq!(
        *buffer.0.index((1, 2)),
        Glyph { ch: 'x', fg: white(), bg: Rgb::black(), modifiers: Modifiers::bold() }
    );
}

#[test]
fn pen_draws_text_that_wraps() {
    let mut buffer = Buffer::new((4, 6));
    {
        let mut pen = pen(&mut buffer, (1, 1), (3, 2));
        pen.draw_str("abcdefg", (0, 0), white(), Rgb::black(), Modifiers::none());
    }
    assert_eq!(text_of(&buffer), vec!["      ", " abc  ", " def  ", " g    "]);
}

#[test]
fn ui_takes_over_and_hands_back_the_terminal() {
    let mut out = String::new();
    let ui: Ui<View> = Ui::new((2, 3), &mut out);
    assert_eq!(out, "\x1b[0m\x1b[?25l\x1b[?1049h");
    assert!(ui.components.is_empty());
    assert_eq!(ui.buffer.0.size(), (2, 3));
    let mut out = String::new();
    Ui::<View>::leave(&mut out);
    assert_eq!(out, "\x1b[0m\x1b[?25h\x1b[?1049l");
}

#[test]
fn components_are_drawn_with_their_pens() {
    let title: View = Box::new(|mut pen: Pen| {
        pen.draw_str("hi", (0, 0), Rgb::black(), Rgb::black(), Modifiers::none())
    });
    let body: View = Box::new(|mut pen: Pen| {
        assert_eq!((pen.line, pen.col, pen.lines, pen.cols), (1, 1, 1, 2));
        pen.draw('!', (0, 0), Rgb::black(), Rgb::black(), Modifiers::none())
    });
    let components = vec![Component::new((0, 0), (1, 3), title), Component::new((1, 1), (1, 2), body)];
    let mut out = String::new();
    let mut ui: Ui<View> = Ui::new((1, 1), &mut out);
    ui.set_components(&components);
    assert_eq!(ui.components.len(), 2);
    let mut frame = String::new();
    ui.render_components((2, 3), &mut frame);
    assert_eq!(text_of(&ui.buffer), vec!["hi ", " ! "]);
    assert_eq!(
        frame,
        "\x1b[2J\x1b[38;2;0;0;0m\x1b[48;2;0;0;0m\x1b[1;1Hi  ! "
    );
}

#[test]
fn pen_for_a_component_covers_its_part() {
    let mut out = String::new();
    let mut ui: Ui<View> = Ui::new((2, 3), &mut out);
    let component: Component<View> = Component::new((1, 2), (3, 4), Box::new(|_: Pen| ()));
    assert_eq!((component.line, component.col, component.lines, component.cols), (1, 2, 3, 4));
    {
        let mut pen = ui.pen_for(&component);
        assert_eq!((pen.line, pen.col, pen.lines, pen.cols), (1, 2, 3, 4));
        pen.draw('x', (0, 0), white(), Rgb::black(), Modifiers::none());
    }
    assert_eq!(text_of(&ui.buffer), vec!["   ", "  x"]);
}
