use torch::color::Color;
use torch::ui::map_text_bounds;
use torch::ui::set_term_attrs;
use torch::ui::Buffer;
use torch::ui::Canvas;
use torch::ui::DrawBuilder;
use torch::ui::Element;
use torch::ui::Glimmer;
use torch::ui::Glimmers;
use torch::ui::Glyph;
use torch::ui::Modifiers;
use torch::ui::Rectangle;
use torch::ui::Ui;

const HOME: &str = "\x1b[1;1H\x1b[38;2;0;0;0m\x1b[48;2;0;0;0m";
const SETUP: &str = "\x1b[0m\x1b[?25l\x1b[?1049h";

const RED: Color = Color { r: 255, g: 0, b: 0 };
const WHITE: Color = Color { r: 255, g: 255, b: 255 };
const BLACK: Color = Color { r: 0, g: 0, b: 0 };

type View = Box<dyn FnMut(Canvas)>;

fn flushed(buffer: &Buffer) -> String {
    let mut out = String::new();
    buffer.flush(&mut out);
    out
}

fn text_of(buffer: &Buffer) -> Vec<String> {
    let (lines, cols) = buffer.size();
    (0..lines).map(|line| (0..cols).map(|col| buffer.index((line, col)).c).collect()).collect()
}

fn places(text: &str, pos: (u16, u16), bounds: Rectangle) -> Vec<(char, (u16, u16))> {
    map_text_bounds(text, pos, bounds)
}

fn screen(height: u16, width: u16) -> Rectangle {
    Rectangle::new((0, 0), (height, width))
}

#[test]
fn ui_color_is_the_color_of_the_core() {
    assert_eq!(torch::ui::Color::new(0x102030), Color { r: 16, g: 32, b: 48 });
    assert_eq!(torch::ui::Color::default(), BLACK);
    let mut sum = Color::new(0x0000f0);
    sum += Color::new(0x000020);
    assert_eq!(sum, Color::new(0x0000ff));
}

#[test]
fn rectangle_places_positions_on_the_screen() {
    let rectangle = Rectangle::new((2, 3), (10, 20));
    assert_eq!((rectangle.line, rectangle.col, rectangle.height, rectangle.width), (2, 3, 10, 20));
    assert_eq!(rectangle + (0, 0), (2, 3));
    assert_eq!(rectangle + (4, 5), (6, 8));
}

#[test]
fn glyph_setters_chain() {
    let mut glyph = Glyph::default();
    glyph.set_c('x').set_modifiers(Modifiers::bold()).set_fg(RED).set_bg(WHITE);
    assert_eq!(glyph, Glyph { c: 'x', modifiers: Modifiers::bold(), fg: RED, bg: WHITE });
    glyph.set_c('y');
    assert_eq!(glyph, Glyph { c: 'y', modifiers: Modifiers::bold(), fg: RED, bg: WHITE });
}

#[test]
fn new_glyph_buffer_is_blank() {
    let buffer = Buffer::new(2, 3);
    assert_eq!(buffer.size(), (2, 3));
    assert!(buffer.in_bounds((1, 2)));
    assert!(!buffer.in_bounds((2, 0)));
    assert!(!buffer.in_bounds((0, 3)));
    assert_eq!(*buffer.first(), Glyph::default());
    assert_eq!(text_of(&buffer), vec!["   ", "   "]);
    assert_eq!(buffer.pairs().len(), 5);
    assert!(Buffer::new(0, 5).pairs().is_empty());
    assert!(Buffer::new(1, 1).pairs().is_empty());
}

#[test]
fn large_buffer_does_not_overflow() {
    let buffer = Buffer::new(300, 300);
    assert_eq!(buffer.pairs().len(), 89999);
    assert!(buffer.in_bounds((299, 299)));
}

#[test]
fn glyph_written_through_the_index_is_read_back() {
    let mut buffer = Buffer::new(2, 3);
    buffer.index_mut((1, 0)).set_c('a');
    assert_eq!(buffer.index((1, 0)).c, 'a');
    assert_eq!(text_of(&buffer), vec!["   ", "a  "]);
    assert_eq!(buffer.pairs()[2][1].c, 'a');
    assert_eq!(buffer.pairs()[3][0].c, 'a');
}

#[test]
fn resize_keeps_every_glyph_at_its_position() {
    let mut buffer = Buffer::new(2, 2);
    buffer.index_mut((0, 0)).set_c('a');
    buffer.index_mut((0, 1)).set_c('b');
    buffer.index_mut((1, 0)).set_c('c');
    buffer.index_mut((1, 1)).set_c('d');
    buffer.resize(3, 3);
    assert_eq!(text_of(&buffer), vec!["ab ", "cd ", "   "]);
    buffer.resize(2, 1);
    assert_eq!(text_of(&buffer), vec!["a", "c"]);
    buffer.resize(1, 4);
    assert_eq!(text_of(&buffer), vec!["a   "]);
    buffer.resize(0, 0);
    assert_eq!(buffer.size(), (0, 0));
    buffer.resize(1, 1);
    assert_eq!(text_of(&buffer), vec![" "]);
}

#[test]
fn blank_buffer_flushes_home_colors_and_spaces() {
    assert_eq!(flushed(&Buffer::new(1, 1)), format!("{} ", HOME));
    assert_eq!(flushed(&Buffer::new(2, 3)), format!("{}      ", HOME));
}

#[test]
fn flush_prints_every_glyph() {
    let mut buffer = Buffer::new(1, 3);
    buffer.index_mut((0, 0)).set_c('a').set_fg(RED).set_modifiers(Modifiers::bold());
    buffer.index_mut((0, 1)).set_c('b').set_fg(RED).set_modifiers(Modifiers::bold());
    buffer.index_mut((0, 2)).set_c('c');
    assert_eq!(
        flushed(&buffer),
        "\x1b[38;2;255;0;0m\x1b[1m\
         \x1b[1;1H\x1b[38;2;255;0;0m\x1b[48;2;0;0;0ma\
         b\
         \x1b[0m\x1b[38;2;0;0;0m\x1b[48;2;0;0;0mc"
    );
}

#[test]
fn blink_is_the_rapid_one() {
    let mut out = String::new();
    let mut to = Glyph::default();
    to.set_modifiers(Modifiers::blink().union(Modifiers::underline()));
    set_term_attrs(&mut out, &Glyph::default(), &to);
    assert_eq!(out, "\x1b[4m\x1b[6m");
}

#[test]
fn text_runs_along_a_line() {
    assert_eq!(
        places("abc", (1, 2), screen(10, 10)),
        vec![('a', (1, 2)), ('b', (1, 3)), ('c', (1, 4))]
    );
    assert!(places("", (1, 2), screen(10, 10)).is_empty());
}

#[test]
fn newline_begins_the_next_line_at_the_same_column() {
    assert_eq!(
        places("ab\ncd\n\ne", (1, 2), screen(10, 10)),
        vec![('a', (1, 2)), ('b', (1, 3)), ('c', (2, 2)), ('d', (2, 3)), ('e', (4, 2))]
    );
}

#[test]
fn text_wraps_at_the_width_of_the_bounds() {
    assert_eq!(
        places("abcdefg", (0, 0), screen(10, 3)),
        vec![
            ('a', (0, 0)),
            ('b', (0, 1)),
            ('c', (0, 2)),
            ('d', (1, 0)),
            ('e', (1, 1)),
            ('f', (1, 2)),
            ('g', (2, 0)),
        ]
    );
    // The width counts glyphs, wherever the line begins.
    assert_eq!(
        places("abcd", (0, 5), screen(10, 3)),
        vec![('a', (0, 5)), ('b', (0, 6)), ('c', (0, 7)), ('d', (1, 5))]
    );
}

#[test]
fn wrapping_ends_on_the_last_line_of_the_bounds() {
    assert_eq!(
        places("abcdefgh", (0, 0), screen(2, 3)),
        vec![('a', (0, 0)), ('b', (0, 1)), ('c', (0, 2)), ('d', (1, 0)), ('e', (1, 1)), ('f', (1, 2))]
    );
    assert_eq!(places("abcd", (0, 0), screen(1, 3)).len(), 3);
    assert_eq!(places("abcd", (0, 0), screen(0, 3)).len(), 3);
    // A newline is followed wherever it leads.
    assert_eq!(places("a\nb", (5, 0), screen(2, 3)), vec![('a', (5, 0)), ('b', (6, 0))]);
}

#[test]
fn newline_at_the_width_does_not_wrap_twice() {
    assert_eq!(
        places("abc\nd", (0, 0), screen(10, 3)),
        vec![('a', (0, 0)), ('b', (0, 1)), ('c', (0, 2)), ('d', (1, 0))]
    );
}

#[test]
fn bounds_without_width_hold_nothing() {
    assert!(places("abc", (0, 0), screen(10, 0)).is_empty());
    assert!(places("\n\nabc", (0, 0), screen(10, 0)).is_empty());
}

#[test]
fn bounds_shift_the_text() {
    let bounds = Rectangle::new((5, 7), (10, 2));
    assert_eq!(
        places("abc", (1, 1), bounds),
        vec![('a', (6, 8)), ('b', (6, 9)), ('c', (7, 8))]
    );
}

#[test]
fn laid_out_places_beyond_u16_are_left_out() {
    let bounds = Rectangle::new((65535, 65534), (10, 10));
    assert_eq!(places("ab\nc", (0, 0), bounds), vec![('a', (65535, 65534)), ('b', (65535, 65535))]);
    assert_eq!(places("abc", (0, 65535), screen(10, 10)), vec![('a', (0, 65535))]);
}

#[test]
fn draw_builder_starts_at_the_top_left_in_black() {
    let mut buffer = Buffer::new(2, 4);
    DrawBuilder::new(&mut buffer, String::from("hi")).ink();
    assert_eq!(text_of(&buffer), vec!["hi  ", "    "]);
    assert_eq!(*buffer.index((0, 0)), Glyph { c: 'h', modifiers: Modifiers::none(), fg: BLACK, bg: BLACK });
}

#[test]
fn draw_builder_sets_place_and_style() {
    let mut buffer = Buffer::new(3, 6);
    {
        let mut canvas = Canvas::new(&mut buffer);
        canvas.draw("hi").at((1, 2)).fg(RED).bg(WHITE).modifiers(Modifiers::reverse()).ink();
    }
    assert_eq!(text_of(&buffer), vec!["      ", "  hi  ", "      "]);
    assert_eq!(
        *buffer.index((1, 3)),
        Glyph { c: 'i', modifiers: Modifiers::reverse(), fg: RED, bg: WHITE }
    );
    assert_eq!(*buffer.index((1, 1)), Glyph::default());
}

#[test]
fn draw_builder_wraps_and_clips() {
    let mut buffer = Buffer::new(3, 6);
    {
        let mut canvas = Canvas::new(&mut buffer);
        canvas.draw("abcdef").at((0, 1)).max_width(2).ink();
        canvas.draw("xyz").at((2, 4)).ink();
    }
    // The second draw runs over the edge: what does not fit is dropped.
    assert_eq!(text_of(&buffer), vec![" ab   ", " cd   ", " ef xy"]);
    let mut buffer = Buffer::new(3, 6);
    {
        let mut canvas = Canvas::new(&mut buffer);
        canvas.draw("abcdef").max_width(2).max_height(2).ink();
    }
    assert_eq!(text_of(&buffer), vec!["ab    ", "cd    ", "      "]);
}

#[test]
fn nothing_is_drawn_before_ink() {
    let mut buffer = Buffer::new(1, 4);
    {
        let mut canvas = Canvas::new(&mut buffer);
        let _ = canvas.draw("abcd").at((0, 0));
    }
    assert_eq!(text_of(&buffer), vec!["    "]);
}

#[test]
fn canvas_knows_its_size() {
    let mut buffer = Buffer::new(3, 6);
    let canvas = Canvas::new(&mut buffer);
    assert_eq!(canvas.size(), (3, 6));
    assert!(canvas.in_bounds((2, 5)));
    assert!(!canvas.in_bounds((3, 0)));
}

#[test]
fn lighten_scales_both_colors() {
    let mut buffer = Buffer::new(1, 2);
    buffer.index_mut((0, 1)).set_c('x').set_fg(Color::new(0x646464)).set_bg(Color::new(0x0a1400));
    {
        let mut canvas = Canvas::new(&mut buffer);
        canvas.lighten(6, 5, (0, 1));
    }
    assert_eq!(
        *buffer.index((0, 1)),
        Glyph {
            c: 'x',
            modifiers: Modifiers::none(),
            fg: Color::new(0x787878),
            bg: Color::new(0x0c1800)
        }
    );
    assert_eq!(*buffer.index((0, 0)), Glyph::default());
}

struct Title(&'static str);

impl Element for Title {
    fn view(&mut self, canvas: &mut Canvas) {
        canvas.draw(self.0).at((0, 1)).ink();
    }
}

#[test]
fn element_draws_itself() {
    let mut buffer = Buffer::new(1, 5);
    {
        let mut canvas = Canvas::new(&mut buffer);
        canvas.draw_element(Title("abc"));
    }
    assert_eq!(text_of(&buffer), vec![" abc "]);
}

fn timeouts(glimmers: &mut Glimmers<u8>) -> Vec<(u128, u8)> {
    let mut all = Vec::new();
    while let Some(glimmer) = glimmers.pop() {
        all.push((glimmer.timeout, glimmer.view));
    }
    all.reverse();
    for (timeout, view) in &all {
        glimmers.push(Glimmer { timeout: *timeout, interval: 0, view: *view });
    }
    all
}

#[test]
fn new_glimmer_waits_one_interval() {
    let glimmer = Glimmer::new(100, 'v');
    assert_eq!((glimmer.timeout, glimmer.interval, glimmer.view), (100, 100, 'v'));
}

#[test]
fn glimmers_stand_longest_first() {
    let mut glimmers = Glimmers::new();
    assert!(glimmers.is_empty());
    for (interval, view) in [(30, 1u8), (10, 2), (20, 3), (40, 4), (5, 5)] {
        glimmers.push(Glimmer::new(interval, view));
    }
    assert_eq!(glimmers.len(), 5);
    assert!(!glimmers.is_empty());
    assert_eq!(glimmers.next_timeout(), 5);
    assert_eq!(timeouts(&mut glimmers), vec![(40, 4), (30, 1), (20, 3), (10, 2), (5, 5)]);
}

#[test]
fn pop_takes_the_glimmer_that_is_due_first() {
    let mut glimmers = Glimmers::new();
    glimmers.push(Glimmer::new(30, 'a'));
    glimmers.push(Glimmer::new(10, 'b'));
    glimmers.push(Glimmer::new(10, 'c'));
    let first = glimmers.pop().unwrap();
    let second = glimmers.pop().unwrap();
    assert_eq!((first.timeout, second.timeout), (10, 10));
    assert_ne!(first.view, second.view);
    assert_eq!(glimmers.pop().unwrap().view, 'a');
    assert!(glimmers.pop().is_none());
    assert!(glimmers.is_empty());
}

#[test]
fn clear_drops_every_glimmer() {
    let mut glimmers = Glimmers::new();
    glimmers.push(Glimmer::new(30, 'a'));
    glimmers.clear();
    assert!(glimmers.is_empty());
    assert_eq!(glimmers.len(), 0);
}

#[test]
fn decrement_takes_time_off_every_glimmer() {
    let mut glimmers = Glimmers::new();
    for (interval, view) in [(30, 1u8), (10, 2), (20, 3)] {
        glimmers.push(Glimmer::new(interval, view));
    }
    glimmers.decrement_timeouts(10);
    assert_eq!(timeouts(&mut glimmers), vec![(20, 1), (10, 3), (0, 2)]);
    glimmers.decrement_timeouts(0);
    assert_eq!(glimmers.next_timeout(), 0);
    Glimmers::<u8>::new().decrement_timeouts(99);
}

#[test]
fn ui_takes_over_the_terminal_and_shows_a_blank_buffer() {
    let mut out = String::new();
    let ui: Ui<View> = Ui::new(2, 3, &mut out);
    assert_eq!(out, format!("{}{}      ", SETUP, HOME));
    assert_eq!(ui.size(), (2, 3));
    assert!(ui.glimmers.is_empty());
    let mut out = String::new();
    Ui::<View>::leave(&mut out);
    assert_eq!(out, "\x1b[0m\x1b[?25h\x1b[?1049l");
}

#[test]
fn render_starts_from_a_blank_buffer() {
    let mut out = String::new();
    let mut ui: Ui<View> = Ui::new(1, 4, &mut out);
    let mut first = String::new();
    ui.render(|mut canvas: Canvas| canvas.draw("ab").ink(), &mut first);
    assert_eq!(first, format!("{}ab  ", HOME));
    let mut second = String::new();
    ui.render(|mut canvas: Canvas| canvas.draw("c").at((0, 3)).ink(), &mut second);
    assert_eq!(second, format!("{}   c", HOME));
}

#[test]
fn ui_resize_shows_in_the_next_render() {
    let mut out = String::new();
    let mut ui: Ui<View> = Ui::new(1, 4, &mut out);
    ui.resize(2, 2);
    assert_eq!(ui.size(), (2, 2));
    let mut seen = (0, 0);
    let mut frame = String::new();
    ui.render(|canvas: Canvas| seen = canvas.size(), &mut frame);
    assert_eq!(seen, (2, 2));
    assert_eq!(frame, format!("{}    ", HOME));
}

#[test]
fn flush_brings_the_buffer_to_the_terminal_size() {
    let mut out = String::new();
    let mut ui: Ui<View> = Ui::new(1, 2, &mut out);
    ui.render(|mut canvas: Canvas| canvas.draw("ab").ink(), &mut out);
    ui.resize(2, 3);
    let mut frame = String::new();
    ui.flush(&mut frame);
    assert_eq!(frame, format!("{}ab    ", HOME));
}

#[test]
fn glimmer_draws_on_a_copy_and_is_scheduled_again() {
    let mut out = String::new();
    let mut ui: Ui<View> = Ui::new(1, 3, &mut out);
    ui.render(|mut canvas: Canvas| canvas.draw("a").ink(), &mut out);
    ui.glimmers.push(Glimmer::new(100, Box::new(|mut canvas: Canvas| canvas.draw("x").at((0, 1)).ink())));
    ui.glimmers.push(Glimmer::new(30, Box::new(|mut canvas: Canvas| canvas.draw("y").at((0, 2)).ink())));
    assert_eq!(ui.glimmers.next_timeout(), 30);

    let mut frame = String::new();
    ui.glimmer(&mut frame);
    // The glimmer that was due drew on the frame; the other did not.
    assert_eq!(frame, format!("{}a y", HOME));
    // Thirty have passed for both; the one that drew waits thirty again.
    assert_eq!(ui.glimmers.len(), 2);
    assert_eq!(ui.glimmers.next_timeout(), 30);

    let mut frame = String::new();
    ui.glimmer(&mut frame);
    assert_eq!(frame, format!("{}a y", HOME));
    assert_eq!(ui.glimmers.next_timeout(), 30);
    let mut frame = String::new();
    ui.glimmer(&mut frame);
    assert_eq!(ui.glimmers.next_timeout(), 10);
    let mut frame = String::new();
    ui.glimmer(&mut frame);
    // Now the slow one was due. Neither drawing has stayed in the buffer.
    assert_eq!(frame, format!("{}ax ", HOME));
    let mut frame = String::new();
    ui.flush(&mut frame);
    assert_eq!(frame, format!("{}a  ", HOME));
}

#[test]
fn input_takes_the_elapsed_time_off_the_glimmers() {
    let mut out = String::new();
    let mut ui: Ui<View> = Ui::new(1, 3, &mut out);
    ui.interrupted(5);
    ui.glimmers.push(Glimmer::new(100, Box::new(|_: Canvas| ())));
    ui.glimmers.push(Glimmer::new(30, Box::new(|_: Canvas| ())));
    ui.interrupted(12);
    assert_eq!(ui.glimmers.next_timeout(), 18);
    // No more is taken off than was waited for.
    ui.interrupted(1000);
    assert_eq!(ui.glimmers.next_timeout(), 0);
    assert_eq!(ui.glimmers.pop().unwrap().timeout, 0);
    assert_eq!(ui.glimmers.pop().unwrap().timeout, 70);
}

#[test]
fn typewrite_makes_a_frame_for_every_glyph() {
    let mut out = String::new();
    let mut ui: Ui<View> = Ui::new(2, 2, &mut out);
    let frames = ui.typewrite("abc", (0, 0), BLACK, BLACK, Modifiers::none());
    assert_eq!(
        frames,
        vec![format!("{}a   ", HOME), format!("{}ab  ", HOME), format!("{}abc ", HOME)]
    );
    assert!(ui.typewrite("", (0, 0), BLACK, BLACK, Modifiers::none()).is_empty());
    let mut frame = String::new();
    ui.flush(&mut frame);
    assert_eq!(frame, format!("{}abc ", HOME));
}
