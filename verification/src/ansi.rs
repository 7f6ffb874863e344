//! The escape sequences that drive the terminal, as character sequences, and
//! the calls that produce them.
//!
//! The spec functions of this module say which characters each terminal
//! command consists of. The executable functions at the end hand the work to
//! `crossterm`; their contracts are taken on trust from its source.

use crate::color::Color;
use crossterm::Command;
use vstd::prelude::*;

verus! {

/// A display attribute that a terminal can switch on, or `Reset`, which
/// switches every attribute off and restores the default colors.
#[derive(Clone, Copy, Debug, PartialEq, Eq, Structural)]
pub enum Attribute {
    Reset,
    Bold,
    Underlined,
    SlowBlink,
    RapidBlink,
    Reverse,
}

impl Attribute {
    /// The parameter of the attribute's "select graphic rendition" command.
    pub open spec fn sgr(self) -> nat {
        match self {
            Attribute::Reset => 0,
            Attribute::Bold => 1,
            Attribute::Underlined => 4,
            Attribute::SlowBlink => 5,
            Attribute::RapidBlink => 6,
            Attribute::Reverse => 7,
        }
    }
}

/// The character of a decimal digit.
pub open spec fn digit(d: nat) -> char
    recommends
        d < 10,
{
    seq!['0', '1', '2', '3', '4', '5', '6', '7', '8', '9'][d as int]
}

/// A natural number in decimal, without leading zeros.
pub open spec fn decimal(n: nat) -> Seq<char>
    decreases n,
{
    if n < 10 {
        seq![digit(n)]
    } else {
        decimal(n / 10).push(digit(n % 10))
    }
}

/// The control sequence introducer, `ESC [`.
pub open spec fn csi() -> Seq<char> {
    seq!['\x1b', '[']
}

/// Moves the cursor to a column and line, both counted from zero.
pub open spec fn move_to_code(col: u16, line: u16) -> Seq<char> {
    csi() + decimal((line + 1) as nat) + seq![';'] + decimal((col + 1) as nat) + seq!['H']
}

/// The three channels of a color, separated by semicolons.
pub open spec fn channels(color: Color) -> Seq<char> {
    decimal(color.r as nat) + seq![';'] + decimal(color.g as nat) + seq![';'] + decimal(
        color.b as nat,
    )
}

/// Sets the foreground to a 24-bit color.
pub open spec fn foreground_code(color: Color) -> Seq<char> {
    csi() + seq!['3', '8', ';', '2', ';'] + channels(color) + seq!['m']
}

/// Sets the background to a 24-bit color.
pub open spec fn background_code(color: Color) -> Seq<char> {
    csi() + seq!['4', '8', ';', '2', ';'] + channels(color) + seq!['m']
}

/// Selects the graphic rendition with the given parameter.
pub open spec fn sgr_code(sgr: nat) -> Seq<char> {
    csi() + decimal(sgr) + seq!['m']
}

/// Erases the whole screen.
pub open spec fn clear_all_code() -> Seq<char> {
    csi() + seq!['2', 'J']
}

pub open spec fn hide_cursor_code() -> Seq<char> {
    csi() + seq!['?', '2', '5', 'l']
}

pub open spec fn show_cursor_code() -> Seq<char> {
    csi() + seq!['?', '2', '5', 'h']
}

pub open spec fn enter_alternate_screen_code() -> Seq<char> {
    csi() + seq!['?', '1', '0', '4', '9', 'h']
}

pub open spec fn leave_alternate_screen_code() -> Seq<char> {
    csi() + seq!['?', '1', '0', '4', '9', 'l']
}

/// `SetAttribute::write_ansi`: appends the rendition command of one attribute.
#[verifier::external_body]
pub(crate) fn queue_attribute(out: &mut String, attribute: Attribute)
    ensures
        final(out)@ == old(out)@ + sgr_code(attribute.sgr()),
{
    let flag = match attribute {
        Attribute::Reset => crossterm::style::Attribute::Reset,
        Attribute::Bold => crossterm::style::Attribute::Bold,
        Attribute::Underlined => crossterm::style::Attribute::Underlined,
        Attribute::SlowBlink => crossterm::style::Attribute::SlowBlink,
        Attribute::RapidBlink => crossterm::style::Attribute::RapidBlink,
        Attribute::Reverse => crossterm::style::Attribute::Reverse,
    };
    let _ = crossterm::style::SetAttribute(flag).write_ansi(out);
}

/// `MoveTo::write_ansi`: appends the command that moves the cursor. The
/// terminal counts from one, so `crossterm` adds one to both coordinates in
/// `u16`: the largest value is left out.
#[verifier::external_body]
pub(crate) fn queue_move_to(out: &mut String, col: u16, line: u16)
    requires
        col < u16::MAX,
        line < u16::MAX,
    ensures
        final(out)@ == old(out)@ + move_to_code(col, line),
{
    let _ = crossterm::cursor::MoveTo(col, line).write_ansi(out);
}

/// `SetForegroundColor::write_ansi` on an RGB color.
#[verifier::external_body]
pub(crate) fn queue_foreground(out: &mut String, color: Color)
    ensures
        final(out)@ == old(out)@ + foreground_code(color),
{
    let rgb = crossterm::style::Color::Rgb { r: color.r, g: color.g, b: color.b };
    let _ = crossterm::style::SetForegroundColor(rgb).write_ansi(out);
}

/// `SetBackgroundColor::write_ansi` on an RGB color.
#[verifier::external_body]
pub(crate) fn queue_background(out: &mut String, color: Color)
    ensures
        final(out)@ == old(out)@ + background_code(color),
{
    let rgb = crossterm::style::Color::Rgb { r: color.r, g: color.g, b: color.b };
    let _ = crossterm::style::SetBackgroundColor(rgb).write_ansi(out);
}

/// `Print::write_ansi` on a character: appends the character itself.
#[verifier::external_body]
pub(crate) fn queue_print(out: &mut String, c: char)
    ensures
        final(out)@ == old(out)@.push(c),
{
    let _ = crossterm::style::Print(c).write_ansi(out);
}

/// `Clear::write_ansi` with `ClearType::All`.
#[verifier::external_body]
pub(crate) fn queue_clear_all(out: &mut String)
    ensures
        final(out)@ == old(out)@ + clear_all_code(),
{
    let _ = crossterm::terminal::Clear(crossterm::terminal::ClearType::All).write_ansi(out);
}

/// `Hide::write_ansi`.
#[verifier::external_body]
pub(crate) fn queue_hide_cursor(out: &mut String)
    ensures
        final(out)@ == old(out)@ + hide_cursor_code(),
{
    let _ = crossterm::cursor::Hide.write_ansi(out);
}

/// `Show::write_ansi`.
#[verifier::external_body]
pub(crate) fn queue_show_cursor(out: &mut String)
    ensures
        final(out)@ == old(out)@ + show_cursor_code(),
{
    let _ = crossterm::cursor::Show.write_ansi(out);
}

/// `EnterAlternateScreen::write_ansi`.
#[verifier::external_body]
pub(crate) fn queue_enter_alternate_screen(out: &mut String)
    ensures
        final(out)@ == old(out)@ + enter_alternate_screen_code(),
{
    let _ = crossterm::terminal::EnterAlternateScreen.write_ansi(out);
}

/// `LeaveAlternateScreen::write_ansi`.
#[verifier::external_body]
pub(crate) fn queue_leave_alternate_screen(out: &mut String)
    ensures
        final(out)@ == old(out)@ + leave_alternate_screen_code(),
{
    let _ = crossterm::terminal::LeaveAlternateScreen.write_ansi(out);
}

} // verus!
