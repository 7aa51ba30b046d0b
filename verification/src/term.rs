//! The control sequences that the views send to the terminal.

use crate::text::decimal;
use vstd::prelude::*;

verus! {

/// What `termion::color::Fg(termion::color::White)` displays as: the
/// sequence that selects colour 7 of the palette for the text.
#[verifier::external_body]
pub(crate) fn fg_white() -> (s: String)
    ensures
        s@ == "\x1b[38;5;7m"@,
{
    format!("{}", termion::color::Fg(termion::color::White))
}

/// What `termion::color::Fg(termion::color::Yellow)` displays as: the
/// sequence that selects colour 3 of the palette for the text.
#[verifier::external_body]
pub(crate) fn fg_yellow() -> (s: String)
    ensures
        s@ == "\x1b[38;5;3m"@,
{
    format!("{}", termion::color::Fg(termion::color::Yellow))
}

/// What `termion::color::Fg(termion::color::Green)` displays as: the
/// sequence that selects colour 2 of the palette for the text.
#[verifier::external_body]
pub(crate) fn fg_green() -> (s: String)
    ensures
        s@ == "\x1b[38;5;2m"@,
{
    format!("{}", termion::color::Fg(termion::color::Green))
}

/// What `termion::color::Fg(termion::color::Rgb(r, g, b))` displays as: the
/// sequence that selects a true colour for the text, its three parts in
/// base ten.
#[verifier::external_body]
pub(crate) fn fg_rgb(r: u8, g: u8, b: u8) -> (s: String)
    ensures
        s@ == fg_rgb_text(r, g, b),
{
    format!("{}", termion::color::Fg(termion::color::Rgb(r, g, b)))
}

/// What `termion::color::Fg(termion::color::Reset)` displays as: the
/// sequence that gives the text its default colour back.
#[verifier::external_body]
pub(crate) fn fg_reset() -> (s: String)
    ensures
        s@ == "\x1b[39m"@,
{
    format!("{}", termion::color::Fg(termion::color::Reset))
}

/// What `termion::color::Bg(termion::color::Blue)` displays as: the
/// sequence that selects colour 4 of the palette for the background.
#[verifier::external_body]
pub(crate) fn bg_blue() -> (s: String)
    ensures
        s@ == "\x1b[48;5;4m"@,
{
    format!("{}", termion::color::Bg(termion::color::Blue))
}

/// What `termion::color::Bg(termion::color::Reset)` displays as: the
/// sequence that gives the background its default colour back.
#[verifier::external_body]
pub(crate) fn bg_reset() -> (s: String)
    ensures
        s@ == "\x1b[49m"@,
{
    format!("{}", termion::color::Bg(termion::color::Reset))
}

/// What `termion::style::Bold` displays as.
#[verifier::external_body]
pub(crate) fn bold() -> (s: String)
    ensures
        s@ == "\x1b[1m"@,
{
    format!("{}", termion::style::Bold)
}

/// What `termion::style::NoBold` displays as.
#[verifier::external_body]
pub(crate) fn no_bold() -> (s: String)
    ensures
        s@ == "\x1b[21m"@,
{
    format!("{}", termion::style::NoBold)
}

/// What `termion::cursor::Save` displays as.
#[verifier::external_body]
pub(crate) fn cursor_save() -> (s: String)
    ensures
        s@ == "\x1b[s"@,
{
    format!("{}", termion::cursor::Save)
}

/// What `termion::cursor::Restore` displays as.
#[verifier::external_body]
pub(crate) fn cursor_restore() -> (s: String)
    ensures
        s@ == "\x1b[u"@,
{
    format!("{}", termion::cursor::Restore)
}

/// What `termion::clear::All` displays as.
#[verifier::external_body]
pub(crate) fn clear_all() -> (s: String)
    ensures
        s@ == "\x1b[2J"@,
{
    format!("{}", termion::clear::All)
}

/// What `termion::cursor::Goto(x, y)` displays as: the row, then the
/// column, both in base ten. The position is one-based; in a debug build
/// termion asserts that it is not `(0, 0)`.
#[verifier::external_body]
pub(crate) fn goto(x: u16, y: u16) -> (s: String)
    requires
        x != 0 || y != 0,
    ensures
        s@ == goto_text(x, y),
{
    format!("{}", termion::cursor::Goto(x, y))
}

/// The sequence that moves the cursor to column `x` of row `y`.
pub open spec fn goto_text(x: u16, y: u16) -> Seq<char> {
    "\x1b["@ + decimal(y as nat) + ";"@ + decimal(x as nat) + "H"@
}

/// The sequence that selects the true colour `(r, g, b)` for the text.
pub open spec fn fg_rgb_text(r: u8, g: u8, b: u8) -> Seq<char> {
    "\x1b[38;2;"@ + decimal(r as nat) + ";"@ + decimal(g as nat) + ";"@ + decimal(b as nat) + "m"@
}

} // verus!
