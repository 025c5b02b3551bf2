//! Colored and padded text for a terminal.
//!
//! Coloring and padding are done by the `console` crate. What it returns is
//! stated here over the characters of its arguments: the verified layout code
//! relies on these statements and on nothing else.

use vstd::prelude::*;
use vstd::string::*;
use crate::number::decimal;

verus! {

/// A foreground color: one of the basic colors that the feed uses, or one
/// of the 256 of the extended palette.
#[derive(Debug, Clone, Copy, PartialEq, Eq, Structural)]
pub enum Color {
    Black,
    Green,
    Blue,
    Magenta,
    Color256(u8),
}

/// Where the text stands in a padded column.
#[derive(Debug, Clone, Copy, PartialEq, Eq, Structural)]
pub enum Alignment {
    Left,
    Right,
}

/// The number of a color within its palette.
pub open spec fn color_number(color: Color) -> nat {
    match color {
        Color::Black => 0,
        Color::Green => 2,
        Color::Blue => 4,
        Color::Magenta => 5,
        Color::Color256(n) => n as nat,
    }
}

/// The escape sequence that selects a foreground color: `ESC [ 3n m` for a
/// basic color, `ESC [ 38;5;n m` for one of the extended palette.
pub open spec fn foreground_code(color: Color) -> Seq<char> {
    match color {
        Color::Color256(n) => seq!['\u{1b}', '[', '3', '8', ';', '5', ';'] + decimal(n as nat)
            + seq!['m'],
        _ => seq!['\u{1b}', '['] + decimal(30 + color_number(color)) + seq!['m'],
    }
}

/// The escape sequence that ends all styling: `ESC [ 0 m`.
pub open spec fn reset_code() -> Seq<char> {
    seq!['\u{1b}', '[', '0', 'm']
}

/// `text` between the code of its color and the reset code.
pub open spec fn painted(text: Seq<char>, color: Color) -> Seq<char> {
    foreground_code(color) + text + reset_code()
}

/// The number of terminal columns that `console::measure_text_width` counts
/// for `s`. It leaves escape sequences out and counts the other characters
/// by their Unicode width.
pub uninterp spec fn text_width(s: Seq<char>) -> nat;

/// `n` spaces.
pub open spec fn spaces(n: nat) -> Seq<char> {
    Seq::new(n, |i: int| ' ')
}

/// `s` filled up with spaces to `width` columns, given that it takes `columns`
/// by itself. Text that is as wide as `width` or wider is left as it is.
pub open spec fn padded(s: Seq<char>, width: nat, align: Alignment, columns: nat) -> Seq<char> {
    if columns >= width {
        s
    } else {
        let room = (width - columns) as nat;
        match align {
            Alignment::Left => s + spaces(room),
            Alignment::Right => spaces(room) + s,
        }
    }
}

/// `s` filled up with spaces to `width` terminal columns.
pub open spec fn pad_text(s: Seq<char>, width: nat, align: Alignment) -> Seq<char> {
    padded(s, width, align, text_width(s))
}

/// Calls `console::pad_str` without a truncation marker.
///
/// Trusted: the result is `s` itself when `console::measure_text_width(s)` is
/// at least `width`; otherwise `s` with the missing columns as spaces after
/// it, for `Left`, or before it, for `Right`.
#[verifier::external_body]
pub(crate) fn pad(s: &str, width: usize, align: Alignment) -> (r: String)
    ensures
        r@ == padded(s@, width as nat, align, text_width(s@)),
{
    let align = match align {
        Alignment::Left => console::Alignment::Left,
        Alignment::Right => console::Alignment::Right,
    };
    console::pad_str(s, width, align, None).into_owned()
}

/// Formats `console::style(text)` with the foreground `color`, styling forced on.
///
/// Trusted: the result is the escape sequence of the color, then `text`,
/// then the reset sequence, whatever the terminal and the environment are.
#[verifier::external_body]
pub(crate) fn paint(text: &str, color: Color) -> (r: String)
    ensures
        r@ == painted(text@, color),
{
    let color = match color {
        Color::Black => console::Color::Black,
        Color::Green => console::Color::Green,
        Color::Blue => console::Color::Blue,
        Color::Magenta => console::Color::Magenta,
        Color::Color256(n) => console::Color::Color256(n),
    };
    console::style(text).fg(color).force_styling(true).to_string()
}

} // verus!
