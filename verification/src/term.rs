//! Colored text by escape sequences, as the `termion` crate writes them.

use vstd::prelude::*;
use vstd::string::*;
use crate::measure::larger;

verus! {

/// The sequence that resets all styling: `ESC [ m`.
pub open spec fn reset_sequence() -> Seq<char> {
    seq!['\u{1b}', '[', 'm']
}

/// The sequence that selects black as the foreground: `ESC [ 38;5;0 m`.
pub open spec fn black_sequence() -> Seq<char> {
    seq!['\u{1b}', '[', '3', '8', ';', '5', ';', '0', 'm']
}

/// Formats `termion::style::Reset`.
///
/// Trusted: the result is the reset sequence.
#[verifier::external_body]
fn reset() -> (r: String)
    ensures
        r@ == reset_sequence(),
{
    termion::style::Reset.to_string()
}

/// Formats `termion::color::Fg` of `termion::color::Black`.
///
/// Trusted: the result is the sequence for a black foreground.
#[verifier::external_body]
fn black() -> (r: String)
    ensures
        r@ == black_sequence(),
{
    termion::color::Fg(termion::color::Black).to_string()
}

/// Apply style and reset: the sequence of the style, the text, and the
/// reset sequence.
pub fn apply_color(style: &str, text: &str) -> (r: String)
    ensures
        r@ == style@ + text@ + reset_sequence(),
{
    let mut r = String::from_str(style);
    r.append(text);
    r.append(reset().as_str());
    r
}

/// Apply foreground color and reset. `color` is the sequence that selects
/// the foreground color.
pub fn fg(color: &str, text: &str) -> (r: String)
    ensures
        r@ == color@ + text@ + reset_sequence(),
{
    apply_color(color, text)
}

/// `n` middle dots.
pub open spec fn dots(n: nat) -> Seq<char> {
    Seq::new(n, |i: int| '\u{b7}')
}

/// Return hidden bar string: `width` middle dots, and at least one, in black.
pub fn span(width: usize) -> (r: String)
    ensures
        r@ == black_sequence() + dots(larger(width as nat, 1)) + reset_sequence(),
{
    proof {
        reveal_strlit("\u{b7}");
    }
    let mut bar = String::from_str("\u{b7}");
    let mut k: usize = 1;
    while k < width
        invariant
            1 <= k,
            k == 1 || k <= width,
            bar@ == dots(k as nat),
        decreases width - k,
    {
        proof {
            reveal_strlit("\u{b7}");
        }
        bar.append("\u{b7}");
        k += 1;
    }
    fg(black().as_str(), bar.as_str())
}

} // verus!
