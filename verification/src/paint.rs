//! Colours for the terminal.
//!
//! The library decides which text is shown in which colour. Turning that
//! into the characters a terminal understands is left to the `colored`
//! crate, which looks at the environment to see whether colours are wanted
//! at all.

use crate::text::is_substring;
use colored::Colorize;
use vstd::prelude::*;

verus! {

/// The colours that the reports use.
#[derive(Debug, Clone, Copy, PartialEq, Eq)]
pub enum Colour {
    Green,
    Yellow,
    Red,
    White,
}

/// A text and the colour to show it in.
#[derive(Debug, PartialEq, Eq)]
pub struct Cell {
    pub text: String,
    pub colour: Colour,
}

/// The sequence that ends every colour and style on a terminal.
pub open spec fn reset_sequence() -> Seq<char> {
    "\x1B[0m"@
}

/// The sequence that turns `colour` on.
pub open spec fn escape_of(colour: Colour) -> Seq<char> {
    match colour {
        Colour::Green => "\x1B[32m"@,
        Colour::Yellow => "\x1B[33m"@,
        Colour::Red => "\x1B[31m"@,
        Colour::White => "\x1B[37m"@,
    }
}

/// The sequence that turns bold type and `colour` on.
pub open spec fn bold_escape_of(colour: Colour) -> Seq<char> {
    match colour {
        Colour::Green => "\x1B[1;32m"@,
        Colour::Yellow => "\x1B[1;33m"@,
        Colour::Red => "\x1B[1;31m"@,
        Colour::White => "\x1B[1;37m"@,
    }
}

/// `text` with `style` put in again behind each reset sequence that `text`
/// holds, so that what follows such a sequence is still shown in `style`.
pub uninterp spec fn reinforced(text: Seq<char>, style: Seq<char>) -> Seq<char>;

/// `painted` is `text` as a terminal shows it in `style`.
///
/// Where colours are switched off that is `text` itself. Where they are on
/// it is `style`, then `text` with the style reinforced, then the reset
/// sequence; a text that holds no reset sequence stands there unchanged.
pub open spec fn is_painted(painted: Seq<char>, text: Seq<char>, style: Seq<char>) -> bool {
    &&& painted == text || painted == style + reinforced(text, style) + reset_sequence()
    &&& !is_substring(text, reset_sequence()) ==> painted == text || painted == style + text
        + reset_sequence()
}

/// `text` as a terminal shows it in `colour`.
///
/// Rests on `Colorize::color` of the `colored` crate and on the `Display`
/// of its `ColoredString`. Whether colours are on depends on the
/// environment of the process, so the result is one of two: `text` itself,
/// or `text` between the sequence of the colour and the reset sequence.
/// Inside the text `Display` repeats the sequence of the colour behind
/// each reset sequence; what that gives is named, and it is the text
/// itself where the text holds no reset sequence. This is claimed of a
/// call during which colours are not switched on or off.
#[verifier::external_body]
pub(crate) fn paint(text: &str, colour: Colour) -> (painted: String)
    ensures
        painted@ == text@ || painted@ == escape_of(colour) + reinforced(text@, escape_of(colour))
            + reset_sequence(),
        !is_substring(text@, reset_sequence()) ==> painted@ == text@ || painted@ == escape_of(
            colour,
        ) + text@ + reset_sequence(),
{
    let colour = match colour {
        Colour::Green => colored::Color::Green,
        Colour::Yellow => colored::Color::Yellow,
        Colour::Red => colored::Color::Red,
        Colour::White => colored::Color::White,
    };
    text.color(colour).to_string()
}

/// `text` as a terminal shows it in bold and in `colour`.
///
/// Rests on `Colorize::bold` and `Colorize::color` of the `colored` crate
/// and on the `Display` of its `ColoredString`. Whether colours are on
/// depends on the environment of the process, so the result is one of two:
/// `text` itself, or `text` between the sequence of bold type and the
/// colour and the reset sequence, with that sequence repeated behind each
/// reset sequence inside the text. This is claimed of a call during which
/// colours are not switched on or off.
#[verifier::external_body]
pub(crate) fn paint_bold(text: &str, colour: Colour) -> (painted: String)
    ensures
        painted@ == text@ || painted@ == bold_escape_of(colour) + reinforced(
            text@,
            bold_escape_of(colour),
        ) + reset_sequence(),
        !is_substring(text@, reset_sequence()) ==> painted@ == text@ || painted@
            == bold_escape_of(colour) + text@ + reset_sequence(),
{
    let colour = match colour {
        Colour::Green => colored::Color::Green,
        Colour::Yellow => colored::Color::Yellow,
        Colour::Red => colored::Color::Red,
        Colour::White => colored::Color::White,
    };
    text.bold().color(colour).to_string()
}

impl Cell {
    /// The cell as a terminal shows it: its text in its colour, or its
    /// text as it is where colours are switched off.
    pub fn painted(&self) -> (painted: String)
        ensures
            is_painted(painted@, self.text@, escape_of(self.colour)),
    {
        paint(self.text.as_str(), self.colour)
    }
}

} // verus!
