//! Colours and severity levels of the progress lines, and the one place where
//! text is handed to the `colored` crate.

use vstd::prelude::*;

verus! {

/// The eight base colours of a terminal.
#[derive(Clone, Copy, Debug, PartialEq, Eq, Structural)]
pub enum Color {
    Black,
    Red,
    Green,
    Yellow,
    Blue,
    Magenta,
    Cyan,
    White,
}

/// Severity of a progress line.
#[derive(Clone, Copy, Debug, PartialEq, Eq, Structural)]
pub enum Level {
    Info,
    Warn,
    Error,
}

impl Level {
    /// The colour a level is shown in.
    pub open spec fn color_spec(self) -> Color {
        match self {
            Level::Info => Color::Blue,
            Level::Warn => Color::Magenta,
            Level::Error => Color::Red,
        }
    }

    /// The colour a level is shown in: blue for information, magenta for
    /// warnings, red for errors.
    pub fn color(self) -> (c: Color)
        ensures
            c == self.color_spec(),
    {
        match self {
            Level::Info => Color::Blue,
            Level::Warn => Color::Magenta,
            Level::Error => Color::Red,
        }
    }
}

/// How a piece of text is to be shown: an optional foreground colour, and
/// whether it is bold.
#[derive(Clone, Copy, Debug, PartialEq, Eq, Structural)]
pub struct Style {
    pub color: Option<Color>,
    pub bold: bool,
}

/// The escape-coded form that `colored` writes for `text` in a colour,
/// not bold, while colouring is switched on.
pub uninterp spec fn ansi_colored(text: Seq<char>, color: Color) -> Seq<char>;

/// The escape-coded form that `colored` writes for `text` in a colour and
/// bold, while colouring is switched on.
pub uninterp spec fn ansi_colored_bold(text: Seq<char>, color: Color) -> Seq<char>;

/// The escape-coded form that `colored` writes for `text` in bold without a
/// colour, while colouring is switched on.
pub uninterp spec fn ansi_bold(text: Seq<char>) -> Seq<char>;

/// The escape-coded form of `text` in the given style. Text without colour
/// or weight has none: it stays as it is.
pub open spec fn ansi(text: Seq<char>, style: Style) -> Seq<char> {
    match style.color {
        Some(color) => if style.bold {
            ansi_colored_bold(text, color)
        } else {
            ansi_colored(text, color)
        },
        None => if style.bold {
            ansi_bold(text)
        } else {
            text
        },
    }
}

/// Whether `out` is a way `text` may come back from styling: unchanged, where
/// colouring is switched off, or in its escape-coded form.
pub open spec fn is_styled(out: Seq<char>, text: Seq<char>, style: Style) -> bool {
    out == text || out == ansi(text, style)
}

/// Calls `colored::Colorize::color` on `text` and formats the result.
///
/// `colored` decides from the environment (and from its manual override)
/// whether to colour at all. When it does not, the text comes back unchanged;
/// when it does, it comes back in the escape-coded form for a coloured,
/// non-bold string. Nothing is claimed for a switch that is flipped while the
/// text is being written.
#[verifier::external_body]
pub(crate) fn paint(text: &str, color: Color) -> (out: String)
    ensures
        out@ == text@ || out@ == ansi_colored(text@, color),
{
    let shade = match color {
        Color::Black => colored::Color::Black,
        Color::Red => colored::Color::Red,
        Color::Green => colored::Color::Green,
        Color::Yellow => colored::Color::Yellow,
        Color::Blue => colored::Color::Blue,
        Color::Magenta => colored::Color::Magenta,
        Color::Cyan => colored::Color::Cyan,
        Color::White => colored::Color::White,
    };
    colored::Colorize::color(text, shade).to_string()
}

/// Calls `colored::Colorize::color` and then `bold` on `text` and formats
/// the result.
///
/// As for [`paint`]: the text comes back unchanged where colouring is
/// switched off, and otherwise in the escape-coded form for a coloured, bold
/// string.
#[verifier::external_body]
pub(crate) fn paint_bold(text: &str, color: Color) -> (out: String)
    ensures
        out@ == text@ || out@ == ansi_colored_bold(text@, color),
{
    let shade = match color {
        Color::Black => colored::Color::Black,
        Color::Red => colored::Color::Red,
        Color::Green => colored::Color::Green,
        Color::Yellow => colored::Color::Yellow,
        Color::Blue => colored::Color::Blue,
        Color::Magenta => colored::Color::Magenta,
        Color::Cyan => colored::Color::Cyan,
        Color::White => colored::Color::White,
    };
    colored::Colorize::bold(colored::Colorize::color(text, shade)).to_string()
}

/// Calls `colored::Colorize::bold` on `text` and formats the result.
///
/// As for [`paint`]: the text comes back unchanged where colouring is
/// switched off, and otherwise in the escape-coded form for a bold string
/// without a colour.
#[verifier::external_body]
pub(crate) fn embolden(text: &str) -> (out: String)
    ensures
        out@ == text@ || out@ == ansi_bold(text@),
{
    colored::Colorize::bold(text).to_string()
}

} // verus!
