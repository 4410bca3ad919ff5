//! The values a progress line can show, and how each is written.

use vstd::prelude::*;
use crate::style::{ansi, paint, Color, Style};
use crate::text::{count_text, debug_path, debug_str, decimal, path_debug, str_debug};

verus! {

/// Which form of a value a placeholder asks for.
#[derive(Clone, Copy, Debug, PartialEq, Eq, Structural)]
pub enum DispType {
    /// The value as it reads to a person.
    Regular,
    /// The value as it would be written for inspection.
    Debug,
}

/// An error as far as a progress line needs it: its message, and its
/// detailed form for inspection.
#[derive(Clone, Debug, PartialEq, Eq)]
pub struct ErrorText {
    pub message: String,
    pub detail: String,
}

/// A value that can be put into a placeholder of a message.
#[derive(Clone, Debug, PartialEq, Eq)]
pub enum Disp {
    /// A count.
    Usize(usize),
    /// A piece of text.
    Str(String),
    /// A path, as text.
    Path(String),
    /// An error.
    Error(ErrorText),
}

/// The mathematical content of a [`Disp`].
pub enum DispView {
    Usize(nat),
    Str(Seq<char>),
    Path(Seq<char>),
    Error { message: Seq<char>, detail: Seq<char> },
}

impl View for Disp {
    type V = DispView;

    open spec fn view(&self) -> DispView {
        match self {
            Disp::Usize(n) => DispView::Usize(*n as nat),
            Disp::Str(s) => DispView::Str(s@),
            Disp::Path(p) => DispView::Path(p@),
            Disp::Error(e) => DispView::Error { message: e.message@, detail: e.detail@ },
        }
    }
}

/// The contents of a list of values.
pub open spec fn views(values: Seq<Disp>) -> Seq<DispView> {
    values.map_values(|d: Disp| d@)
}

impl DispView {
    /// The unstyled text of a value in the form that `kind` asks for.
    ///
    /// A count reads the same in both forms. Text and paths are quoted and
    /// escaped in the inspection form; an error shows its detail there.
    pub open spec fn plain(self, kind: DispType) -> Seq<char> {
        match kind {
            DispType::Regular => match self {
                DispView::Usize(n) => decimal(n),
                DispView::Str(s) => s,
                DispView::Path(p) => p,
                DispView::Error { message, detail } => message,
            },
            DispType::Debug => match self {
                DispView::Usize(n) => decimal(n),
                DispView::Str(s) => str_debug(s),
                DispView::Path(p) => path_debug(p),
                DispView::Error { message, detail } => detail,
            },
        }
    }

    /// The colour a value has when the placeholder forces none: blue for
    /// counts, cyan for text and paths, red for errors.
    pub open spec fn own_color(self) -> Color {
        match self {
            DispView::Usize(_) => Color::Blue,
            DispView::Str(_) => Color::Cyan,
            DispView::Path(_) => Color::Cyan,
            DispView::Error { .. } => Color::Red,
        }
    }

    /// The colour a value is shown in: the forced one, else its own.
    pub open spec fn shade(self, force_color: Option<Color>) -> Color {
        match force_color {
            Some(color) => color,
            None => self.own_color(),
        }
    }

    /// Whether `out` is a way this value may be written for a placeholder
    /// of the given kind and forced colour.
    pub open spec fn is_written_as(
        self,
        out: Seq<char>,
        kind: DispType,
        force_color: Option<Color>,
    ) -> bool {
        let text = self.plain(kind);
        let style = Style { color: Some(self.shade(force_color)), bold: false };
        out == text || out == ansi(text, style)
    }
}

impl Disp {
    /// The unstyled text of the value in the form that `kind` asks for.
    pub fn plain(&self, kind: &DispType) -> (out: String)
        ensures
            out@ == self@.plain(*kind),
    {
        match kind {
            DispType::Regular => match self {
                Disp::Usize(n) => count_text(*n),
                Disp::Str(s) => s.clone(),
                Disp::Path(p) => p.clone(),
                Disp::Error(e) => e.message.clone(),
            },
            DispType::Debug => match self {
                Disp::Usize(n) => count_text(*n),
                Disp::Str(s) => debug_str(s.as_str()),
                Disp::Path(p) => debug_path(p.as_str()),
                Disp::Error(e) => e.detail.clone(),
            },
        }
    }

    /// The colour the value is shown in: the forced one, else its own.
    pub fn shade(&self, force_color: &Option<Color>) -> (color: Color)
        ensures
            color == self@.shade(*force_color),
    {
        match force_color {
            Some(color) => *color,
            None => match self {
                Disp::Usize(_) => Color::Blue,
                Disp::Str(_) => Color::Cyan,
                Disp::Path(_) => Color::Cyan,
                Disp::Error(_) => Color::Red,
            },
        }
    }

    /// Writes the value for a placeholder: its text in the form that
    /// `disp_type` asks for, coloured in `force_color` or else in the
    /// value's own colour. Whether colour codes are added is decided by the
    /// terminal-colouring switch at the time of the call.
    pub fn fmt(&self, disp_type: &DispType, force_color: &Option<Color>) -> (out: String)
        ensures
            self@.is_written_as(out@, *disp_type, *force_color),
    {
        let text = self.plain(disp_type);
        paint(text.as_str(), self.shade(force_color))
    }
}

impl From<usize> for Disp {
    fn from(val: usize) -> (disp: Disp) {
        Disp::Usize(val)
    }
}

impl vstd::std_specs::convert::FromSpecImpl<usize> for Disp {
    open spec fn obeys_from_spec() -> bool {
        true
    }

    open spec fn from_spec(val: usize) -> Disp {
        Disp::Usize(val)
    }
}

impl From<String> for Disp {
    fn from(val: String) -> (disp: Disp) {
        Disp::Str(val)
    }
}

impl vstd::std_specs::convert::FromSpecImpl<String> for Disp {
    open spec fn obeys_from_spec() -> bool {
        true
    }

    open spec fn from_spec(val: String) -> Disp {
        Disp::Str(val)
    }
}

impl From<ErrorText> for Disp {
    fn from(val: ErrorText) -> (disp: Disp) {
        Disp::Error(val)
    }
}

impl vstd::std_specs::convert::FromSpecImpl<ErrorText> for Disp {
    open spec fn obeys_from_spec() -> bool {
        true
    }

    open spec fn from_spec(val: ErrorText) -> Disp {
        Disp::Error(val)
    }
}

impl Disp {
    /// A piece of text to show.
    pub fn text(s: &str) -> (disp: Disp)
        ensures
            disp@ == DispView::Str(s@),
    {
        Disp::Str(s.to_owned())
    }

    /// A path to show.
    pub fn path(p: &str) -> (disp: Disp)
        ensures
            disp@ == DispView::Path(p@),
    {
        Disp::Path(p.to_owned())
    }
}

} // verus!
