//! The nested progress lines: each announcement gives the line to show and
//! the reporter for what is announced beneath it.

use vstd::prelude::*;
use crate::disp::{views, Disp, DispView};
use crate::style::{embolden, is_styled, paint_bold, Color, Level, Style};
use crate::template::{accepts, is_message, render};

verus! {

/// The text of the arrow that begins a line.
pub open spec fn arrow_text() -> Seq<char> {
    seq!['-', '>']
}

/// The blanks in front of a line at the given depth: two for each level
/// below the first.
pub open spec fn indent_text(indent: nat) -> Seq<char>
    decreases indent,
{
    if indent <= 1 {
        Seq::empty()
    } else {
        indent_text((indent - 1) as nat) + seq![' ', ' ']
    }
}

/// A line at the given depth: the blanks, the arrow, one blank, the message.
pub open spec fn line_of(indent: nat, arrow: Seq<char>, message: Seq<char>) -> Seq<char> {
    indent_text(indent) + arrow + seq![' '] + message
}

/// The depth below `indent`: one more, as far as the machine can count.
pub open spec fn deeper(indent: nat) -> nat {
    if indent < usize::MAX {
        indent + 1
    } else {
        indent
    }
}

/// Whether `line` announces the message of `template` and `values` at the
/// given depth with an arrow in `color`.
pub open spec fn is_line(
    line: Seq<char>,
    indent: nat,
    color: Color,
    template: Seq<char>,
    values: Seq<DispView>,
) -> bool {
    exists|arrow: Seq<char>, message: Seq<char>|
        #![trigger line_of(indent, arrow, message)]
        is_styled(arrow, arrow_text(), (Style { color: Some(color), bold: true })) && is_message(
            message,
            template,
            values,
        ) && line == line_of(indent, arrow, message)
}

/// Whether `line` is the headline for the message of `template` and
/// `values`: the message in bold.
pub open spec fn is_headline(line: Seq<char>, template: Seq<char>, values: Seq<DispView>) -> bool {
    exists|message: Seq<char>|
        #![trigger is_message(message, template, values)]
        is_message(message, template, values) && is_styled(
            line,
            message,
            (Style { color: None, bold: true }),
        )
}

/// Whether `after` is `before` with one more line, which announces the
/// message of `template` and `values` at the given depth in `color`.
pub open spec fn gains_line(
    after: Seq<String>,
    before: Seq<String>,
    indent: nat,
    color: Color,
    template: Seq<char>,
    values: Seq<DispView>,
) -> bool {
    &&& after.len() == before.len() + 1
    &&& after.drop_last() == before
    &&& is_line(after.last()@, indent, color, template, values)
}

/// One level of the nested progress report.
#[derive(Clone, Copy, Debug, PartialEq, Eq)]
pub struct Dialog {
    indent: usize,
}

impl View for Dialog {
    type V = nat;

    /// The depth of the lines this reporter announces, counted from one.
    closed spec fn view(&self) -> nat {
        self.indent as nat
    }
}

impl Dialog {
    #[verifier::type_invariant]
    spec fn depth_counts_from_one(self) -> bool {
        self.indent >= 1
    }

    /// A reporter at the given depth, which counts from one.
    pub fn raw_with_indent(indent: usize) -> (dialog: Dialog)
        requires
            indent >= 1,
        ensures
            dialog@ == indent,
    {
        Dialog { indent }
    }

    /// The depth of the lines this reporter announces.
    pub fn indent(&self) -> (indent: usize)
        ensures
            indent == self@,
            indent >= 1,
    {
        proof {
            use_type_invariant(self);
        }
        self.indent
    }

    /// The line at this reporter's depth that begins with `arrow` and
    /// carries `message`.
    pub fn compose(&self, arrow: &str, message: &str) -> (line: String)
        ensures
            line@ == line_of(self@, arrow@, message@),
    {
        proof {
            use_type_invariant(self);
            reveal_strlit("  ");
            reveal_strlit(" ");
        }
        let mut line = String::new();
        let mut level: usize = 1;
        while level < self.indent
            invariant
                1 <= level <= self.indent,
                line@ == indent_text(level as nat),
                "  "@ == seq![' ', ' '],
            decreases self.indent - level,
        {
            line.append("  ");
            level = level + 1;
        }
        line.append(arrow);
        line.append(" ");
        line.append(message);
        line
    }

    /// The reporter for what is announced beneath this one.
    pub fn sub_dialog(&self) -> (dialog: Dialog)
        ensures
            dialog@ == deeper(self@),
    {
        proof {
            use_type_invariant(self);
        }
        Dialog { indent: self.indent.saturating_add(1) }
    }

    /// Announces a message: gives the reporter one level deeper and the
    /// line, which begins with an arrow in `color`.
    pub fn msg_str_with(&self, color: Color, msg: &str, disps: &[Disp]) -> (r: (Dialog, String))
        requires
            accepts(msg@, disps@.len()),
        ensures
            r.0@ == deeper(self@),
            is_line(r.1@, self@, color, msg@, views(disps@)),
    {
        let arrow = paint_bold("->", color);
        proof {
            reveal_strlit("->");
            assert("->"@ =~= arrow_text());
        }
        match render(msg, disps) {
            Some(message) => {
                let line = self.compose(arrow.as_str(), message.as_str());
                (self.sub_dialog(), line)
            },
            None => {
                proof {
                    assert(false);
                }
                (self.sub_dialog(), String::new())
            },
        }
    }

    /// Announces a message that takes no values: gives the reporter one
    /// level deeper and the line, which begins with an arrow in `color`.
    pub fn msg_str(&self, color: Color, msg: &str) -> (r: (Dialog, String))
        requires
            accepts(msg@, 0),
        ensures
            r.0@ == deeper(self@),
            is_line(r.1@, self@, color, msg@, Seq::empty()),
    {
        let none: Vec<Disp> = Vec::new();
        proof {
            assert(views(none@) =~= Seq::<DispView>::empty());
        }
        self.msg_str_with(color, msg, none.as_slice())
    }

    /// Announces a message: adds the line, which begins with an arrow in
    /// `color`, to `out` and gives the reporter one level deeper.
    pub fn msg_with(&self, color: Color, msg: &str, disps: &[Disp], out: &mut Vec<String>) -> (dialog:
        Dialog)
        requires
            accepts(msg@, disps@.len()),
        ensures
            dialog@ == deeper(self@),
            gains_line(final(out)@, old(out)@, self@, color, msg@, views(disps@)),
    {
        let (dialog, line) = self.msg_str_with(color, msg, disps);
        proof {
            assert(out@.push(line).drop_last() =~= out@);
        }
        out.push(line);
        dialog
    }

    /// Announces a message that takes no values: adds the line, which
    /// begins with an arrow in `color`, to `out` and gives the reporter one
    /// level deeper.
    pub fn msg(&self, color: Color, msg: &str, out: &mut Vec<String>) -> (dialog: Dialog)
        requires
            accepts(msg@, 0),
        ensures
            dialog@ == deeper(self@),
            gains_line(final(out)@, old(out)@, self@, color, msg@, Seq::empty()),
    {
        let (dialog, line) = self.msg_str(color, msg);
        proof {
            assert(out@.push(line).drop_last() =~= out@);
        }
        out.push(line);
        dialog
    }

    /// Announces a piece of information: gives the reporter one level deeper and the line.
    pub fn info_str_with(&self, msg: &str, disps: &[Disp]) -> (r: (Dialog, String))
        requires
            accepts(msg@, disps@.len()),
        ensures
            r.0@ == deeper(self@),
            is_line(r.1@, self@, Level::Info.color_spec(), msg@, views(disps@)),
    {
        self.msg_str_with(Level::Info.color(), msg, disps)
    }

    /// Announces a piece of information that takes no values: gives the reporter one level deeper and
    /// the line.
    pub fn info_str(&self, msg: &str) -> (r: (Dialog, String))
        requires
            accepts(msg@, 0),
        ensures
            r.0@ == deeper(self@),
            is_line(r.1@, self@, Level::Info.color_spec(), msg@, Seq::empty()),
    {
        self.msg_str(Level::Info.color(), msg)
    }

    /// Announces a piece of information: adds the line to `out` and gives the reporter one level
    /// deeper.
    pub fn info_with(&self, msg: &str, disps: &[Disp], out: &mut Vec<String>) -> (dialog: Dialog)
        requires
            accepts(msg@, disps@.len()),
        ensures
            dialog@ == deeper(self@),
            gains_line(
                final(out)@,
                old(out)@,
                self@,
                Level::Info.color_spec(),
                msg@,
                views(disps@),
            ),
    {
        self.msg_with(Level::Info.color(), msg, disps, out)
    }

    /// Announces a piece of information that takes no values: adds the line to `out` and gives the
    /// reporter one level deeper.
    pub fn info(&self, msg: &str, out: &mut Vec<String>) -> (dialog: Dialog)
        requires
            accepts(msg@, 0),
        ensures
            dialog@ == deeper(self@),
            gains_line(
                final(out)@,
                old(out)@,
                self@,
                Level::Info.color_spec(),
                msg@,
                Seq::empty(),
            ),
    {
        self.msg(Level::Info.color(), msg, out)
    }

    /// Announces a warning: gives the reporter one level deeper and the line.
    pub fn warn_str_with(&self, msg: &str, disps: &[Disp]) -> (r: (Dialog, String))
        requires
            accepts(msg@, disps@.len()),
        ensures
            r.0@ == deeper(self@),
            is_line(r.1@, self@, Level::Warn.color_spec(), msg@, views(disps@)),
    {
        self.msg_str_with(Level::Warn.color(), msg, disps)
    }

    /// Announces a warning that takes no values: gives the reporter one level deeper and
    /// the line.
    pub fn warn_str(&self, msg: &str) -> (r: (Dialog, String))
        requires
            accepts(msg@, 0),
        ensures
            r.0@ == deeper(self@),
            is_line(r.1@, self@, Level::Warn.color_spec(), msg@, Seq::empty()),
    {
        self.msg_str(Level::Warn.color(), msg)
    }

    /// Announces a warning: adds the line to `out` and gives the reporter one level
    /// deeper.
    pub fn warn_with(&self, msg: &str, disps: &[Disp], out: &mut Vec<String>) -> (dialog: Dialog)
        requires
            accepts(msg@, disps@.len()),
        ensures
            dialog@ == deeper(self@),
            gains_line(
                final(out)@,
                old(out)@,
                self@,
                Level::Warn.color_spec(),
                msg@,
                views(disps@),
            ),
    {
        self.msg_with(Level::Warn.color(), msg, disps, out)
    }

    /// Announces a warning that takes no values: adds the line to `out` and gives the
    /// reporter one level deeper.
    pub fn warn(&self, msg: &str, out: &mut Vec<String>) -> (dialog: Dialog)
        requires
            accepts(msg@, 0),
        ensures
            dialog@ == deeper(self@),
            gains_line(
                final(out)@,
                old(out)@,
                self@,
                Level::Warn.color_spec(),
                msg@,
                Seq::empty(),
            ),
    {
        self.msg(Level::Warn.color(), msg, out)
    }

    /// Announces an error: gives the reporter one level deeper and the line.
    pub fn error_str_with(&self, msg: &str, disps: &[Disp]) -> (r: (Dialog, String))
        requires
            accepts(msg@, disps@.len()),
        ensures
            r.0@ == deeper(self@),
            is_line(r.1@, self@, Level::Error.color_spec(), msg@, views(disps@)),
    {
        self.msg_str_with(Level::Error.color(), msg, disps)
    }

    /// Announces an error that takes no values: gives the reporter one level deeper and
    /// the line.
    pub fn error_str(&self, msg: &str) -> (r: (Dialog, String))
        requires
            accepts(msg@, 0),
        ensures
            r.0@ == deeper(self@),
            is_line(r.1@, self@, Level::Error.color_spec(), msg@, Seq::empty()),
    {
        self.msg_str(Level::Error.color(), msg)
    }

    /// Announces an error: adds the line to `out` and gives the reporter one level
    /// deeper.
    pub fn error_with(&self, msg: &str, disps: &[Disp], out: &mut Vec<String>) -> (dialog: Dialog)
        requires
            accepts(msg@, disps@.len()),
        ensures
            dialog@ == deeper(self@),
            gains_line(
                final(out)@,
                old(out)@,
                self@,
                Level::Error.color_spec(),
                msg@,
                views(disps@),
            ),
    {
        self.msg_with(Level::Error.color(), msg, disps, out)
    }

    /// Announces an error that takes no values: adds the line to `out` and gives the
    /// reporter one level deeper.
    pub fn error(&self, msg: &str, out: &mut Vec<String>) -> (dialog: Dialog)
        requires
            accepts(msg@, 0),
        ensures
            dialog@ == deeper(self@),
            gains_line(
                final(out)@,
                old(out)@,
                self@,
                Level::Error.color_spec(),
                msg@,
                Seq::empty(),
            ),
    {
        self.msg(Level::Error.color(), msg, out)
    }

    /// Opens a report: gives the reporter for the first level beneath the
    /// headline, and the headline, which is the message in bold.
    pub fn new_str_with(msg: &str, disps: &[Disp]) -> (r: (Dialog, String))
        requires
            accepts(msg@, disps@.len()),
        ensures
            r.0@ == 1,
            is_headline(r.1@, msg@, views(disps@)),
    {
        match render(msg, disps) {
            Some(message) => (Dialog { indent: 1 }, embolden(message.as_str())),
            None => {
                proof {
                    assert(false);
                }
                (Dialog { indent: 1 }, String::new())
            },
        }
    }

    /// Opens a report: adds the headline, which is the message in bold, to
    /// `out` and gives the reporter for the first level beneath it.
    pub fn new_with(msg: &str, disps: &[Disp], out: &mut Vec<String>) -> (dialog: Dialog)
        requires
            accepts(msg@, disps@.len()),
        ensures
            dialog@ == 1,
            final(out)@.len() == old(out)@.len() + 1,
            final(out)@.drop_last() == old(out)@,
            is_headline(final(out)@.last()@, msg@, views(disps@)),
    {
        let (dialog, line) = Dialog::new_str_with(msg, disps);
        proof {
            assert(out@.push(line).drop_last() =~= out@);
        }
        out.push(line);
        dialog
    }

    /// Opens a report with a headline that takes no values.
    pub fn new(msg: &str, out: &mut Vec<String>) -> (dialog: Dialog)
        requires
            accepts(msg@, 0),
        ensures
            dialog@ == 1,
            final(out)@.len() == old(out)@.len() + 1,
            final(out)@.drop_last() == old(out)@,
            is_headline(final(out)@.last()@, msg@, Seq::empty()),
    {
        let none: Vec<Disp> = Vec::new();
        proof {
            assert(views(none@) =~= Seq::<DispView>::empty());
        }
        Dialog::new_with(msg, none.as_slice(), out)
    }
}

} // verus!
