//! Plain-text forms of the values that a progress line can show.

use vstd::prelude::*;

verus! {

/// The character for a single decimal digit.
pub open spec fn digit_char(d: nat) -> char {
    if d == 0 {
        '0'
    } else if d == 1 {
        '1'
    } else if d == 2 {
        '2'
    } else if d == 3 {
        '3'
    } else if d == 4 {
        '4'
    } else if d == 5 {
        '5'
    } else if d == 6 {
        '6'
    } else if d == 7 {
        '7'
    } else if d == 8 {
        '8'
    } else {
        '9'
    }
}

/// The decimal numeral of `n`, without sign or leading zeros.
pub open spec fn decimal(n: nat) -> Seq<char>
    decreases n,
{
    if n < 10 {
        seq![digit_char(n)]
    } else {
        decimal(n / 10).push(digit_char(n % 10))
    }
}

fn digit_str(d: usize) -> (s: &'static str)
    requires
        d < 10,
    ensures
        s@ == seq![digit_char(d as nat)],
{
    proof {
        reveal_strlit("0");
        reveal_strlit("1");
        reveal_strlit("2");
        reveal_strlit("3");
        reveal_strlit("4");
        reveal_strlit("5");
        reveal_strlit("6");
        reveal_strlit("7");
        reveal_strlit("8");
        reveal_strlit("9");
    }
    let s = if d == 0 {
        "0"
    } else if d == 1 {
        "1"
    } else if d == 2 {
        "2"
    } else if d == 3 {
        "3"
    } else if d == 4 {
        "4"
    } else if d == 5 {
        "5"
    } else if d == 6 {
        "6"
    } else if d == 7 {
        "7"
    } else if d == 8 {
        "8"
    } else {
        "9"
    };
    assert(s@ =~= seq![digit_char(d as nat)]);
    s
}

/// Writes a count as its decimal numeral.
pub fn count_text(n: usize) -> (out: String)
    ensures
        out@ == decimal(n as nat),
{
    let mut out = String::from_str(digit_str(n % 10));
    let mut rest: usize = n / 10;
    while rest > 0
        invariant
            decimal(n as nat) == if rest > 0 {
                decimal(rest as nat) + out@
            } else {
                out@
            },
        decreases rest,
    {
        let head = String::from_str(digit_str(rest % 10));
        proof {
            let lead = seq![digit_char((rest % 10) as nat)];
            if rest >= 10 {
                assert(decimal(rest as nat) + out@ =~= decimal((rest / 10) as nat) + (lead
                    + out@));
            } else {
                assert(decimal(rest as nat) + out@ =~= lead + out@);
            }
        }
        out = head.concat(out.as_str());
        rest = rest / 10;
    }
    out
}

/// What `{:?}` writes for a string: the text in double quotes, with the
/// characters escaped that Rust's `Debug` escapes.
pub uninterp spec fn str_debug(text: Seq<char>) -> Seq<char>;

/// Formats a string with `{:?}` (std's `Debug` for `str`). The result is
/// determined by the text alone.
#[verifier::external_body]
pub(crate) fn debug_str(text: &str) -> (out: String)
    ensures
        out@ == str_debug(text@),
{
    format!("{:?}", text)
}

/// What `{:?}` writes for the path spelled by a text.
pub uninterp spec fn path_debug(path: Seq<char>) -> Seq<char>;

/// Formats a path with `{:?}` (std's `Debug` for `Path`). The result is
/// determined by the path alone.
#[verifier::external_body]
pub(crate) fn debug_path(path: &str) -> (out: String)
    ensures
        out@ == path_debug(path@),
{
    format!("{:?}", std::path::Path::new(path))
}

/// The content of an optional text.
pub open spec fn text_of(text: Option<String>) -> Option<Seq<char>> {
    match text {
        Some(text) => Some(text@),
        None => None,
    }
}

/// The characters of a string, in order.
pub fn chars_of(text: &str) -> (chars: Vec<char>)
    ensures
        chars@ == text@,
{
    let mut chars: Vec<char> = Vec::new();
    for c in it: text.chars()
        invariant
            it.seq() == text@,
            chars@ == it.seq().take(it.index() as int),
    {
        chars.push(c);
    }
    chars
}

} // verus!
