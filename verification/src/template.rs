//! The message templates of progress lines: literal text with `{}` and `{:?}`
//! placeholders that are filled, in order, from a list of values.

use vstd::prelude::*;
use crate::disp::{views, Disp, DispType, DispView};
use crate::style::Color;
use crate::text::chars_of;

verus! {

/// One piece of a parsed template.
#[derive(Clone, Debug, PartialEq, Eq)]
pub enum Segment {
    /// Literal text.
    Text(String),
    /// A placeholder: the form it asks for, and a colour that overrides the
    /// value's own.
    Marker(DispType, Option<Color>),
}

/// The mathematical content of a [`Segment`].
pub enum SegmentView {
    Text(Seq<char>),
    Marker(DispType, Option<Color>),
}

impl View for Segment {
    type V = SegmentView;

    open spec fn view(&self) -> SegmentView {
        match self {
            Segment::Text(text) => SegmentView::Text(text@),
            Segment::Marker(kind, force_color) => SegmentView::Marker(*kind, *force_color),
        }
    }
}

/// A parsed template.
#[derive(Clone, Debug, PartialEq, Eq)]
pub struct FmtStr {
    segments: Vec<Segment>,
}

impl View for FmtStr {
    type V = Seq<SegmentView>;

    closed spec fn view(&self) -> Seq<SegmentView> {
        self.segments@.map_values(|s: Segment| s@)
    }
}

/// Whether the brace at `i` begins a placeholder, `{}` or `{:?}`.
pub open spec fn opens_marker(s: Seq<char>, i: int) -> bool {
    ||| (i + 1 < s.len() && s[i + 1] == '}')
    ||| (i + 3 < s.len() && s[i + 1] == ':' && s[i + 2] == '?' && s[i + 3] == '}')
}

/// Whether the brace at `j` ends a placeholder, `{}` or `{:?}`.
pub open spec fn closes_marker(s: Seq<char>, j: int) -> bool {
    ||| (j >= 1 && s[j - 1] == '{')
    ||| (j >= 3 && s[j - 3] == '{' && s[j - 2] == ':' && s[j - 1] == '?')
}

/// Whether the braces among the first `n` characters all belong to
/// placeholders.
pub open spec fn braces_match_upto(s: Seq<char>, n: int) -> bool {
    forall|i: int|
        0 <= i < n ==> (#[trigger] s[i] == '{' ==> opens_marker(s, i)) && (s[i] == '}'
            ==> closes_marker(s, i))
}

/// A template is well formed when every brace in it belongs to a
/// placeholder `{}` or `{:?}`: each `{` begins one and each `}` ends one.
pub open spec fn well_formed(s: Seq<char>) -> bool {
    braces_match_upto(s, s.len() as int)
}

/// Whether no character in `text` is a brace.
pub open spec fn brace_free(text: Seq<char>) -> bool {
    forall|i: int| 0 <= i < text.len() ==> #[trigger] text[i] != '{' && text[i] != '}'
}

/// The text of a placeholder.
pub open spec fn marker_text(kind: DispType) -> Seq<char> {
    match kind {
        DispType::Regular => seq!['{', '}'],
        DispType::Debug => seq!['{', ':', '?', '}'],
    }
}

/// The template that a list of segments spells.
pub open spec fn template_of(segments: Seq<SegmentView>) -> Seq<char>
    decreases segments.len(),
{
    if segments.len() == 0 {
        Seq::empty()
    } else {
        template_of(segments.drop_last()) + match segments.last() {
            SegmentView::Text(text) => text,
            SegmentView::Marker(kind, _) => marker_text(kind),
        }
    }
}

/// Whether text and placeholders take turns in `segments`, text first:
/// brace-free text at the even places, placeholders that force no colour at
/// the odd ones.
pub open spec fn takes_turns(segments: Seq<SegmentView>) -> bool {
    forall|k: int|
        0 <= k < segments.len() ==> match #[trigger] segments[k] {
            SegmentView::Text(text) => k % 2 == 0 && brace_free(text),
            SegmentView::Marker(_, force_color) => k % 2 == 1 && force_color is None,
        }
}

/// The shape of a freshly parsed template: text and placeholders take
/// turns, and text comes first and last (each possibly empty).
pub open spec fn is_parsed(segments: Seq<SegmentView>) -> bool {
    segments.len() % 2 == 1 && takes_turns(segments)
}

/// The number of placeholders among `segments`.
pub open spec fn marker_count(segments: Seq<SegmentView>) -> nat
    decreases segments.len(),
{
    if segments.len() == 0 {
        0
    } else {
        marker_count(segments.drop_last()) + match segments.last() {
            SegmentView::Text(_) => 0nat,
            SegmentView::Marker(_, _) => 1nat,
        }
    }
}

/// The placeholders among `segments`, in order.
pub open spec fn markers(segments: Seq<SegmentView>) -> Seq<(DispType, Option<Color>)>
    decreases segments.len(),
{
    if segments.len() == 0 {
        Seq::empty()
    } else {
        match segments.last() {
            SegmentView::Text(_) => markers(segments.drop_last()),
            SegmentView::Marker(kind, force_color) => markers(segments.drop_last()).push(
                (kind, force_color),
            ),
        }
    }
}

/// The message that comes of putting `parts`, in order, in the place of the
/// placeholders of `segments`.
pub open spec fn assembled(segments: Seq<SegmentView>, parts: Seq<Seq<char>>) -> Seq<char>
    decreases segments.len(),
{
    if segments.len() == 0 {
        Seq::empty()
    } else {
        match segments.last() {
            SegmentView::Text(text) => assembled(segments.drop_last(), parts) + text,
            SegmentView::Marker(_, _) => if parts.len() == 0 {
                assembled(segments.drop_last(), parts)
            } else {
                assembled(segments.drop_last(), parts.drop_last()) + parts.last()
            },
        }
    }
}

/// Whether `parts` are ways of writing `values`, one for each placeholder of
/// `segments`, each in the form and colour its placeholder asks for.
pub open spec fn parts_fit(
    parts: Seq<Seq<char>>,
    segments: Seq<SegmentView>,
    values: Seq<DispView>,
) -> bool {
    &&& parts.len() == values.len()
    &&& markers(segments).len() == values.len()
    &&& forall|i: int|
        0 <= i < parts.len() ==> (#[trigger] values[i]).is_written_as(
            parts[i],
            markers(segments)[i].0,
            markers(segments)[i].1,
        )
}

/// Whether `out` is a rendering of the template `segments` with `values`:
/// the literal text as it stands, and in the place of each placeholder its
/// value, written as the placeholder asks.
pub open spec fn is_rendering(
    out: Seq<char>,
    segments: Seq<SegmentView>,
    values: Seq<DispView>,
) -> bool {
    exists|parts: Seq<Seq<char>>|
        parts_fit(parts, segments, values) && out == assembled(segments, parts)
}

/// The number of placeholders is the length of the list of placeholders.
pub proof fn lemma_marker_count(segments: Seq<SegmentView>)
    ensures
        markers(segments).len() == marker_count(segments),
    decreases segments.len(),
{
    if segments.len() > 0 {
        lemma_marker_count(segments.drop_last());
    }
}

/// The number of opening braces in a template: in a well-formed one, the
/// number of its placeholders.
pub open spec fn placeholders(s: Seq<char>) -> nat
    decreases s.len(),
{
    if s.len() == 0 {
        0
    } else {
        placeholders(s.drop_last()) + if s.last() == '{' {
            1nat
        } else {
            0nat
        }
    }
}

/// Whether a template can be filled with `count` values: it is well formed
/// and has that many placeholders.
pub open spec fn accepts(s: Seq<char>, count: nat) -> bool {
    well_formed(s) && placeholders(s) == count
}

/// Whether `out` is the message that the template `s` gives with `values`.
pub open spec fn is_message(out: Seq<char>, s: Seq<char>, values: Seq<DispView>) -> bool {
    exists|segments: Seq<SegmentView>|
        #![trigger template_of(segments)]
        is_parsed(segments) && template_of(segments) == s && is_rendering(out, segments, values)
}

/// One more character adds one placeholder if it is an opening brace.
pub proof fn lemma_placeholders_step(s: Seq<char>, i: int)
    requires
        0 <= i < s.len(),
    ensures
        placeholders(s.take(i + 1)) == placeholders(s.take(i)) + if s[i] == '{' {
            1nat
        } else {
            0nat
        },
{
    assert(s.take(i + 1).drop_last() =~= s.take(i));
}

/// Appending a segment adds one placeholder if it is one.
pub proof fn lemma_marker_count_push(segments: Seq<SegmentView>, segment: SegmentView)
    ensures
        marker_count(segments.push(segment)) == marker_count(segments) + match segment {
            SegmentView::Text(_) => 0nat,
            SegmentView::Marker(_, _) => 1nat,
        },
{
    assert(segments.push(segment).drop_last() =~= segments);
}

/// The contents of a list of segments.
pub open spec fn segment_views(segments: Seq<Segment>) -> Seq<SegmentView> {
    segments.map_values(|s: Segment| s@)
}

/// Appending a segment appends its text to the template.
pub proof fn lemma_template_push(segments: Seq<SegmentView>, segment: SegmentView)
    ensures
        template_of(segments.push(segment)) == template_of(segments) + match segment {
            SegmentView::Text(text) => text,
            SegmentView::Marker(kind, _) => marker_text(kind),
        },
{
    assert(segments.push(segment).drop_last() =~= segments);
}

/// What holds while a template is read from the left: `segments` spell the
/// first `start` characters, which end a placeholder (or are none), and from
/// there up to `i` no brace has been met.
spec fn scanned(s: Seq<char>, segments: Seq<SegmentView>, start: int, i: int) -> bool {
    &&& 0 <= start <= i <= s.len()
    &&& braces_match_upto(s, i)
    &&& forall|k: int| start <= k < i ==> #[trigger] s[k] != '{' && s[k] != '}'
    &&& (start == 0 || s[start - 1] == '}')
    &&& segments.len() % 2 == 0
    &&& takes_turns(segments)
    &&& template_of(segments) == s.take(start)
    &&& marker_count(segments) == placeholders(s.take(i))
}

proof fn lemma_scan_text(s: Seq<char>, segments: Seq<SegmentView>, start: int, i: int)
    requires
        scanned(s, segments, start, i),
        i < s.len(),
        s[i] != '{',
        s[i] != '}',
    ensures
        scanned(s, segments, start, i + 1),
{
    lemma_placeholders_step(s, i);
}

proof fn lemma_scan_marker(
    s: Seq<char>,
    segments: Seq<SegmentView>,
    start: int,
    i: int,
    kind: DispType,
)
    requires
        scanned(s, segments, start, i),
        i < s.len(),
        s[i] == '{',
        match kind {
            DispType::Regular => i + 1 < s.len() && s[i + 1] == '}',
            DispType::Debug => i + 3 < s.len() && s[i + 1] == ':' && s[i + 2] == '?' && s[i + 3]
                == '}',
        },
    ensures
        scanned(
            s,
            segments.push(SegmentView::Text(s.subrange(start, i))).push(
                SegmentView::Marker(kind, None),
            ),
            i + marker_text(kind).len(),
            i + marker_text(kind).len(),
        ),
{
    let literal = SegmentView::Text(s.subrange(start, i));
    let marker = SegmentView::Marker(kind, None);
    let width = marker_text(kind).len() as int;
    let grown = segments.push(literal).push(marker);
    lemma_template_push(segments, literal);
    lemma_template_push(segments.push(literal), marker);
    lemma_marker_count_push(segments, literal);
    lemma_marker_count_push(segments.push(literal), marker);
    lemma_placeholders_step(s, i);
    lemma_placeholders_step(s, i + 1);
    if kind == DispType::Debug {
        lemma_placeholders_step(s, i + 2);
        lemma_placeholders_step(s, i + 3);
    }
    assert(s.subrange(i, i + width) =~= marker_text(kind));
    assert(s.take(start) + s.subrange(start, i) + s.subrange(i, i + width) =~= s.take(i + width));
    assert(brace_free(s.subrange(start, i)));
    assert(takes_turns(grown)) by {
        assert forall|k: int| 0 <= k < grown.len() implies match #[trigger] grown[k] {
            SegmentView::Text(text) => k % 2 == 0 && brace_free(text),
            SegmentView::Marker(_, force_color) => k % 2 == 1 && force_color is None,
        } by {
            if k < segments.len() {
                assert(grown[k] == segments[k]);
            }
        }
    }
    assert(braces_match_upto(s, i + width)) by {
        assert forall|k: int| 0 <= k < i + width implies (#[trigger] s[k] == '{' ==> opens_marker(
            s,
            k,
        )) && (s[k] == '}' ==> closes_marker(s, k)) by {
            if k >= i {
                if kind == DispType::Regular {
                    assert(k == i || k == i + 1);
                } else {
                    assert(k == i || k == i + 1 || k == i + 2 || k == i + 3);
                }
            }
        }
    }
}

proof fn lemma_scan_stray(s: Seq<char>, segments: Seq<SegmentView>, start: int, i: int)
    requires
        scanned(s, segments, start, i),
        i < s.len(),
        s[i] == '}',
    ensures
        !closes_marker(s, i),
        !well_formed(s),
{
    if i >= 1 {
        if i - 1 >= start {
            assert(s[i - 1] != '{');
        }
    }
    if i >= 3 {
        if i - 3 >= start {
            assert(s[i - 3] != '{');
        }
    }
    assert(!closes_marker(s, i));
}

proof fn lemma_scan_end(s: Seq<char>, segments: Seq<SegmentView>, start: int)
    requires
        scanned(s, segments, start, s.len() as int),
    ensures
        well_formed(s),
        is_parsed(segments.push(SegmentView::Text(s.subrange(start, s.len() as int)))),
        template_of(segments.push(SegmentView::Text(s.subrange(start, s.len() as int)))) == s,
        marker_count(segments.push(SegmentView::Text(s.subrange(start, s.len() as int))))
            == placeholders(s),
{
    let literal = SegmentView::Text(s.subrange(start, s.len() as int));
    let grown = segments.push(literal);
    lemma_template_push(segments, literal);
    lemma_marker_count_push(segments, literal);
    assert(s.take(s.len() as int) =~= s);
    assert(s.take(start) + s.subrange(start, s.len() as int) =~= s);
    assert(brace_free(s.subrange(start, s.len() as int)));
    assert(takes_turns(grown)) by {
        assert forall|k: int| 0 <= k < grown.len() implies match #[trigger] grown[k] {
            SegmentView::Text(text) => k % 2 == 0 && brace_free(text),
            SegmentView::Marker(_, force_color) => k % 2 == 1 && force_color is None,
        } by {
            if k < segments.len() {
                assert(grown[k] == segments[k]);
            }
        }
    }
}

impl FmtStr {
    /// Parses a template.
    ///
    /// Succeeds exactly on the well-formed templates. The segments of the
    /// result are the literal stretches and the placeholders of the template
    /// in order, so that spelling them out gives the template back.
    pub fn try_new(s: &str) -> (r: Option<FmtStr>)
        ensures
            r is Some <==> well_formed(s@),
            r matches Some(f) ==> is_parsed(f@) && template_of(f@) == s@ && marker_count(f@)
                == placeholders(s@),
    {
        let chars = chars_of(s);
        let n = chars.len();
        let mut segments: Vec<Segment> = Vec::new();
        let mut start: usize = 0;
        let mut i: usize = 0;
        proof {
            assert(s@.take(0) =~= Seq::<char>::empty());
        }
        while i < n
            invariant
                chars@ == s@,
                n == chars.len(),
                scanned(s@, segment_views(segments@), start as int, i as int),
            decreases n - i,
        {
            let c = chars[i];
            if c == '{' {
                let kind: DispType;
                let width: usize;
                if n - i > 1 && chars[i + 1] == '}' {
                    kind = DispType::Regular;
                    width = 2;
                } else if n - i > 3 && chars[i + 1] == ':' && chars[i + 2] == '?' && chars[i + 3]
                    == '}' {
                    kind = DispType::Debug;
                    width = 4;
                } else {
                    assert(!opens_marker(s@, i as int));
                    return None;
                }
                let text = s.substring_char(start, i).to_owned();
                proof {
                    let before = segment_views(segments@);
                    lemma_scan_marker(s@, before, start as int, i as int, kind);
                    assert(segment_views(
                        segments@.push(Segment::Text(text)).push(Segment::Marker(kind, None)),
                    ) =~= before.push(SegmentView::Text(text@)).push(
                        SegmentView::Marker(kind, None),
                    ));
                }
                segments.push(Segment::Text(text));
                segments.push(Segment::Marker(kind, None));
                i = i + width;
                start = i;
            } else if c == '}' {
                proof {
                    lemma_scan_stray(s@, segment_views(segments@), start as int, i as int);
                }
                return None;
            } else {
                proof {
                    lemma_scan_text(s@, segment_views(segments@), start as int, i as int);
                }
                i = i + 1;
            }
        }
        let text = s.substring_char(start, n).to_owned();
        proof {
            let before = segment_views(segments@);
            lemma_scan_end(s@, before, start as int);
            assert(segment_views(segments@.push(Segment::Text(text))) =~= before.push(
                SegmentView::Text(text@),
            ));
        }
        segments.push(Segment::Text(text));
        Some(FmtStr { segments })
    }
}

/// The contents of a list of texts.
pub open spec fn texts(parts: Seq<String>) -> Seq<Seq<char>> {
    parts.map_values(|p: String| p@)
}

/// A front part of a template holds no more placeholders than the whole.
pub proof fn lemma_marker_count_take(segments: Seq<SegmentView>, i: int)
    requires
        0 <= i <= segments.len(),
    ensures
        marker_count(segments.take(i)) <= marker_count(segments),
    decreases segments.len(),
{
    if i == segments.len() {
        assert(segments.take(i) =~= segments);
    } else {
        assert(segments.drop_last().take(i) =~= segments.take(i));
        lemma_marker_count_take(segments.drop_last(), i);
    }
}

impl FmtStr {
    /// The segments of the template, in order.
    pub fn segments(&self) -> (segments: &Vec<Segment>)
        ensures
            segment_views(segments@) == self@,
    {
        &self.segments
    }

    /// The number of placeholders in the template.
    pub fn marker_count(&self) -> (count: usize)
        ensures
            count == marker_count(self@),
    {
        let n = self.segments.len();
        let mut count: usize = 0;
        let mut i: usize = 0;
        while i < n
            invariant
                n == self.segments.len(),
                i <= n,
                count <= i,
                count == marker_count(self@.take(i as int)),
            decreases n - i,
        {
            proof {
                assert(self@.take(i + 1).drop_last() =~= self@.take(i as int));
            }
            match &self.segments[i] {
                Segment::Text(_) => {},
                Segment::Marker(_, _) => {
                    count = count + 1;
                },
            }
            i = i + 1;
        }
        proof {
            assert(self@.take(n as int) =~= self@);
        }
        count
    }

    /// Puts `parts`, in order, in the place of the placeholders.
    ///
    /// Succeeds exactly when there is one part for each placeholder; the
    /// message is then the literal text with the parts in between.
    pub fn assemble(&self, parts: &[String]) -> (r: Option<String>)
        ensures
            r is Some <==> parts@.len() == marker_count(self@),
            r matches Some(out) ==> out@ == assembled(self@, texts(parts@)),
    {
        if self.marker_count() != parts.len() {
            return None;
        }
        let n = self.segments.len();
        let mut out = String::new();
        let mut used: usize = 0;
        let mut i: usize = 0;
        while i < n
            invariant
                n == self.segments.len(),
                i <= n,
                parts@.len() == marker_count(self@),
                used == marker_count(self@.take(i as int)),
                used <= parts@.len(),
                out@ == assembled(self@.take(i as int), texts(parts@).take(used as int)),
            decreases n - i,
        {
            proof {
                assert(self@.take(i + 1).drop_last() =~= self@.take(i as int));
                lemma_marker_count_take(self@, i + 1);
            }
            match &self.segments[i] {
                Segment::Text(text) => {
                    out.append(text.as_str());
                },
                Segment::Marker(_, _) => {
                    proof {
                        assert(texts(parts@).take(used + 1).drop_last() =~= texts(parts@).take(
                            used as int,
                        ));
                    }
                    out.append(parts[used].as_str());
                    used = used + 1;
                },
            }
            i = i + 1;
        }
        proof {
            assert(self@.take(n as int) =~= self@);
            assert(texts(parts@).take(used as int) =~= texts(parts@));
        }
        Some(out)
    }

    /// Renders the template with `disps`.
    ///
    /// Succeeds exactly when there is one value for each placeholder, and
    /// then gives the literal text with each value written in its
    /// placeholder's place as [`Disp::fmt`] writes it; on any other number
    /// of values there is no output at all.
    pub fn try_fmt(&self, disps: &[Disp]) -> (r: Option<String>)
        ensures
            r is Some <==> disps@.len() == marker_count(self@),
            r matches Some(out) ==> is_rendering(out@, self@, views(disps@)),
    {
        if self.marker_count() != disps.len() {
            return None;
        }
        let n = self.segments.len();
        let mut parts: Vec<String> = Vec::new();
        let mut i: usize = 0;
        while i < n
            invariant
                n == self.segments.len(),
                i <= n,
                disps@.len() == marker_count(self@),
                parts@.len() == marker_count(self@.take(i as int)),
                parts@.len() == markers(self@.take(i as int)).len(),
                parts@.len() <= disps@.len(),
                forall|j: int|
                    0 <= j < parts@.len() ==> (#[trigger] views(disps@)[j]).is_written_as(
                        texts(parts@)[j],
                        markers(self@.take(i as int))[j].0,
                        markers(self@.take(i as int))[j].1,
                    ),
            decreases n - i,
        {
            proof {
                assert(self@.take(i + 1).drop_last() =~= self@.take(i as int));
                lemma_marker_count_take(self@, i + 1);
            }
            match &self.segments[i] {
                Segment::Text(_) => {},
                Segment::Marker(kind, force_color) => {
                    let part = disps[parts.len()].fmt(kind, force_color);
                    parts.push(part);
                },
            }
            i = i + 1;
        }
        proof {
            assert(self@.take(n as int) =~= self@);
            assert(parts_fit(texts(parts@), self@, views(disps@)));
        }
        self.assemble(parts.as_slice())
    }
}

/// Tells whether a template can be filled with `count` values.
pub fn fits(msg: &str, count: usize) -> (b: bool)
    ensures
        b == accepts(msg@, count as nat),
{
    match FmtStr::try_new(msg) {
        Some(template) => template.marker_count() == count,
        None => false,
    }
}

/// Fills the template `msg` with `disps`.
///
/// Gives the message where the template is well formed and has one
/// placeholder for each value, and nothing otherwise.
pub fn render(msg: &str, disps: &[Disp]) -> (r: Option<String>)
    ensures
        r is Some <==> accepts(msg@, disps@.len()),
        r matches Some(out) ==> is_message(out@, msg@, views(disps@)),
{
    match FmtStr::try_new(msg) {
        Some(template) => template.try_fmt(disps),
        None => None,
    }
}

/// Text without braces holds no placeholder.
pub proof fn lemma_brace_free_has_no_placeholders(text: Seq<char>)
    requires
        brace_free(text),
    ensures
        placeholders(text) == 0,
    decreases text.len(),
{
    if text.len() > 0 {
        let rest = text.drop_last();
        assert forall|i: int| 0 <= i < rest.len() implies #[trigger] rest[i] != '{' && rest[i]
            != '}' by {
            assert(rest[i] == text[i]);
        }
        lemma_brace_free_has_no_placeholders(rest);
        assert(text.last() == text[text.len() - 1]);
    }
}

/// The placeholders of two texts put together are those of the one and
/// those of the other.
pub proof fn lemma_placeholders_add(a: Seq<char>, b: Seq<char>)
    ensures
        placeholders(a + b) == placeholders(a) + placeholders(b),
    decreases b.len(),
{
    if b.len() == 0 {
        assert(a + b =~= a);
    } else {
        assert((a + b).drop_last() =~= a + b.drop_last());
        assert((a + b).last() == b.last());
        lemma_placeholders_add(a, b.drop_last());
    }
}

/// A well-formed template stays well formed, and gains one placeholder,
/// when a placeholder and text without braces are put behind it.
pub proof fn lemma_template_grows(a: Seq<char>, kind: DispType, text: Seq<char>)
    requires
        well_formed(a),
        brace_free(text),
    ensures
        well_formed(a + marker_text(kind) + text),
        placeholders(a + marker_text(kind) + text) == placeholders(a) + 1,
{
    let m = marker_text(kind);
    let s = a + m + text;
    assert(placeholders(m) == 1) by {
        reveal_with_fuel(placeholders, 5);
    }
    lemma_placeholders_add(a, m);
    lemma_placeholders_add(a + m, text);
    lemma_brace_free_has_no_placeholders(text);
    assert forall|i: int| 0 <= i < s.len() implies (#[trigger] s[i] == '{' ==> opens_marker(s, i))
        && (s[i] == '}' ==> closes_marker(s, i)) by {
        if i < a.len() {
            assert(s[i] == a[i]);
            if a[i] == '{' {
                assert(opens_marker(a, i));
                if i + 1 < a.len() && a[i + 1] == '}' {
                    assert(s[i + 1] == a[i + 1]);
                } else {
                    assert(s[i + 1] == a[i + 1]);
                    assert(s[i + 2] == a[i + 2]);
                    assert(s[i + 3] == a[i + 3]);
                }
            }
            if a[i] == '}' {
                assert(closes_marker(a, i));
                if i >= 1 && a[i - 1] == '{' {
                    assert(s[i - 1] == a[i - 1]);
                } else {
                    assert(s[i - 1] == a[i - 1]);
                    assert(s[i - 2] == a[i - 2]);
                    assert(s[i - 3] == a[i - 3]);
                }
            }
        } else if i < a.len() + m.len() {
            let at = a.len() as int;
            assert(s[i] == m[i - at]);
            assert(s[at] == m[0]);
            assert(s[at + 1] == m[1]);
            if kind == DispType::Debug {
                assert(s[at + 2] == m[2]);
                assert(s[at + 3] == m[3]);
            }
        } else {
            assert(s[i] == text[i - a.len() - m.len()]);
        }
    }
}

/// What a parsed template spells is well formed, and has as many opening
/// braces as the parsed template has placeholders.
pub proof fn lemma_parsed_is_well_formed(segments: Seq<SegmentView>)
    requires
        is_parsed(segments),
    ensures
        well_formed(template_of(segments)),
        placeholders(template_of(segments)) == marker_count(segments),
    decreases segments.len(),
{
    let n = segments.len() as int;
    let text = segments[n - 1]->Text_0;
    assert(segments[n - 1] is Text);
    assert(segments.last() == segments[n - 1]);
    if n == 1 {
        assert(segments.drop_last() =~= Seq::<SegmentView>::empty());
        assert(template_of(segments) =~= text) by {
            reveal_with_fuel(template_of, 2);
        }
        lemma_brace_free_has_no_placeholders(text);
        reveal_with_fuel(marker_count, 2);
    } else {
        let front = segments.take(n - 2);
        let kind = segments[n - 2]->Marker_0;
        assert(segments[n - 2] is Marker);
        assert(takes_turns(front)) by {
            assert forall|k: int| 0 <= k < front.len() implies match #[trigger] front[k] {
                SegmentView::Text(text) => k % 2 == 0 && brace_free(text),
                SegmentView::Marker(_, force_color) => k % 2 == 1 && force_color is None,
            } by {
                assert(front[k] == segments[k]);
            }
        }
        lemma_parsed_is_well_formed(front);
        assert(segments =~= front.push(segments[n - 2]).push(segments[n - 1]));
        lemma_template_push(front, segments[n - 2]);
        lemma_template_push(front.push(segments[n - 2]), segments[n - 1]);
        lemma_marker_count_push(front, segments[n - 2]);
        lemma_marker_count_push(front.push(segments[n - 2]), segments[n - 1]);
        lemma_template_grows(template_of(front), kind, text);
    }
}

/// A front part of a list in which text and placeholders take turns does
/// so too.
proof fn lemma_takes_turns_take(segments: Seq<SegmentView>, n: int)
    requires
        takes_turns(segments),
        0 <= n <= segments.len(),
    ensures
        takes_turns(segments.take(n)),
{
    let front = segments.take(n);
    assert forall|k: int| 0 <= k < front.len() implies match #[trigger] front[k] {
        SegmentView::Text(text) => k % 2 == 0 && brace_free(text),
        SegmentView::Marker(_, force_color) => k % 2 == 1 && force_color is None,
    } by {
        assert(front[k] == segments[k]);
    }
}

/// A list that ends with a placeholder spells a template that ends with
/// that placeholder's text.
proof fn lemma_template_ends_with_marker(segments: Seq<SegmentView>)
    requires
        segments.len() > 0,
        segments.len() % 2 == 0,
        takes_turns(segments),
    ensures
        segments.last() is Marker,
        segments.last()->Marker_1 is None,
        template_of(segments) == template_of(segments.drop_last()) + marker_text(
            segments.last()->Marker_0,
        ),
        template_of(segments).len() >= 2,
        template_of(segments).last() == '}',
        template_of(segments)[template_of(segments).len() - 2] == '{' <==> segments.last()->Marker_0
            == DispType::Regular,
{
    let n = segments.len() as int;
    assert(segments.last() == segments[n - 1]);
    assert(segments[n - 1] is Marker);
}

/// A template has one parse only: two parsed templates that spell the same
/// text are the same.
pub proof fn lemma_parse_is_unique(a: Seq<SegmentView>, b: Seq<SegmentView>)
    requires
        is_parsed(a),
        is_parsed(b),
        template_of(a) == template_of(b),
    ensures
        a == b,
    decreases a.len(),
{
    let s = template_of(a);
    let na = a.len() as int;
    let nb = b.len() as int;
    let la = a.drop_last();
    let lb = b.drop_last();
    assert(a.last() == a[na - 1]);
    assert(b.last() == b[nb - 1]);
    assert(a[na - 1] is Text);
    assert(b[nb - 1] is Text);
    let ta = a.last()->Text_0;
    let tb = b.last()->Text_0;
    let ua = template_of(la);
    let ub = template_of(lb);
    assert(s == ua + ta);
    assert(s == ub + tb);
    assert(brace_free(ta));
    assert(brace_free(tb));
    lemma_takes_turns_take(a, na - 1);
    lemma_takes_turns_take(b, nb - 1);
    assert(la =~= a.take(na - 1));
    assert(lb =~= b.take(nb - 1));
    if la.len() > 0 {
        lemma_template_ends_with_marker(la);
    }
    if lb.len() > 0 {
        lemma_template_ends_with_marker(lb);
    }
    if ta.len() < tb.len() {
        if la.len() == 0 {
            assert(false);
        } else {
            let p = ua.len() - 1;
            assert(s[p] == ua[p]);
            assert(s[p] == tb[p - ub.len()]);
            assert(false);
        }
    }
    if tb.len() < ta.len() {
        if lb.len() == 0 {
            assert(false);
        } else {
            let p = ub.len() - 1;
            assert(s[p] == ub[p]);
            assert(s[p] == ta[p - ua.len()]);
            assert(false);
        }
    }
    assert(ua =~= s.take(ua.len() as int));
    assert(ub =~= s.take(ub.len() as int));
    assert(ta =~= s.skip(ua.len() as int));
    assert(tb =~= s.skip(ub.len() as int));
    if la.len() == 0 {
        assert(lb.len() == 0);
        assert(a =~= b);
    } else {
        assert(lb.len() > 0);
        let ka = la.last()->Marker_0;
        let kb = lb.last()->Marker_0;
        let m = ua.len() as int;
        assert(ka == kb);
        let a2 = la.drop_last();
        let b2 = lb.drop_last();
        let va = template_of(a2);
        let vb = template_of(b2);
        assert(va =~= ua.take(m - marker_text(ka).len()));
        assert(vb =~= ub.take(m - marker_text(kb).len()));
        assert(a2 =~= a.take(na - 2));
        assert(b2 =~= b.take(nb - 2));
        lemma_takes_turns_take(a, na - 2);
        lemma_takes_turns_take(b, nb - 2);
        lemma_parse_is_unique(a2, b2);
        assert(la.last() == a[na - 2]);
        assert(lb.last() == b[nb - 2]);
        assert(a[na - 2] == b[nb - 2]);
        assert forall|k: int| 0 <= k < na implies a[k] == b[k] by {
            if k < na - 2 {
                assert(a[k] == a2[k]);
                assert(b[k] == b2[k]);
            }
        }
        assert(a =~= b);
    }
}

} // verus!
