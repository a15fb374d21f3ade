//! Output model of the renderer: styled text spans grouped into lines, and
//! display-column width measured by the `unicode-width` crate behind one
//! trusted wrapper.
use vstd::prelude::*;

use unicode_width::UnicodeWidthStr;

verus! {

/// Foreground category of a span, as the terminal view colours it.
#[derive(Debug, Clone, Copy, PartialEq, Eq, Structural)]
pub enum Fg {
    Default,
    /// List markers and code.
    Gray,
    Link,
    Heading,
}

/// Resolved style of one span: a foreground category plus stackable flags.
#[derive(Debug, Clone, Copy, PartialEq, Eq, Structural)]
pub struct TextStyle {
    pub fg: Fg,
    pub bold: bool,
    pub italic: bool,
}

impl TextStyle {
    pub open spec fn spec_plain() -> TextStyle {
        TextStyle { fg: Fg::Default, bold: false, italic: false }
    }

    pub fn plain() -> (r: TextStyle)
        ensures
            r == TextStyle::spec_plain(),
    {
        TextStyle { fg: Fg::Default, bold: false, italic: false }
    }

    pub open spec fn spec_gray() -> TextStyle {
        TextStyle { fg: Fg::Gray, bold: false, italic: false }
    }

    pub fn gray() -> (r: TextStyle)
        ensures
            r == TextStyle::spec_gray(),
    {
        TextStyle { fg: Fg::Gray, bold: false, italic: false }
    }
}

/// What a span stands for: document text, markup the renderer added, a
/// joining space, or leading indentation.
#[derive(Debug, Clone, Copy, PartialEq, Eq, Structural)]
pub enum SpanKind {
    Content,
    Markup,
    Join,
    Indent,
}

/// One styled fragment of an output line.
#[derive(Debug, Clone)]
pub struct Span {
    pub text: Vec<char>,
    pub style: TextStyle,
    pub kind: SpanKind,
}

/// Mathematical value of a span.
pub ghost struct SpanV {
    pub text: Seq<char>,
    pub style: TextStyle,
    pub kind: SpanKind,
}

impl View for Span {
    type V = SpanV;

    open spec fn view(&self) -> SpanV {
        SpanV { text: self.text@, style: self.style, kind: self.kind }
    }
}

/// One output line: an ordered sequence of spans.
#[derive(Debug, Clone)]
pub struct Line {
    pub spans: Vec<Span>,
}

impl View for Line {
    type V = Seq<SpanV>;

    open spec fn view(&self) -> Seq<SpanV> {
        self.spans@.map_values(|s: Span| s@)
    }
}

impl Line {
    pub fn empty() -> (r: Line)
        ensures
            r@ =~= Seq::<SpanV>::empty(),
    {
        Line { spans: Vec::new() }
    }
}

/// The display width, in terminal columns, that `unicode-width` assigns to a
/// sequence of characters. The crate's rules fill pages; only the facts the
/// wrapper states below are relied on.
pub uninterp spec fn width_of(s: Seq<char>) -> nat;

pub open spec fn is_ascii_printable(c: char) -> bool {
    ' ' <= c && c <= '~'
}

/// Display-column width of a text.
///
/// Relies on `unicode_width::UnicodeWidthStr::width`: the width is a pure
/// function of the character sequence, and every string of printable ASCII
/// characters (each of width one, with no ligature rules applying) measures
/// its length.
#[verifier::external_body]
pub fn text_width(t: &Vec<char>) -> (r: usize)
    ensures
        r == width_of(t@),
        (forall|i: int| 0 <= i < t@.len() ==> is_ascii_printable(t@[i])) ==> r == t@.len(),
{
    let s: String = t.iter().collect();
    s.as_str().width()
}

/// Column width of a whole line: the capped sum of its spans' widths.
pub open spec fn line_width(l: Seq<SpanV>) -> nat
    decreases l.len(),
{
    if l.len() == 0 {
        0
    } else {
        cap_add(line_width(l.drop_last()), width_of(l.last().text))
    }
}

/// Width arithmetic saturates at the machine limit rather than overflowing.
pub open spec fn cap_add(a: nat, b: nat) -> nat {
    if a + b > usize::MAX {
        usize::MAX as nat
    } else {
        a + b
    }
}

/// Saturating width addition, matching `cap_add`.
pub fn width_add(a: usize, b: usize) -> (r: usize)
    ensures
        r == cap_add(a as nat, b as nat),
{
    a.saturating_add(b)
}

} // verus!
