//! The renderer: a depth-first walk of the document tree that accumulates
//! wrapped, styled output lines. Every emitting step is mirrored by a spec
//! function, and each executable function is proved to compute exactly what
//! its spec function says, so the whole render is a mathematical function of
//! the tree and the wrap width.
use vstd::prelude::*;

use crate::context::Context;
use crate::context::ExclusiveModifier;
use crate::context::ExclusiveStyle;
use crate::context::RenderStatus;
use crate::context::StackableModifier;
use crate::context::StackableStyle;
use crate::dom::spec_find_href;
use crate::dom::spec_first_char;
use crate::dom::find_href;
use crate::dom::first_char;
use crate::dom::Node;
use crate::dom::Tag;
use crate::line::cap_add;
use crate::line::line_width;
use crate::line::width_add;
use crate::line::width_of;
use crate::line::text_width;
use crate::line::Line;
use crate::line::Span;
use crate::line::SpanKind;
use crate::line::SpanV;
use crate::line::TextStyle;
use crate::text::tokenize;
use crate::text::tokens;
use crate::text::u16_dec_chars;
use crate::text::dec_chars;
use crate::text::expand_raw;
use crate::text::raw_expand;
use crate::text::split_newlines;
use crate::text::nl_segments;

verus! {

/// Columns of indentation per list-nesting level.
pub const TAB_SIZE: usize = 2;

/// Mathematical value of the renderer state: the lines so far, the display
/// width already used on the last line, and the wrap column.
pub ghost struct RState {
    pub lines: Seq<Seq<SpanV>>,
    pub last: nat,
    pub max: nat,
}

/// A run of `n` spaces.
pub open spec fn blank(n: nat) -> Seq<char> {
    Seq::new(n, |i: int| ' ')
}

/// Indentation, in columns, of a fresh line under `ctx`: the nesting depth,
/// one deeper inside a list item, two columns per level.
pub open spec fn indent_cols(ctx: Context) -> nat {
    (if ctx.inside_list {
        ctx.indent as nat + 1
    } else {
        ctx.indent as nat
    }) * TAB_SIZE as nat
}

impl RState {
    /// The state every render starts from: exactly one empty line.
    pub open spec fn init(max: nat) -> RState {
        RState { lines: seq![Seq::<SpanV>::empty()], last: 0, max }
    }

    /// The bookkeeping invariant: at least one line, and the width counter
    /// equal to the true (capped) display width of the last line.
    pub open spec fn wf(self) -> bool {
        &&& self.lines.len() >= 1
        &&& self.last == line_width(self.lines.last())
    }

    /// Append one span to the last line.
    pub open spec fn st_push_span(self, sp: SpanV) -> RState {
        RState {
            lines: self.lines.update(self.lines.len() - 1, self.lines.last().push(sp)),
            last: cap_add(self.last, width_of(sp.text)),
            max: self.max,
        }
    }

    /// Start a fresh line, pre-filled with its indentation.
    pub open spec fn st_new_line(self, ctx: Context) -> RState {
        let n = indent_cols(ctx);
        if n > 0 {
            let sp = SpanV { text: blank(n), style: TextStyle::spec_plain(), kind: SpanKind::Indent };
            RState {
                lines: self.lines.push(seq![sp]),
                last: cap_add(0, width_of(blank(n))),
                max: self.max,
            }
        } else {
            RState { lines: self.lines.push(Seq::empty()), last: 0, max: self.max }
        }
    }
}

pub proof fn lemma_push_span_wf(s: RState, sp: SpanV)
    requires
        s.wf(),
    ensures
        s.st_push_span(sp).wf(),
{
    let l = s.lines.last();
    assert(l.push(sp).drop_last() =~= l);
    assert(s.st_push_span(sp).lines.last() == l.push(sp));
}

pub proof fn lemma_new_line_wf(s: RState, ctx: Context)
    requires
        s.wf(),
    ensures
        s.st_new_line(ctx).wf(),
{
    let n = indent_cols(ctx);
    if n > 0 {
        let sp = SpanV { text: blank(n), style: TextStyle::spec_plain(), kind: SpanKind::Indent };
        assert(seq![sp].drop_last() =~= Seq::<SpanV>::empty());
        assert(seq![sp].last() == sp);
        assert(line_width(seq![sp]) == cap_add(line_width(Seq::<SpanV>::empty()), width_of(
            sp.text,
        )));
        assert(s.st_new_line(ctx).lines.last() == seq![sp]);
    } else {
        assert(s.st_new_line(ctx).lines.last() =~= Seq::<SpanV>::empty());
    }
}

/// What an exclusive modifier emits before content: nothing, one space
/// (suppressed before closing punctuation), one to three fresh lines, or a
/// fresh line with a list marker. List markers are indented one level less
/// than the item's continuation lines.
pub open spec fn spec_render_context(s: RState, ctx: Context, first: Option<char>) -> RState {
    match ctx.exclusive_modifier {
        ExclusiveModifier::Inline => s,
        ExclusiveModifier::RequiresSpace => {
            if match first {
                Some(c) => c != '.' && c != ',' && c != ';',
                None => true,
            } {
                s.st_push_span(
                    SpanV { text: seq![' '], style: TextStyle::spec_plain(), kind: SpanKind::Join },
                )
            } else {
                s
            }
        },
        ExclusiveModifier::NewLine => s.st_new_line(ctx),
        ExclusiveModifier::NewParagraph => s.st_new_line(ctx).st_new_line(ctx),
        ExclusiveModifier::NewHeading => s.st_new_line(ctx).st_new_line(ctx).st_new_line(ctx),
        ExclusiveModifier::UnorderedList => {
            let c = ctx.spec_remove_stackable_modifier(StackableModifier::InsideList);
            s.st_new_line(c).st_push_span(
                SpanV {
                    text: seq!['-', ' '],
                    style: TextStyle::spec_gray(),
                    kind: SpanKind::Markup,
                },
            )
        },
        ExclusiveModifier::OrderedList(idx) => {
            let c = ctx.spec_remove_stackable_modifier(StackableModifier::InsideList);
            s.st_new_line(c).st_push_span(
                SpanV {
                    text: dec_chars(idx as nat).push('.').push(' '),
                    style: TextStyle::spec_gray(),
                    kind: SpanKind::Markup,
                },
            )
        },
    }
}

/// Word-wrapped emission of `words` from index `i` on: before a word that
/// would overflow the wrap column (counting one joining space) a fresh line
/// is started; a joining space is placed between words that share a line;
/// a word is never split.
pub open spec fn spec_emit_words(
    s: RState,
    ctx: Context,
    words: Seq<Seq<char>>,
    i: int,
    line_start: bool,
    kind: SpanKind,
) -> RState
    decreases words.len() - i,
{
    if i < 0 || i >= words.len() {
        s
    } else {
        let w = width_of(words[i]);
        let style = ctx.spec_style();
        let wrapped = s.max < cap_add(cap_add(s.last, w), 1);
        let s1 = if wrapped {
            s.st_new_line(ctx)
        } else {
            s
        };
        let ls1 = if wrapped {
            true
        } else {
            line_start
        };
        let s2 = if !ls1 && s1.last != 0 {
            s1.st_push_span(SpanV { text: seq![' '], style, kind: SpanKind::Join })
        } else {
            s1
        };
        let s3 = s2.st_push_span(SpanV { text: words[i], style, kind });
        spec_emit_words(s3, ctx, words, i + 1, false, kind)
    }
}

/// Verbatim emission of raw segments: a fresh line between consecutive
/// segments, each non-empty segment appended as one span, no wrapping.
pub open spec fn spec_emit_raw(
    s: RState,
    ctx: Context,
    parts: Seq<Seq<char>>,
    i: int,
    kind: SpanKind,
) -> RState
    decreases parts.len() - i,
{
    if i < 0 || i >= parts.len() {
        s
    } else {
        let s1 = if i > 0 {
            s.st_new_line(ctx)
        } else {
            s
        };
        let s2 = if parts[i].len() > 0 {
            s1.st_push_span(SpanV { text: parts[i], style: ctx.spec_style(), kind })
        } else {
            s1
        };
        spec_emit_raw(s2, ctx, parts, i + 1, kind)
    }
}

/// A raw text node: carriage returns dropped, tabs widened to four spaces,
/// then emitted verbatim, one output line per newline-separated segment.
pub open spec fn spec_render_raw(s: RState, ctx: Context, text: Seq<char>, kind: SpanKind) -> (
    RState,
    RenderStatus,
) {
    (spec_emit_raw(s, ctx, nl_segments(raw_expand(text)), 0, kind), RenderStatus::Rendered)
}

/// A text node. In raw mode it is emitted verbatim. Otherwise it is split
/// on whitespace runs; with no word left the node renders nothing, else the
/// pending separator is emitted (with the first character as lookahead) and
/// the words are word-wrapped.
pub open spec fn spec_render_text(s: RState, ctx: Context, text: Seq<char>, kind: SpanKind) -> (
    RState,
    RenderStatus,
) {
    if ctx.inside_raw_block {
        spec_render_raw(s, ctx, text, kind)
    } else {
        let toks = tokens(text);
        if toks.len() == 0 {
            (s, RenderStatus::NotRendered)
        } else {
            let s1 = spec_render_context(s, ctx, Some(toks[0][0]));
            (spec_emit_words(s1, ctx, toks, 0, true, kind), RenderStatus::Rendered)
        }
    }
}

/// The next ordinal of an ordered list, clamped at the type's maximum.
pub open spec fn inc_ordinal(count: u16) -> u16 {
    if count == u16::MAX {
        count
    } else {
        (count + 1) as u16
    }
}

/// The walker, one node at a time. `in_pre` says whether the node's parent
/// is a `pre` element, which turns a `code` child into a fenced raw block.
pub open spec fn spec_render_node(s: RState, ctx: Context, n: Node, in_pre: bool) -> (
    RState,
    RenderStatus,
)
    decreases n, 1int,
{
    match n {
        Node::Document { children } => spec_render_children(
            s,
            ctx,
            children@,
            0,
            RenderStatus::NotRendered,
        ),
        Node::Fragment { children } => spec_render_children(
            s,
            ctx,
            children@,
            0,
            RenderStatus::NotRendered,
        ),
        Node::Text { text } => spec_render_text(s, ctx, text@, SpanKind::Content),
        Node::Element { tag, attrs, children } => {
            if tag.spec_is_ignored() {
                (s, RenderStatus::NotRendered)
            } else if tag == Tag::Span || tag == Tag::Button {
                let s1 = spec_render_context(s, ctx, spec_first_char(n));
                let c = ctx.spec_set_exclusive_modifier(ExclusiveModifier::Inline);
                let s2 = spec_render_children(s1, c, children@, 0, RenderStatus::NotRendered).0;
                (s2, RenderStatus::RenderedRequiresSpace)
            } else if tag == Tag::A {
                let c1 = ctx.spec_merge_exclusive_style(ExclusiveStyle::Link);
                let s1 = spec_render_text(
                    s,
                    c1.spec_merge_exclusive_modifier(ExclusiveModifier::RequiresSpace),
                    seq!['['],
                    SpanKind::Markup,
                ).0;
                let c2 = c1.spec_set_exclusive_modifier(ExclusiveModifier::Inline);
                let s2 = spec_render_children(s1, c2, children@, 0, RenderStatus::NotRendered).0;
                let s3 = spec_render_text(s2, c2, seq![']'], SpanKind::Markup).0;
                let s4 = spec_render_text(s3, c2, seq!['('], SpanKind::Markup).0;
                let href = match spec_find_href(attrs@) {
                    Option::Some(v) => v,
                    Option::None => Seq::empty(),
                };
                let s5 = spec_render_text(s4, c2, href, SpanKind::Markup).0;
                let s6 = spec_render_text(s5, c2, seq![')'], SpanKind::Markup).0;
                (s6, RenderStatus::RenderedRequiresSpace)
            } else if tag == Tag::Strong {
                let c = ctx.spec_add_stackable_style(StackableStyle::Bold);
                let s1 = spec_render_text(
                    s,
                    c.spec_merge_exclusive_modifier(ExclusiveModifier::RequiresSpace),
                    seq!['*', '*'],
                    SpanKind::Markup,
                ).0;
                let c2 = c.spec_set_exclusive_modifier(ExclusiveModifier::Inline);
                let s2 = spec_render_children(s1, c2, children@, 0, RenderStatus::NotRendered).0;
                let s3 = spec_render_text(s2, c2, seq!['*', '*'], SpanKind::Markup).0;
                (s3, RenderStatus::RenderedRequiresSpace)
            } else if tag == Tag::Em {
                let c = ctx.spec_add_stackable_style(StackableStyle::Italic);
                let s1 = spec_render_text(
                    s,
                    c.spec_merge_exclusive_modifier(ExclusiveModifier::RequiresSpace),
                    seq!['_'],
                    SpanKind::Markup,
                ).0;
                let c2 = c.spec_set_exclusive_modifier(ExclusiveModifier::Inline);
                let s2 = spec_render_children(s1, c2, children@, 0, RenderStatus::NotRendered).0;
                let s3 = spec_render_text(s2, c2, seq!['_'], SpanKind::Markup).0;
                (s3, RenderStatus::RenderedRequiresSpace)
            } else if tag == Tag::Ul {
                let c = ctx.spec_merge_exclusive_modifier(
                    ExclusiveModifier::UnorderedList,
                ).spec_add_stackable_modifier(StackableModifier::InsideList);
                spec_render_flat_list(s, c, children@, 0, RenderStatus::NotRendered)
            } else if tag == Tag::Ol {
                spec_render_ol(s, ctx, children@, 0, 1u16, RenderStatus::NotRendered)
            } else if tag.spec_heading_level() > 0 {
                spec_render_header(s, ctx, tag.spec_heading_level() as int, children@)
            } else if tag == Tag::Code && !in_pre {
                let c = ctx.spec_merge_exclusive_style(ExclusiveStyle::Code);
                let s1 = spec_render_text(
                    s,
                    c.spec_merge_exclusive_modifier(ExclusiveModifier::RequiresSpace),
                    seq!['`'],
                    SpanKind::Markup,
                ).0;
                let c2 = c.spec_set_exclusive_modifier(ExclusiveModifier::Inline);
                let s2 = spec_render_children(s1, c2, children@, 0, RenderStatus::NotRendered).0;
                let s3 = spec_render_text(s2, c2, seq!['`'], SpanKind::Markup).0;
                (s3, RenderStatus::RenderedRequiresSpace)
            } else if tag == Tag::Code {
                let c = ctx.spec_merge_exclusive_style(ExclusiveStyle::Code);
                let s1 = spec_render_text(
                    s,
                    c.spec_merge_exclusive_modifier(ExclusiveModifier::NewLine),
                    seq!['`', '`', '`'],
                    SpanKind::Markup,
                ).0;
                let c2 = c.spec_set_exclusive_modifier(
                    ExclusiveModifier::Inline,
                ).spec_add_stackable_modifier(StackableModifier::InsideRawBlock);
                let s2 = s1.st_new_line(c2);
                let s3 = spec_render_raw_children(s2, c2, children@, 0);
                let s4 = spec_render_text(
                    s3,
                    c.spec_set_exclusive_modifier(ExclusiveModifier::NewLine),
                    seq!['`', '`', '`'],
                    SpanKind::Markup,
                ).0;
                let s5 = if c.exclusive_modifier == ExclusiveModifier::Inline
                    || c.exclusive_modifier == ExclusiveModifier::RequiresSpace {
                    s4.st_new_line(c)
                } else {
                    s4
                };
                (s5, RenderStatus::Rendered)
            } else {
                spec_render_block(s, ctx, children@, 0, RenderStatus::NotRendered, tag == Tag::Pre)
            }
        },
        Node::Comment => (s, RenderStatus::NotRendered),
        Node::Doctype => (s, RenderStatus::NotRendered),
        Node::ProcessingInstruction => (s, RenderStatus::NotRendered),
    }
}

/// Children rendered one after the other under one context; the status kept
/// is the most recent one that rendered.
pub open spec fn spec_render_children(
    s: RState,
    ctx: Context,
    cs: Seq<Node>,
    i: int,
    status: RenderStatus,
) -> (RState, RenderStatus)
    decreases cs, cs.len() - i,
{
    if i < 0 || i >= cs.len() {
        (s, status)
    } else {
        let r = spec_render_node(s, ctx, cs[i], false);
        spec_render_children(
            r.0,
            ctx,
            cs,
            i + 1,
            if r.1.spec_is_rendered() {
                r.1
            } else {
                status
            },
        )
    }
}

/// Unordered-list items: each child under the same list context; the list
/// reports `Rendered` as soon as any child rendered.
pub open spec fn spec_render_flat_list(
    s: RState,
    ctx: Context,
    cs: Seq<Node>,
    i: int,
    status: RenderStatus,
) -> (RState, RenderStatus)
    decreases cs, cs.len() - i,
{
    if i < 0 || i >= cs.len() {
        (s, status)
    } else {
        let r = spec_render_node(s, ctx, cs[i], false);
        spec_render_flat_list(
            r.0,
            ctx,
            cs,
            i + 1,
            if r.1.spec_is_rendered() {
                RenderStatus::Rendered
            } else {
                status
            },
        )
    }
}

/// Ordered-list items: each child under a fresh `OrderedList(count)` context
/// derived from the list's own; only a child that actually rendered consumes
/// an ordinal.
pub open spec fn spec_render_ol(
    s: RState,
    ctx: Context,
    cs: Seq<Node>,
    i: int,
    count: u16,
    status: RenderStatus,
) -> (RState, RenderStatus)
    decreases cs, cs.len() - i,
{
    if i < 0 || i >= cs.len() {
        (s, status)
    } else {
        let c = ctx.spec_merge_exclusive_modifier(
            ExclusiveModifier::OrderedList(count),
        ).spec_add_stackable_modifier(StackableModifier::InsideList);
        let r = spec_render_node(s, c, cs[i], false);
        if r.1.spec_is_rendered() {
            spec_render_ol(r.0, ctx, cs, i + 1, inc_ordinal(count), RenderStatus::Rendered)
        } else {
            spec_render_ol(r.0, ctx, cs, i + 1, count, status)
        }
    }
}

/// Block flow: the context handed to each child is chosen by what the
/// previous children produced — a paragraph break before the first content,
/// plain inline joining after content, a separating space when asked for.
pub open spec fn spec_render_block(
    s: RState,
    ctx: Context,
    cs: Seq<Node>,
    i: int,
    status: RenderStatus,
    in_pre: bool,
) -> (RState, RenderStatus)
    decreases cs, cs.len() - i,
{
    if i < 0 || i >= cs.len() {
        (
            s,
            if status.spec_is_rendered() {
                RenderStatus::Rendered
            } else {
                RenderStatus::NotRendered
            },
        )
    } else {
        let c = match status {
            RenderStatus::NotRendered => ctx.spec_merge_exclusive_modifier(
                ExclusiveModifier::NewParagraph,
            ),
            RenderStatus::Rendered => ctx.spec_set_exclusive_modifier(ExclusiveModifier::Inline),
            RenderStatus::RenderedRequiresSpace => ctx.spec_set_exclusive_modifier(
                ExclusiveModifier::RequiresSpace,
            ),
        };
        let r = spec_render_node(s, c, cs[i], in_pre);
        spec_render_block(
            r.0,
            ctx,
            cs,
            i + 1,
            if r.1.spec_is_rendered() {
                r.1
            } else {
                status
            },
            in_pre,
        )
    }
}

/// The children of a fenced code block, each preceded by nothing and
/// rendered verbatim under the raw context; statuses are not consulted.
pub open spec fn spec_render_raw_children(s: RState, ctx: Context, cs: Seq<Node>, i: int) -> RState
    decreases cs, cs.len() - i,
{
    if i < 0 || i >= cs.len() {
        s
    } else {
        spec_render_raw_children(spec_render_node(s, ctx, cs[i], false).0, ctx, cs, i + 1)
    }
}

/// `k` hash marks, one `#` at a time, inline.
pub open spec fn spec_render_hashes(s: RState, ctx: Context, k: int) -> RState
    decreases k,
{
    if k <= 0 {
        s
    } else {
        spec_render_hashes(
            spec_render_text(
                    s,
                ctx.spec_set_exclusive_modifier(ExclusiveModifier::Inline),
                    seq!['#'],
                    SpanKind::Markup,
                ).0,
            ctx,
            k - 1,
        )
    }
}

/// A heading: the wide heading separator, `level` hash marks with no
/// interior spacing, then the children under heading style.
pub open spec fn spec_render_header(s: RState, ctx: Context, level: int, cs: Seq<Node>) -> (
    RState,
    RenderStatus,
)
    decreases cs, cs.len() + 1,
{
    let s1 = spec_render_context(
        s,
        ctx.spec_merge_exclusive_modifier(ExclusiveModifier::NewHeading),
        Some('#'),
    );
    let c = ctx.spec_set_exclusive_style(ExclusiveStyle::Heading);
    let s2 = spec_render_hashes(s1, c, level);
    let s3 = spec_render_children(
        s2,
        c.spec_set_exclusive_modifier(ExclusiveModifier::RequiresSpace),
        cs,
        0,
        RenderStatus::NotRendered,
    ).0;
    (s3, RenderStatus::Rendered)
}

/// The whole render of a document at a wrap width.
pub open spec fn spec_render(n: Node, max: nat) -> Seq<Seq<SpanV>> {
    spec_render_node(RState::init(max), Context::spec_initial(), n, false).0.lines
}

/// The accumulating renderer state of one render call.
#[derive(Debug)]
pub struct Renderer {
    pub lines: Vec<Line>,
    pub last_line_width: usize,
    pub max_width: usize,
}

impl Renderer {
    /// Mathematical value of the state.
    pub open spec fn rs(&self) -> RState {
        RState {
            lines: self.lines@.map_values(|l: Line| l@),
            last: self.last_line_width as nat,
            max: self.max_width as nat,
        }
    }

    pub fn new(max_width: usize) -> (r: Renderer)
        ensures
            r.rs() == RState::init(max_width as nat),
            r.rs().wf(),
    {
        let mut lines: Vec<Line> = Vec::new();
        lines.push(Line::empty());
        let r = Renderer { lines, last_line_width: 0, max_width };
        proof {
            assert(r.rs().lines =~~= RState::init(max_width as nat).lines);
        }
        r
    }

    /// Append one span to the current line, keeping the width counter in
    /// step with the line's true display width.
    fn push_span(&mut self, text: Vec<char>, style: TextStyle, kind: SpanKind)
        requires
            old(self).rs().wf(),
        ensures
            final(self).rs() == old(self).rs().st_push_span(
                SpanV { text: text@, style, kind },
            ),
            final(self).rs().wf(),
    {
        let ghost s0 = self.rs();
        let ghost spv = SpanV { text: text@, style, kind };
        let w = text_width(&text);
        let mut line = self.lines.pop().unwrap();
        line.spans.push(Span { text, style, kind });
        self.lines.push(line);
        self.last_line_width = width_add(self.last_line_width, w);
        proof {
            assert(self.rs().lines =~~= s0.st_push_span(spv).lines);
            lemma_push_span_wf(s0, spv);
        }
    }

    /// Start a fresh output line, pre-filled with the indentation `ctx`
    /// calls for, and reset the width counter to it.
    fn render_new_line(&mut self, ctx: Context)
        requires
            old(self).rs().wf(),
        ensures
            final(self).rs() == old(self).rs().st_new_line(ctx),
            final(self).rs().wf(),
    {
        let ghost s0 = self.rs();
        let lvl: usize = if ctx.has_stackable_modifier(StackableModifier::InsideList) {
            ctx.indent as usize + 1
        } else {
            ctx.indent as usize
        };
        let ind: usize = lvl * TAB_SIZE;
        self.lines.push(Line::empty());
        if ind > 0 {
            let spaces = make_spaces(ind);
            let w = text_width(&spaces);
            let mut line = self.lines.pop().unwrap();
            line.spans.push(Span { text: spaces, style: TextStyle::plain(), kind: SpanKind::Indent });
            self.lines.push(line);
            self.last_line_width = w;
        } else {
            self.last_line_width = 0;
        }
        proof {
            assert(self.rs().lines =~~= s0.st_new_line(ctx).lines);
            lemma_new_line_wf(s0, ctx);
        }
    }

    /// Emit the separator the context's exclusive modifier calls for, given
    /// the first upcoming character as lookahead.
    fn render_context(&mut self, ctx: Context, first: Option<char>)
        requires
            old(self).rs().wf(),
        ensures
            final(self).rs() == spec_render_context(old(self).rs(), ctx, first),
            final(self).rs().wf(),
    {
        match ctx.exclusive_modifier {
            ExclusiveModifier::Inline => {},
            ExclusiveModifier::RequiresSpace => {
                let emit = match first {
                    Some(c) => c != '.' && c != ',' && c != ';',
                    None => true,
                };
                if emit {
                    let mut sp: Vec<char> = Vec::new();
                    sp.push(' ');
                    proof {
                        assert(sp@ =~= seq![' ']);
                    }
                    self.push_span(sp, TextStyle::plain(), SpanKind::Join);
                }
            },
            ExclusiveModifier::NewLine => {
                self.render_new_line(ctx);
            },
            ExclusiveModifier::NewParagraph => {
                self.render_new_line(ctx);
                self.render_new_line(ctx);
            },
            ExclusiveModifier::NewHeading => {
                self.render_new_line(ctx);
                self.render_new_line(ctx);
                self.render_new_line(ctx);
            },
            ExclusiveModifier::UnorderedList => {
                // The marker line itself is not given the extra list level;
                // only continuation lines are.
                self.render_new_line(ctx.remove_stackable_modifier(StackableModifier::InsideList));
                let mut m: Vec<char> = Vec::new();
                m.push('-');
                m.push(' ');
                proof {
                    assert(m@ =~= seq!['-', ' ']);
                }
                self.push_span(m, TextStyle::gray(), SpanKind::Markup);
            },
            ExclusiveModifier::OrderedList(idx) => {
                self.render_new_line(ctx.remove_stackable_modifier(StackableModifier::InsideList));
                let mut m = u16_dec_chars(idx);
                m.push('.');
                m.push(' ');
                self.push_span(m, TextStyle::gray(), SpanKind::Markup);
            },
        }
    }

    /// Emit one text node under `ctx`: raw mode verbatim, normal mode
    /// trimmed, separator-prefixed and word-wrapped.
    fn render_text(&mut self, ctx: Context, text: &Vec<char>, kind: SpanKind) -> (st: RenderStatus)
        requires
            old(self).rs().wf(),
        ensures
            final(self).rs() == spec_render_text(old(self).rs(), ctx, text@, kind).0,
            st == spec_render_text(old(self).rs(), ctx, text@, kind).1,
            final(self).rs().wf(),
    {
        if ctx.has_stackable_modifier(StackableModifier::InsideRawBlock) {
            return self.render_raw_text(ctx, text, kind);
        }
        let toks = tokenize(text);
        let ghost tv = toks@.map_values(|t: Vec<char>| t@);
        if toks.len() == 0 {
            return RenderStatus::NotRendered;
        }
        proof {
            crate::text::lemma_tokens_all_nonempty(text@);
            assert(tv[0] == toks@[0]@);
        }
        let first = toks[0][0];
        self.render_context(ctx, Some(first));
        let ghost s1 = self.rs();
        let style = ctx.style();
        let mut line_start = true;
        let mut i: usize = 0;
        while i < toks.len()
            invariant
                i <= toks.len(),
                self.rs().wf(),
                self.rs().max == s1.max,
                spec_emit_words(self.rs(), ctx, tv, i as int, line_start, kind)
                    == spec_emit_words(s1, ctx, tv, 0, true, kind),
            decreases toks.len() - i,
        {
            let ghost si = self.rs();
            let w = text_width(&toks[i]);
            if self.max_width < width_add(width_add(self.last_line_width, w), 1) {
                self.render_new_line(ctx);
                line_start = true;
            }
            if !line_start && self.last_line_width != 0 {
                let mut sp: Vec<char> = Vec::new();
                sp.push(' ');
                proof {
                    assert(sp@ =~= seq![' ']);
                }
                self.push_span(sp, style, SpanKind::Join);
            }
            let word = copy_chars(&toks[i]);
            self.push_span(word, style, kind);
            line_start = false;
            i = i + 1;
        }
        RenderStatus::Rendered
    }

    /// Emit one text node verbatim (raw mode).
    fn render_raw_text(&mut self, ctx: Context, text: &Vec<char>, kind: SpanKind) -> (st:
        RenderStatus)
        requires
            old(self).rs().wf(),
        ensures
            final(self).rs() == spec_render_raw(old(self).rs(), ctx, text@, kind).0,
            st == spec_render_raw(old(self).rs(), ctx, text@, kind).1,
            final(self).rs().wf(),
    {
        let expanded = expand_raw(text);
        let parts = split_newlines(&expanded);
        let ghost pv = parts@.map_values(|t: Vec<char>| t@);
        let ghost s0 = self.rs();
        let style = ctx.style();
        let mut i: usize = 0;
        while i < parts.len()
            invariant
                i <= parts.len(),
                self.rs().wf(),
                spec_emit_raw(self.rs(), ctx, pv, i as int, kind) == spec_emit_raw(
                    s0,
                    ctx,
                    pv,
                    0,
                    kind,
                ),
            decreases parts.len() - i,
        {
            if i > 0 {
                self.render_new_line(ctx);
            }
            if parts[i].len() > 0 {
                let seg = copy_chars(&parts[i]);
                self.push_span(seg, style, kind);
            }
            i = i + 1;
        }
        RenderStatus::Rendered
    }
}

impl Renderer {
    /// Render one node of the tree. `in_pre` says whether its parent is a
    /// `pre` element.
    fn render_node(&mut self, ctx: Context, n: &Node, in_pre: bool) -> (st: RenderStatus)
        requires
            old(self).rs().wf(),
        ensures
            final(self).rs() == spec_render_node(old(self).rs(), ctx, *n, in_pre).0,
            st == spec_render_node(old(self).rs(), ctx, *n, in_pre).1,
            final(self).rs().wf(),
        decreases *n, 1int,
    {
        match n {
            Node::Document { children } => self.render_children(ctx, children),
            Node::Fragment { children } => self.render_children(ctx, children),
            Node::Text { text } => self.render_text(ctx, text, SpanKind::Content),
            Node::Element { tag, attrs, children } => {
                if tag.is_ignored() {
                    RenderStatus::NotRendered
                } else if *tag == Tag::Span || *tag == Tag::Button {
                    let fc = first_char(n);
                    self.render_context(ctx, fc);
                    self.render_children(
                        ctx.set_exclusive_modifier(ExclusiveModifier::Inline),
                        children,
                    );
                    RenderStatus::RenderedRequiresSpace
                } else if *tag == Tag::A {
                    let c1 = ctx.merge_exclusive_style(ExclusiveStyle::Link);
                    let open = lit1('[');
                    self.render_text(
                        c1.merge_exclusive_modifier(ExclusiveModifier::RequiresSpace),
                        &open,
                        SpanKind::Markup,
                    );
                    let c2 = c1.set_exclusive_modifier(ExclusiveModifier::Inline);
                    self.render_children(c2, children);
                    let close = lit1(']');
                    self.render_text(c2, &close, SpanKind::Markup);
                    let paren = lit1('(');
                    self.render_text(c2, &paren, SpanKind::Markup);
                    let none: Vec<char> = Vec::new();
                    match find_href(attrs) {
                        Some(v) => {
                            self.render_text(c2, v, SpanKind::Markup);
                        },
                        None => {
                            self.render_text(c2, &none, SpanKind::Markup);
                        },
                    }
                    let paren_close = lit1(')');
                    self.render_text(c2, &paren_close, SpanKind::Markup);
                    RenderStatus::RenderedRequiresSpace
                } else if *tag == Tag::Strong {
                    let c = ctx.add_stackable_style(StackableStyle::Bold);
                    let stars = lit2('*', '*');
                    self.render_text(
                        c.merge_exclusive_modifier(ExclusiveModifier::RequiresSpace),
                        &stars,
                        SpanKind::Markup,
                    );
                    let c2 = c.set_exclusive_modifier(ExclusiveModifier::Inline);
                    self.render_children(c2, children);
                    self.render_text(c2, &stars, SpanKind::Markup);
                    RenderStatus::RenderedRequiresSpace
                } else if *tag == Tag::Em {
                    let c = ctx.add_stackable_style(StackableStyle::Italic);
                    let underscore = lit1('_');
                    self.render_text(
                        c.merge_exclusive_modifier(ExclusiveModifier::RequiresSpace),
                        &underscore,
                        SpanKind::Markup,
                    );
                    let c2 = c.set_exclusive_modifier(ExclusiveModifier::Inline);
                    self.render_children(c2, children);
                    self.render_text(c2, &underscore, SpanKind::Markup);
                    RenderStatus::RenderedRequiresSpace
                } else if *tag == Tag::Ul {
                    let c = ctx.merge_exclusive_modifier(
                        ExclusiveModifier::UnorderedList,
                    ).add_stackable_modifier(StackableModifier::InsideList);
                    self.render_flat_list(c, children)
                } else if *tag == Tag::Ol {
                    self.render_ol(ctx, children)
                } else if tag.heading_level() > 0 {
                    self.render_header(ctx, tag.heading_level(), children)
                } else if *tag == Tag::Code && !in_pre {
                    let c = ctx.merge_exclusive_style(ExclusiveStyle::Code);
                    let tick = lit1('`');
                    self.render_text(
                        c.merge_exclusive_modifier(ExclusiveModifier::RequiresSpace),
                        &tick,
                        SpanKind::Markup,
                    );
                    let c2 = c.set_exclusive_modifier(ExclusiveModifier::Inline);
                    self.render_children(c2, children);
                    self.render_text(c2, &tick, SpanKind::Markup);
                    RenderStatus::RenderedRequiresSpace
                } else if *tag == Tag::Code {
                    let c = ctx.merge_exclusive_style(ExclusiveStyle::Code);
                    let fence = lit3('`', '`', '`');
                    self.render_text(
                        c.merge_exclusive_modifier(ExclusiveModifier::NewLine),
                        &fence,
                        SpanKind::Markup,
                    );
                    let c2 = c.set_exclusive_modifier(
                        ExclusiveModifier::Inline,
                    ).add_stackable_modifier(StackableModifier::InsideRawBlock);
                    self.render_new_line(c2);
                    self.render_raw_children(c2, children);
                    self.render_text(
                        c.set_exclusive_modifier(ExclusiveModifier::NewLine),
                        &fence,
                        SpanKind::Markup,
                    );
                    if c.exclusive_modifier == ExclusiveModifier::Inline || c.exclusive_modifier
                        == ExclusiveModifier::RequiresSpace {
                        self.render_new_line(c);
                    }
                    RenderStatus::Rendered
                } else {
                    self.render_block(ctx, children, *tag == Tag::Pre)
                }
            },
            Node::Comment => RenderStatus::NotRendered,
            Node::Doctype => RenderStatus::NotRendered,
            Node::ProcessingInstruction => RenderStatus::NotRendered,
        }
    }

    /// Render children in order under one context, keeping the most recent
    /// rendered status.
    fn render_children(&mut self, ctx: Context, children: &Vec<Node>) -> (st: RenderStatus)
        requires
            old(self).rs().wf(),
        ensures
            final(self).rs() == spec_render_children(
                old(self).rs(),
                ctx,
                children@,
                0,
                RenderStatus::NotRendered,
            ).0,
            st == spec_render_children(
                old(self).rs(),
                ctx,
                children@,
                0,
                RenderStatus::NotRendered,
            ).1,
            final(self).rs().wf(),
        decreases children@, 0int,
    {
        let ghost s0 = self.rs();
        let mut status = RenderStatus::NotRendered;
        let mut i: usize = 0;
        while i < children.len()
            invariant
                i <= children.len(),
                self.rs().wf(),
                spec_render_children(self.rs(), ctx, children@, i as int, status)
                    == spec_render_children(s0, ctx, children@, 0, RenderStatus::NotRendered),
            decreases children.len() - i,
        {
            let st = self.render_node(ctx, &children[i], false);
            if st.is_rendered() {
                status = st;
            }
            i = i + 1;
        }
        status
    }

    /// Render unordered-list items.
    fn render_flat_list(&mut self, ctx: Context, children: &Vec<Node>) -> (st: RenderStatus)
        requires
            old(self).rs().wf(),
        ensures
            final(self).rs() == spec_render_flat_list(
                old(self).rs(),
                ctx,
                children@,
                0,
                RenderStatus::NotRendered,
            ).0,
            st == spec_render_flat_list(
                old(self).rs(),
                ctx,
                children@,
                0,
                RenderStatus::NotRendered,
            ).1,
            final(self).rs().wf(),
        decreases children@, 0int,
    {
        let ghost s0 = self.rs();
        let mut status = RenderStatus::NotRendered;
        let mut i: usize = 0;
        while i < children.len()
            invariant
                i <= children.len(),
                self.rs().wf(),
                spec_render_flat_list(self.rs(), ctx, children@, i as int, status)
                    == spec_render_flat_list(s0, ctx, children@, 0, RenderStatus::NotRendered),
            decreases children.len() - i,
        {
            let st = self.render_node(ctx, &children[i], false);
            if st.is_rendered() {
                status = RenderStatus::Rendered;
            }
            i = i + 1;
        }
        status
    }

    /// Render ordered-list items; only a child that rendered consumes an
    /// ordinal.
    fn render_ol(&mut self, ctx: Context, children: &Vec<Node>) -> (st: RenderStatus)
        requires
            old(self).rs().wf(),
        ensures
            final(self).rs() == spec_render_ol(
                old(self).rs(),
                ctx,
                children@,
                0,
                1u16,
                RenderStatus::NotRendered,
            ).0,
            st == spec_render_ol(
                old(self).rs(),
                ctx,
                children@,
                0,
                1u16,
                RenderStatus::NotRendered,
            ).1,
            final(self).rs().wf(),
        decreases children@, 0int,
    {
        let ghost s0 = self.rs();
        let mut status = RenderStatus::NotRendered;
        let mut count: u16 = 1;
        let mut i: usize = 0;
        while i < children.len()
            invariant
                i <= children.len(),
                self.rs().wf(),
                spec_render_ol(self.rs(), ctx, children@, i as int, count, status)
                    == spec_render_ol(s0, ctx, children@, 0, 1u16, RenderStatus::NotRendered),
            decreases children.len() - i,
        {
            let c = ctx.merge_exclusive_modifier(
                ExclusiveModifier::OrderedList(count),
            ).add_stackable_modifier(StackableModifier::InsideList);
            let st = self.render_node(c, &children[i], false);
            if st.is_rendered() {
                status = RenderStatus::Rendered;
                count = if count == u16::MAX {
                    count
                } else {
                    count + 1
                };
            }
            i = i + 1;
        }
        status
    }

    /// Render the children of a generic block container, choosing each
    /// child's separator from what the previous children produced.
    fn render_block(&mut self, ctx: Context, children: &Vec<Node>, in_pre: bool) -> (st:
        RenderStatus)
        requires
            old(self).rs().wf(),
        ensures
            final(self).rs() == spec_render_block(
                old(self).rs(),
                ctx,
                children@,
                0,
                RenderStatus::NotRendered,
                in_pre,
            ).0,
            st == spec_render_block(
                old(self).rs(),
                ctx,
                children@,
                0,
                RenderStatus::NotRendered,
                in_pre,
            ).1,
            final(self).rs().wf(),
        decreases children@, 0int,
    {
        let ghost s0 = self.rs();
        let mut status = RenderStatus::NotRendered;
        let mut i: usize = 0;
        while i < children.len()
            invariant
                i <= children.len(),
                self.rs().wf(),
                spec_render_block(self.rs(), ctx, children@, i as int, status, in_pre)
                    == spec_render_block(
                    s0,
                    ctx,
                    children@,
                    0,
                    RenderStatus::NotRendered,
                    in_pre,
                ),
            decreases children.len() - i,
        {
            let c = match status {
                RenderStatus::NotRendered => ctx.merge_exclusive_modifier(
                    ExclusiveModifier::NewParagraph,
                ),
                RenderStatus::Rendered => ctx.set_exclusive_modifier(ExclusiveModifier::Inline),
                RenderStatus::RenderedRequiresSpace => ctx.set_exclusive_modifier(
                    ExclusiveModifier::RequiresSpace,
                ),
            };
            let st = self.render_node(c, &children[i], in_pre);
            if st.is_rendered() {
                status = st;
            }
            i = i + 1;
        }
        if status.is_rendered() {
            RenderStatus::Rendered
        } else {
            RenderStatus::NotRendered
        }
    }

    /// Render the children of a fenced code block verbatim.
    fn render_raw_children(&mut self, ctx: Context, children: &Vec<Node>)
        requires
            old(self).rs().wf(),
        ensures
            final(self).rs() == spec_render_raw_children(old(self).rs(), ctx, children@, 0),
            final(self).rs().wf(),
        decreases children@, 0int,
    {
        let ghost s0 = self.rs();
        let mut i: usize = 0;
        while i < children.len()
            invariant
                i <= children.len(),
                self.rs().wf(),
                spec_render_raw_children(self.rs(), ctx, children@, i as int)
                    == spec_render_raw_children(s0, ctx, children@, 0),
            decreases children.len() - i,
        {
            self.render_node(ctx, &children[i], false);
            i = i + 1;
        }
    }

    /// Emit `k` hash marks inline.
    fn render_hashes(&mut self, ctx: Context, k: u8)
        requires
            old(self).rs().wf(),
        ensures
            final(self).rs() == spec_render_hashes(old(self).rs(), ctx, k as int),
            final(self).rs().wf(),
    {
        let ghost s0 = self.rs();
        let mut i: u8 = 0;
        while i < k
            invariant
                i <= k,
                self.rs().wf(),
                spec_render_hashes(self.rs(), ctx, k - i) == spec_render_hashes(s0, ctx, k as int),
            decreases k - i,
        {
            let hash = lit1('#');
            self.render_text(
                ctx.set_exclusive_modifier(ExclusiveModifier::Inline),
                &hash,
                SpanKind::Markup,
            );
            i = i + 1;
        }
    }

    /// Render a heading of the given level.
    fn render_header(&mut self, ctx: Context, level: u8, children: &Vec<Node>) -> (st: RenderStatus)
        requires
            old(self).rs().wf(),
        ensures
            final(self).rs() == spec_render_header(
                old(self).rs(),
                ctx,
                level as int,
                children@,
            ).0,
            st == spec_render_header(old(self).rs(), ctx, level as int, children@).1,
            final(self).rs().wf(),
        decreases children@, children@.len() + 1,
    {
        self.render_context(
            ctx.merge_exclusive_modifier(ExclusiveModifier::NewHeading),
            Some('#'),
        );
        let c = ctx.set_exclusive_style(ExclusiveStyle::Heading);
        self.render_hashes(c, level);
        self.render_children(
            c.set_exclusive_modifier(ExclusiveModifier::RequiresSpace),
            children,
        );
        RenderStatus::Rendered
    }

    /// Render a whole tree, consuming the renderer; the result is the
    /// ordered sequence of output lines.
    pub fn render(self, tree: &Node) -> (r: Vec<Line>)
        requires
            self.rs().wf(),
        ensures
            r@.map_values(|l: Line| l@) == spec_render_node(
                self.rs(),
                Context::spec_initial(),
                *tree,
                false,
            ).0.lines,
    {
        let mut me = self;
        let ctx = Context::initial();
        me.render_node(ctx, tree, false);
        me.lines
    }
}

/// Render a document tree into wrapped, styled terminal lines at the given
/// wrap column. The output is a pure function of the pair: line order is
/// document order, and re-running the render cannot change it.
pub fn render(tree: &Node, max_width: usize) -> (r: Vec<Line>)
    requires
        max_width >= 1,
    ensures
        r@.map_values(|l: Line| l@) == spec_render(*tree, max_width as nat),
{
    let renderer = Renderer::new(max_width);
    renderer.render(tree)
}

/// A one-character text.
fn lit1(a: char) -> (r: Vec<char>)
    ensures
        r@ == seq![a],
{
    let mut v: Vec<char> = Vec::new();
    v.push(a);
    proof {
        assert(v@ =~= seq![a]);
    }
    v
}

/// A two-character text.
fn lit2(a: char, b: char) -> (r: Vec<char>)
    ensures
        r@ == seq![a, b],
{
    let mut v: Vec<char> = Vec::new();
    v.push(a);
    v.push(b);
    proof {
        assert(v@ =~= seq![a, b]);
    }
    v
}

/// A three-character text.
fn lit3(a: char, b: char, c: char) -> (r: Vec<char>)
    ensures
        r@ == seq![a, b, c],
{
    let mut v: Vec<char> = Vec::new();
    v.push(a);
    v.push(b);
    v.push(c);
    proof {
        assert(v@ =~= seq![a, b, c]);
    }
    v
}

/// A vector of `n` spaces.
pub fn make_spaces(n: usize) -> (r: Vec<char>)
    ensures
        r@ == blank(n as nat),
{
    let mut v: Vec<char> = Vec::new();
    let mut i: usize = 0;
    while i < n
        invariant
            i <= n,
            v@ =~= blank(i as nat),
        decreases n - i,
    {
        v.push(' ');
        i = i + 1;
        proof {
            assert(v@ =~= blank(i as nat));
        }
    }
    v
}

/// A fresh copy of a character vector.
pub fn copy_chars(v: &Vec<char>) -> (r: Vec<char>)
    ensures
        r@ == v@,
{
    let mut out: Vec<char> = Vec::new();
    let mut i: usize = 0;
    while i < v.len()
        invariant
            i <= v.len(),
            out@ =~= v@.subrange(0, i as int),
        decreases v.len() - i,
    {
        out.push(v[i]);
        i = i + 1;
        proof {
            assert(out@ =~= v@.subrange(0, i as int));
        }
    }
    proof {
        assert(v@.subrange(0, v@.len() as int) =~= v@);
    }
    out
}

} // verus!
