//! The laws of the renderer, proved over its spec functions: the document
//! text survives rendering in order, elidable subtrees render nothing,
//! ordered lists number exactly their rendered items, word-wrap respects the
//! wrap column, and the render is a pure function of tree and width.
use vstd::prelude::*;

use crate::context::Context;
use crate::context::ExclusiveModifier;
use crate::context::RenderStatus;
use crate::dom::Node;
use crate::dom::Tag;
use crate::line::line_width;
use crate::line::width_of;
use crate::line::SpanKind;
use crate::line::SpanV;
use crate::render::spec_emit_raw;
use crate::render::spec_emit_words;
use crate::render::spec_render;
use crate::render::spec_render_block;
use crate::render::spec_render_children;
use crate::render::spec_render_context;
use crate::render::spec_render_flat_list;
use crate::render::spec_render_hashes;
use crate::render::spec_render_header;
use crate::render::spec_render_node;
use crate::render::spec_render_ol;
use crate::render::spec_render_raw_children;
use crate::render::spec_render_text;
use crate::render::RState;
use crate::text::nl_segments;
use crate::text::raw_expand;
use crate::text::tokens;

verus! {

/// The document-content tokens of one line, left to right: the texts of its
/// `Content` spans, skipping markup, joining spaces and indentation.
pub open spec fn line_content(l: Seq<SpanV>) -> Seq<Seq<char>>
    decreases l.len(),
{
    if l.len() == 0 {
        Seq::empty()
    } else {
        line_content(l.drop_last()) + (if l.last().kind == SpanKind::Content {
            seq![l.last().text]
        } else {
            Seq::empty()
        })
    }
}

/// The document-content tokens of the whole output, line by line.
pub open spec fn lines_content(ls: Seq<Seq<SpanV>>) -> Seq<Seq<char>>
    decreases ls.len(),
{
    if ls.len() == 0 {
        Seq::empty()
    } else {
        lines_content(ls.drop_last()) + line_content(ls.last())
    }
}

/// The words of `ws` from index `i` on, each as one token.
pub open spec fn words_from(ws: Seq<Seq<char>>, i: int) -> Seq<Seq<char>>
    decreases ws.len() - i,
{
    if i < 0 || i >= ws.len() {
        Seq::empty()
    } else {
        seq![ws[i]] + words_from(ws, i + 1)
    }
}

/// The non-empty segments of `ps` from index `i` on.
pub open spec fn segs_from(ps: Seq<Seq<char>>, i: int) -> Seq<Seq<char>>
    decreases ps.len() - i,
{
    if i < 0 || i >= ps.len() {
        Seq::empty()
    } else {
        (if ps[i].len() > 0 {
            seq![ps[i]]
        } else {
            Seq::empty()
        }) + segs_from(ps, i + 1)
    }
}

/// The tokens one text node contributes: its whitespace-separated words, or,
/// in raw mode, its non-empty expanded line segments.
pub open spec fn text_tokens(t: Seq<char>, raw: bool) -> Seq<Seq<char>> {
    if raw {
        segs_from(nl_segments(raw_expand(t)), 0)
    } else {
        words_from(tokens(t), 0)
    }
}

/// The tokens a node's subtree contributes to the output, in depth-first
/// document order. Markup the renderer adds (link brackets, emphasis marks,
/// fences, hashes, list markers) contributes nothing.
pub open spec fn node_tokens(n: Node, raw: bool, in_pre: bool) -> Seq<Seq<char>>
    decreases n, 1int,
{
    match n {
        Node::Document { children } => children_tokens(children@, 0, raw, false),
        Node::Fragment { children } => children_tokens(children@, 0, raw, false),
        Node::Text { text } => text_tokens(text@, raw),
        Node::Element { tag, attrs, children } => {
            if tag.spec_is_ignored() {
                Seq::empty()
            } else if tag == Tag::Code && in_pre {
                children_tokens(children@, 0, true, false)
            } else if tag == Tag::Pre || tag == Tag::Other {
                children_tokens(children@, 0, raw, tag == Tag::Pre)
            } else {
                children_tokens(children@, 0, raw, false)
            }
        },
        _ => Seq::empty(),
    }
}

/// The concatenated tokens of the children from index `i` on.
pub open spec fn children_tokens(cs: Seq<Node>, i: int, raw: bool, in_pre: bool) -> Seq<Seq<char>>
    decreases cs, cs.len() - i,
{
    if i < 0 || i >= cs.len() {
        Seq::empty()
    } else {
        node_tokens(cs[i], raw, in_pre) + children_tokens(cs, i + 1, raw, in_pre)
    }
}

proof fn lemma_content_push(s: RState, sp: SpanV)
    requires
        s.lines.len() >= 1,
    ensures
        s.st_push_span(sp).lines.len() >= 1,
        sp.kind == SpanKind::Content ==> lines_content(s.st_push_span(sp).lines) == lines_content(
            s.lines,
        ) + seq![sp.text],
        sp.kind != SpanKind::Content ==> lines_content(s.st_push_span(sp).lines) == lines_content(
            s.lines,
        ),
{
    let ls = s.lines;
    let l = ls.last();
    let ls2 = s.st_push_span(sp).lines;
    let added: Seq<Seq<char>> = if sp.kind == SpanKind::Content {
        seq![sp.text]
    } else {
        Seq::empty()
    };
    assert(ls2.drop_last() =~= ls.drop_last());
    assert(ls2.last() == l.push(sp));
    assert(l.push(sp).drop_last() =~= l);
    assert(l.push(sp).last() == sp);
    assert(line_content(l.push(sp)) == line_content(l) + added);
    assert((lines_content(ls.drop_last()) + line_content(l)) + added =~= lines_content(
        ls.drop_last(),
    ) + (line_content(l) + added));
    if sp.kind != SpanKind::Content {
        assert(lines_content(ls) + added =~= lines_content(ls));
    }
}

proof fn lemma_content_new_line(s: RState, ctx: Context)
    requires
        s.lines.len() >= 1,
    ensures
        s.st_new_line(ctx).lines.len() >= 1,
        lines_content(s.st_new_line(ctx).lines) == lines_content(s.lines),
{
    let ls2 = s.st_new_line(ctx).lines;
    assert(ls2.drop_last() =~= s.lines);
    let n = crate::render::indent_cols(ctx);
    if n > 0 {
        let sp = SpanV {
            text: crate::render::blank(n),
            style: crate::line::TextStyle::spec_plain(),
            kind: SpanKind::Indent,
        };
        assert(ls2.last() == seq![sp]);
        assert(seq![sp].drop_last() =~= Seq::<SpanV>::empty());
        assert(seq![sp].last() == sp);
        assert(line_content(seq![sp]) == line_content(Seq::<SpanV>::empty())
            + Seq::<Seq<char>>::empty());
        assert(line_content(seq![sp]) =~= Seq::<Seq<char>>::empty());
    } else {
        assert(ls2.last() =~= Seq::<SpanV>::empty());
    }
    assert(lines_content(s.lines) + Seq::<Seq<char>>::empty() =~= lines_content(s.lines));
}

proof fn lemma_content_render_context(s: RState, ctx: Context, first: Option<char>)
    requires
        s.lines.len() >= 1,
    ensures
        spec_render_context(s, ctx, first).lines.len() >= 1,
        lines_content(spec_render_context(s, ctx, first).lines) == lines_content(s.lines),
{
    match ctx.exclusive_modifier {
        ExclusiveModifier::Inline => {},
        ExclusiveModifier::RequiresSpace => {
            if match first {
                Some(c) => c != '.' && c != ',' && c != ';',
                None => true,
            } {
                lemma_content_push(
                    s,
                    SpanV {
                        text: seq![' '],
                        style: crate::line::TextStyle::spec_plain(),
                        kind: SpanKind::Join,
                    },
                );
            }
        },
        ExclusiveModifier::NewLine => {
            lemma_content_new_line(s, ctx);
        },
        ExclusiveModifier::NewParagraph => {
            lemma_content_new_line(s, ctx);
            lemma_content_new_line(s.st_new_line(ctx), ctx);
        },
        ExclusiveModifier::NewHeading => {
            lemma_content_new_line(s, ctx);
            lemma_content_new_line(s.st_new_line(ctx), ctx);
            lemma_content_new_line(s.st_new_line(ctx).st_new_line(ctx), ctx);
        },
        ExclusiveModifier::UnorderedList => {
            let c = ctx.spec_remove_stackable_modifier(
                crate::context::StackableModifier::InsideList,
            );
            lemma_content_new_line(s, c);
            lemma_content_push(
                s.st_new_line(c),
                SpanV {
                    text: seq!['-', ' '],
                    style: crate::line::TextStyle::spec_gray(),
                    kind: SpanKind::Markup,
                },
            );
        },
        ExclusiveModifier::OrderedList(idx) => {
            let c = ctx.spec_remove_stackable_modifier(
                crate::context::StackableModifier::InsideList,
            );
            lemma_content_new_line(s, c);
            lemma_content_push(
                s.st_new_line(c),
                SpanV {
                    text: crate::text::dec_chars(idx as nat).push('.').push(' '),
                    style: crate::line::TextStyle::spec_gray(),
                    kind: SpanKind::Markup,
                },
            );
        },
    }
}

proof fn lemma_content_emit_words(
    s: RState,
    ctx: Context,
    words: Seq<Seq<char>>,
    i: int,
    line_start: bool,
    kind: SpanKind,
)
    requires
        s.lines.len() >= 1,
        0 <= i,
    ensures
        spec_emit_words(s, ctx, words, i, line_start, kind).lines.len() >= 1,
        kind == SpanKind::Content ==> lines_content(
            spec_emit_words(s, ctx, words, i, line_start, kind).lines,
        ) == lines_content(s.lines) + words_from(words, i),
        kind != SpanKind::Content ==> lines_content(
            spec_emit_words(s, ctx, words, i, line_start, kind).lines,
        ) == lines_content(s.lines),
    decreases words.len() - i,
{
    if i >= words.len() {
        assert(lines_content(s.lines) + Seq::<Seq<char>>::empty() =~= lines_content(s.lines));
    } else {
        let w = width_of(words[i]);
        let style = ctx.spec_style();
        let wrapped = s.max < crate::line::cap_add(crate::line::cap_add(s.last, w), 1);
        let s1 = if wrapped {
            s.st_new_line(ctx)
        } else {
            s
        };
        let ls1 = if wrapped {
            true
        } else {
            line_start
        };
        if wrapped {
            lemma_content_new_line(s, ctx);
        }
        let s2 = if !ls1 && s1.last != 0 {
            s1.st_push_span(SpanV { text: seq![' '], style, kind: SpanKind::Join })
        } else {
            s1
        };
        if !ls1 && s1.last != 0 {
            lemma_content_push(s1, SpanV { text: seq![' '], style, kind: SpanKind::Join });
        }
        let s3 = s2.st_push_span(SpanV { text: words[i], style, kind });
        lemma_content_push(s2, SpanV { text: words[i], style, kind });
        lemma_content_emit_words(s3, ctx, words, i + 1, false, kind);
        if kind == SpanKind::Content {
            assert((lines_content(s.lines) + seq![words[i]]) + words_from(words, i + 1)
                =~= lines_content(s.lines) + (seq![words[i]] + words_from(words, i + 1)));
        }
    }
}

proof fn lemma_content_emit_raw(
    s: RState,
    ctx: Context,
    parts: Seq<Seq<char>>,
    i: int,
    kind: SpanKind,
)
    requires
        s.lines.len() >= 1,
        0 <= i,
    ensures
        spec_emit_raw(s, ctx, parts, i, kind).lines.len() >= 1,
        kind == SpanKind::Content ==> lines_content(spec_emit_raw(s, ctx, parts, i, kind).lines)
            == lines_content(s.lines) + segs_from(parts, i),
        kind != SpanKind::Content ==> lines_content(spec_emit_raw(s, ctx, parts, i, kind).lines)
            == lines_content(s.lines),
    decreases parts.len() - i,
{
    if i >= parts.len() {
        assert(lines_content(s.lines) + Seq::<Seq<char>>::empty() =~= lines_content(s.lines));
    } else {
        let s1 = if i > 0 {
            s.st_new_line(ctx)
        } else {
            s
        };
        if i > 0 {
            lemma_content_new_line(s, ctx);
        }
        let s2 = if parts[i].len() > 0 {
            s1.st_push_span(SpanV { text: parts[i], style: ctx.spec_style(), kind })
        } else {
            s1
        };
        if parts[i].len() > 0 {
            lemma_content_push(s1, SpanV { text: parts[i], style: ctx.spec_style(), kind });
        }
        lemma_content_emit_raw(s2, ctx, parts, i + 1, kind);
        if kind == SpanKind::Content {
            if parts[i].len() > 0 {
                assert((lines_content(s.lines) + seq![parts[i]]) + segs_from(parts, i + 1)
                    =~= lines_content(s.lines) + (seq![parts[i]] + segs_from(parts, i + 1)));
            } else {
                assert(Seq::<Seq<char>>::empty() + segs_from(parts, i + 1) =~= segs_from(
                    parts,
                    i + 1,
                ));
            }
        }
    }
}

proof fn lemma_content_render_text(s: RState, ctx: Context, t: Seq<char>, kind: SpanKind)
    requires
        s.lines.len() >= 1,
    ensures
        spec_render_text(s, ctx, t, kind).0.lines.len() >= 1,
        kind == SpanKind::Content ==> lines_content(spec_render_text(s, ctx, t, kind).0.lines)
            == lines_content(s.lines) + text_tokens(t, ctx.inside_raw_block),
        kind != SpanKind::Content ==> lines_content(spec_render_text(s, ctx, t, kind).0.lines)
            == lines_content(s.lines),
{
    if ctx.inside_raw_block {
        lemma_content_emit_raw(s, ctx, nl_segments(raw_expand(t)), 0, kind);
    } else {
        let toks = tokens(t);
        if toks.len() == 0 {
            assert(words_from(toks, 0) =~= Seq::<Seq<char>>::empty());
            assert(lines_content(s.lines) + Seq::<Seq<char>>::empty() =~= lines_content(s.lines));
        } else {
            let s1 = spec_render_context(s, ctx, Some(toks[0][0]));
            lemma_content_render_context(s, ctx, Some(toks[0][0]));
            lemma_content_emit_words(s1, ctx, toks, 0, true, kind);
        }
    }
}


/// Order preservation, one node at a time: rendering a node appends exactly
/// its subtree's tokens to the output's content, in document order.
#[verifier::rlimit(100)]
#[verifier::spinoff_prover]
pub proof fn lemma_order_node(s: RState, ctx: Context, n: Node, in_pre: bool)
    requires
        s.lines.len() >= 1,
    ensures
        spec_render_node(s, ctx, n, in_pre).0.lines.len() >= 1,
        lines_content(spec_render_node(s, ctx, n, in_pre).0.lines) == lines_content(s.lines)
            + node_tokens(n, ctx.inside_raw_block, in_pre),
    decreases n, 1int,
{
    let raw = ctx.inside_raw_block;
    match n {
        Node::Document { children } => {
            lemma_order_children(s, ctx, children@, 0, RenderStatus::NotRendered);
        },
        Node::Fragment { children } => {
            lemma_order_children(s, ctx, children@, 0, RenderStatus::NotRendered);
        },
        Node::Text { text } => {
            lemma_content_render_text(s, ctx, text@, SpanKind::Content);
        },
        Node::Element { tag, attrs, children } => {
            if tag.spec_is_ignored() {
                lemma_add_empty(lines_content(s.lines));
            } else if tag == Tag::Span || tag == Tag::Button {
                let s1 = spec_render_context(s, ctx, crate::dom::spec_first_char(n));
                lemma_content_render_context(s, ctx, crate::dom::spec_first_char(n));
                let c = ctx.spec_set_exclusive_modifier(ExclusiveModifier::Inline);
                lemma_order_children(s1, c, children@, 0, RenderStatus::NotRendered);
            } else if tag == Tag::A {
                let c1 = ctx.spec_merge_exclusive_style(crate::context::ExclusiveStyle::Link);
                let ca = c1.spec_merge_exclusive_modifier(ExclusiveModifier::RequiresSpace);
                let s1 = spec_render_text(s, ca, seq!['['], SpanKind::Markup).0;
                lemma_content_render_text(s, ca, seq!['['], SpanKind::Markup);
                let c2 = c1.spec_set_exclusive_modifier(ExclusiveModifier::Inline);
                lemma_order_children(s1, c2, children@, 0, RenderStatus::NotRendered);
                let s2 = spec_render_children(s1, c2, children@, 0, RenderStatus::NotRendered).0;
                let s3 = spec_render_text(s2, c2, seq![']'], SpanKind::Markup).0;
                lemma_content_render_text(s2, c2, seq![']'], SpanKind::Markup);
                let s4 = spec_render_text(s3, c2, seq!['('], SpanKind::Markup).0;
                lemma_content_render_text(s3, c2, seq!['('], SpanKind::Markup);
                let href = match crate::dom::spec_find_href(attrs@) {
                    Option::Some(v) => v,
                    Option::None => Seq::empty(),
                };
                let s5 = spec_render_text(s4, c2, href, SpanKind::Markup).0;
                lemma_content_render_text(s4, c2, href, SpanKind::Markup);
                let s6 = spec_render_text(s5, c2, seq![')'], SpanKind::Markup).0;
                lemma_content_render_text(s5, c2, seq![')'], SpanKind::Markup);
            } else if tag == Tag::Strong {
                let c = ctx.spec_add_stackable_style(crate::context::StackableStyle::Bold);
                let cb = c.spec_merge_exclusive_modifier(ExclusiveModifier::RequiresSpace);
                let s1 = spec_render_text(s, cb, seq!['*', '*'], SpanKind::Markup).0;
                lemma_content_render_text(s, cb, seq!['*', '*'], SpanKind::Markup);
                let c2 = c.spec_set_exclusive_modifier(ExclusiveModifier::Inline);
                lemma_order_children(s1, c2, children@, 0, RenderStatus::NotRendered);
                let s2 = spec_render_children(s1, c2, children@, 0, RenderStatus::NotRendered).0;
                lemma_content_render_text(s2, c2, seq!['*', '*'], SpanKind::Markup);
            } else if tag == Tag::Em {
                let c = ctx.spec_add_stackable_style(crate::context::StackableStyle::Italic);
                let cb = c.spec_merge_exclusive_modifier(ExclusiveModifier::RequiresSpace);
                let s1 = spec_render_text(s, cb, seq!['_'], SpanKind::Markup).0;
                lemma_content_render_text(s, cb, seq!['_'], SpanKind::Markup);
                let c2 = c.spec_set_exclusive_modifier(ExclusiveModifier::Inline);
                lemma_order_children(s1, c2, children@, 0, RenderStatus::NotRendered);
                let s2 = spec_render_children(s1, c2, children@, 0, RenderStatus::NotRendered).0;
                lemma_content_render_text(s2, c2, seq!['_'], SpanKind::Markup);
            } else if tag == Tag::Ul {
                let c = ctx.spec_merge_exclusive_modifier(
                    ExclusiveModifier::UnorderedList,
                ).spec_add_stackable_modifier(crate::context::StackableModifier::InsideList);
                assert(c.inside_raw_block == raw);
                lemma_order_flat_list(s, c, children@, 0, RenderStatus::NotRendered);
            } else if tag == Tag::Ol {
                lemma_order_ol(s, ctx, children@, 0, 1u16, RenderStatus::NotRendered);
            } else if tag.spec_heading_level() > 0 {
                lemma_order_header(s, ctx, tag.spec_heading_level() as int, children@);
            } else if tag == Tag::Code && !in_pre {
                let c = ctx.spec_merge_exclusive_style(crate::context::ExclusiveStyle::Code);
                let cb = c.spec_merge_exclusive_modifier(ExclusiveModifier::RequiresSpace);
                let s1 = spec_render_text(s, cb, seq!['`'], SpanKind::Markup).0;
                lemma_content_render_text(s, cb, seq!['`'], SpanKind::Markup);
                let c2 = c.spec_set_exclusive_modifier(ExclusiveModifier::Inline);
                lemma_order_children(s1, c2, children@, 0, RenderStatus::NotRendered);
                let s2 = spec_render_children(s1, c2, children@, 0, RenderStatus::NotRendered).0;
                lemma_content_render_text(s2, c2, seq!['`'], SpanKind::Markup);
            } else if tag == Tag::Code {
                let c = ctx.spec_merge_exclusive_style(crate::context::ExclusiveStyle::Code);
                let cb = c.spec_merge_exclusive_modifier(ExclusiveModifier::NewLine);
                let s1 = spec_render_text(s, cb, seq!['`', '`', '`'], SpanKind::Markup).0;
                lemma_content_render_text(s, cb, seq!['`', '`', '`'], SpanKind::Markup);
                let c2 = c.spec_set_exclusive_modifier(
                    ExclusiveModifier::Inline,
                ).spec_add_stackable_modifier(crate::context::StackableModifier::InsideRawBlock);
                let s2 = s1.st_new_line(c2);
                lemma_content_new_line(s1, c2);
                assert(c2.inside_raw_block);
                lemma_order_raw_children(s2, c2, children@, 0);
                let s3 = spec_render_raw_children(s2, c2, children@, 0);
                let cc = c.spec_set_exclusive_modifier(ExclusiveModifier::NewLine);
                let s4 = spec_render_text(s3, cc, seq!['`', '`', '`'], SpanKind::Markup).0;
                lemma_content_render_text(s3, cc, seq!['`', '`', '`'], SpanKind::Markup);
                if c.exclusive_modifier == ExclusiveModifier::Inline || c.exclusive_modifier
                    == ExclusiveModifier::RequiresSpace {
                    lemma_content_new_line(s4, c);
                }
            } else {
                lemma_order_block(s, ctx, children@, 0, RenderStatus::NotRendered, tag == Tag::Pre);
            }
        },
        Node::Comment => {
            lemma_add_empty(lines_content(s.lines));
        },
        Node::Doctype => {
            lemma_add_empty(lines_content(s.lines));
        },
        Node::ProcessingInstruction => {
            lemma_add_empty(lines_content(s.lines));
        },
    }
}

proof fn lemma_add_empty(a: Seq<Seq<char>>)
    ensures
        a + Seq::<Seq<char>>::empty() == a,
{
    assert(a + Seq::<Seq<char>>::empty() =~= a);
}

proof fn lemma_add_assoc(a: Seq<Seq<char>>, b: Seq<Seq<char>>, c: Seq<Seq<char>>)
    ensures
        (a + b) + c == a + (b + c),
{
    assert((a + b) + c =~= a + (b + c));
}

proof fn lemma_order_children(s: RState, ctx: Context, cs: Seq<Node>, i: int, status: RenderStatus)
    requires
        s.lines.len() >= 1,
        0 <= i,
    ensures
        spec_render_children(s, ctx, cs, i, status).0.lines.len() >= 1,
        lines_content(spec_render_children(s, ctx, cs, i, status).0.lines) == lines_content(
            s.lines,
        ) + children_tokens(cs, i, ctx.inside_raw_block, false),
    decreases cs, cs.len() - i,
{
    if i >= cs.len() {
        lemma_add_empty(lines_content(s.lines));
    } else {
        let r = spec_render_node(s, ctx, cs[i], false);
        lemma_order_node(s, ctx, cs[i], false);
        let next = if r.1.spec_is_rendered() {
            r.1
        } else {
            status
        };
        lemma_order_children(r.0, ctx, cs, i + 1, next);
        lemma_add_assoc(
            lines_content(s.lines),
            node_tokens(cs[i], ctx.inside_raw_block, false),
            children_tokens(cs, i + 1, ctx.inside_raw_block, false),
        );
    }
}

proof fn lemma_order_flat_list(
    s: RState,
    ctx: Context,
    cs: Seq<Node>,
    i: int,
    status: RenderStatus,
)
    requires
        s.lines.len() >= 1,
        0 <= i,
    ensures
        spec_render_flat_list(s, ctx, cs, i, status).0.lines.len() >= 1,
        lines_content(spec_render_flat_list(s, ctx, cs, i, status).0.lines) == lines_content(
            s.lines,
        ) + children_tokens(cs, i, ctx.inside_raw_block, false),
    decreases cs, cs.len() - i,
{
    if i >= cs.len() {
        lemma_add_empty(lines_content(s.lines));
    } else {
        let r = spec_render_node(s, ctx, cs[i], false);
        lemma_order_node(s, ctx, cs[i], false);
        let next = if r.1.spec_is_rendered() {
            RenderStatus::Rendered
        } else {
            status
        };
        lemma_order_flat_list(r.0, ctx, cs, i + 1, next);
        lemma_add_assoc(
            lines_content(s.lines),
            node_tokens(cs[i], ctx.inside_raw_block, false),
            children_tokens(cs, i + 1, ctx.inside_raw_block, false),
        );
    }
}

proof fn lemma_order_ol(
    s: RState,
    ctx: Context,
    cs: Seq<Node>,
    i: int,
    count: u16,
    status: RenderStatus,
)
    requires
        s.lines.len() >= 1,
        0 <= i,
    ensures
        spec_render_ol(s, ctx, cs, i, count, status).0.lines.len() >= 1,
        lines_content(spec_render_ol(s, ctx, cs, i, count, status).0.lines) == lines_content(
            s.lines,
        ) + children_tokens(cs, i, ctx.inside_raw_block, false),
    decreases cs, cs.len() - i,
{
    if i >= cs.len() {
        lemma_add_empty(lines_content(s.lines));
    } else {
        let c = ctx.spec_merge_exclusive_modifier(
            ExclusiveModifier::OrderedList(count),
        ).spec_add_stackable_modifier(crate::context::StackableModifier::InsideList);
        assert(c.inside_raw_block == ctx.inside_raw_block);
        let r = spec_render_node(s, c, cs[i], false);
        lemma_order_node(s, c, cs[i], false);
        if r.1.spec_is_rendered() {
            lemma_order_ol(r.0, ctx, cs, i + 1, crate::render::inc_ordinal(count), RenderStatus::Rendered);
        } else {
            lemma_order_ol(r.0, ctx, cs, i + 1, count, status);
        }
        lemma_add_assoc(
            lines_content(s.lines),
            node_tokens(cs[i], ctx.inside_raw_block, false),
            children_tokens(cs, i + 1, ctx.inside_raw_block, false),
        );
    }
}

proof fn lemma_order_block(
    s: RState,
    ctx: Context,
    cs: Seq<Node>,
    i: int,
    status: RenderStatus,
    in_pre: bool,
)
    requires
        s.lines.len() >= 1,
        0 <= i,
    ensures
        spec_render_block(s, ctx, cs, i, status, in_pre).0.lines.len() >= 1,
        lines_content(spec_render_block(s, ctx, cs, i, status, in_pre).0.lines) == lines_content(
            s.lines,
        ) + children_tokens(cs, i, ctx.inside_raw_block, in_pre),
    decreases cs, cs.len() - i,
{
    if i >= cs.len() {
        lemma_add_empty(lines_content(s.lines));
    } else {
        let c = match status {
            RenderStatus::NotRendered => ctx.spec_merge_exclusive_modifier(
                ExclusiveModifier::NewParagraph,
            ),
            RenderStatus::Rendered => ctx.spec_set_exclusive_modifier(ExclusiveModifier::Inline),
            RenderStatus::RenderedRequiresSpace => ctx.spec_set_exclusive_modifier(
                ExclusiveModifier::RequiresSpace,
            ),
        };
        assert(c.inside_raw_block == ctx.inside_raw_block);
        let r = spec_render_node(s, c, cs[i], in_pre);
        lemma_order_node(s, c, cs[i], in_pre);
        let next = if r.1.spec_is_rendered() {
            r.1
        } else {
            status
        };
        lemma_order_block(r.0, ctx, cs, i + 1, next, in_pre);
        lemma_add_assoc(
            lines_content(s.lines),
            node_tokens(cs[i], ctx.inside_raw_block, in_pre),
            children_tokens(cs, i + 1, ctx.inside_raw_block, in_pre),
        );
    }
}

proof fn lemma_order_raw_children(s: RState, ctx: Context, cs: Seq<Node>, i: int)
    requires
        s.lines.len() >= 1,
        0 <= i,
    ensures
        spec_render_raw_children(s, ctx, cs, i).lines.len() >= 1,
        lines_content(spec_render_raw_children(s, ctx, cs, i).lines) == lines_content(s.lines)
            + children_tokens(cs, i, ctx.inside_raw_block, false),
    decreases cs, cs.len() - i,
{
    if i >= cs.len() {
        lemma_add_empty(lines_content(s.lines));
    } else {
        let r = spec_render_node(s, ctx, cs[i], false);
        lemma_order_node(s, ctx, cs[i], false);
        lemma_order_raw_children(r.0, ctx, cs, i + 1);
        lemma_add_assoc(
            lines_content(s.lines),
            node_tokens(cs[i], ctx.inside_raw_block, false),
            children_tokens(cs, i + 1, ctx.inside_raw_block, false),
        );
    }
}

proof fn lemma_order_hashes(s: RState, ctx: Context, k: int)
    requires
        s.lines.len() >= 1,
    ensures
        spec_render_hashes(s, ctx, k).lines.len() >= 1,
        lines_content(spec_render_hashes(s, ctx, k).lines) == lines_content(s.lines),
    decreases k,
{
    if k <= 0 {
    } else {
        let ci = ctx.spec_set_exclusive_modifier(ExclusiveModifier::Inline);
        lemma_content_render_text(s, ci, seq!['#'], SpanKind::Markup);
        lemma_order_hashes(spec_render_text(s, ci, seq!['#'], SpanKind::Markup).0, ctx, k - 1);
    }
}

proof fn lemma_order_header(s: RState, ctx: Context, level: int, cs: Seq<Node>)
    requires
        s.lines.len() >= 1,
    ensures
        spec_render_header(s, ctx, level, cs).0.lines.len() >= 1,
        lines_content(spec_render_header(s, ctx, level, cs).0.lines) == lines_content(s.lines)
            + children_tokens(cs, 0, ctx.inside_raw_block, false),
    decreases cs, cs.len() + 1,
{
    let ch = ctx.spec_merge_exclusive_modifier(ExclusiveModifier::NewHeading);
    let s1 = spec_render_context(s, ch, Some('#'));
    lemma_content_render_context(s, ch, Some('#'));
    let c = ctx.spec_set_exclusive_style(crate::context::ExclusiveStyle::Heading);
    lemma_order_hashes(s1, c, level);
    let s2 = spec_render_hashes(s1, c, level);
    let cr = c.spec_set_exclusive_modifier(ExclusiveModifier::RequiresSpace);
    assert(cr.inside_raw_block == ctx.inside_raw_block);
    lemma_order_children(s2, cr, cs, 0, RenderStatus::NotRendered);
}

/// Order preservation: the content tokens of the rendered output, read line
/// by line and left to right with all renderer-added markup, joining spaces
/// and indentation stripped, are exactly the tokens of the tree's text
/// nodes, in depth-first document order.
pub proof fn lemma_order_preservation(n: Node, max: nat)
    ensures
        lines_content(spec_render(n, max)) == node_tokens(n, false, false),
{
    let s0 = RState::init(max);
    lemma_order_node(s0, Context::spec_initial(), n, false);
    assert(s0.lines.drop_last() =~= Seq::<Seq<SpanV>>::empty());
    assert(s0.lines.last() =~= Seq::<SpanV>::empty());
    assert(line_content(Seq::<SpanV>::empty()) == Seq::<Seq<char>>::empty());
    assert(lines_content(Seq::<Seq<SpanV>>::empty()) == Seq::<Seq<char>>::empty());
    assert(lines_content(s0.lines) == lines_content(Seq::<Seq<SpanV>>::empty()) + line_content(
        Seq::<SpanV>::empty(),
    ));
    assert(lines_content(s0.lines) =~= Seq::<Seq<char>>::empty());
    assert(Seq::<Seq<char>>::empty() + node_tokens(n, false, false) =~= node_tokens(
        n,
        false,
        false,
    ));
}


/// A subtree that cannot produce output: an ignored tag, a comment, doctype
/// or processing instruction, a whitespace-only text node, or a container
/// (document, fragment, list, generic block) of such subtrees. Inline markup
/// elements and headings always emit their markup, so they never qualify.
pub open spec fn elidable(n: Node) -> bool
    decreases n, 1int,
{
    match n {
        Node::Document { children } => all_elidable(children@, 0),
        Node::Fragment { children } => all_elidable(children@, 0),
        Node::Text { text } => tokens(text@).len() == 0,
        Node::Element { tag, attrs, children } => {
            if tag.spec_is_ignored() {
                true
            } else if tag == Tag::Ul || tag == Tag::Ol || tag == Tag::Pre || tag == Tag::Other {
                all_elidable(children@, 0)
            } else {
                false
            }
        },
        _ => true,
    }
}

pub open spec fn all_elidable(cs: Seq<Node>, i: int) -> bool
    decreases cs, cs.len() - i,
{
    i < 0 || i >= cs.len() || (elidable(cs[i]) && all_elidable(cs, i + 1))
}

proof fn lemma_children_status_mono(
    s: RState,
    ctx: Context,
    cs: Seq<Node>,
    i: int,
    status: RenderStatus,
)
    ensures
        status.spec_is_rendered() ==> spec_render_children(
            s,
            ctx,
            cs,
            i,
            status,
        ).1.spec_is_rendered(),
    decreases cs, cs.len() - i,
{
    if 0 <= i < cs.len() {
        let r = spec_render_node(s, ctx, cs[i], false);
        let next = if r.1.spec_is_rendered() {
            r.1
        } else {
            status
        };
        lemma_children_status_mono(r.0, ctx, cs, i + 1, next);
    }
}

proof fn lemma_flat_status_mono(
    s: RState,
    ctx: Context,
    cs: Seq<Node>,
    i: int,
    status: RenderStatus,
)
    ensures
        status.spec_is_rendered() ==> spec_render_flat_list(
            s,
            ctx,
            cs,
            i,
            status,
        ).1.spec_is_rendered(),
    decreases cs, cs.len() - i,
{
    if 0 <= i < cs.len() {
        let r = spec_render_node(s, ctx, cs[i], false);
        let next = if r.1.spec_is_rendered() {
            RenderStatus::Rendered
        } else {
            status
        };
        lemma_flat_status_mono(r.0, ctx, cs, i + 1, next);
    }
}

proof fn lemma_ol_status_mono(
    s: RState,
    ctx: Context,
    cs: Seq<Node>,
    i: int,
    count: u16,
    status: RenderStatus,
)
    ensures
        status.spec_is_rendered() ==> spec_render_ol(s, ctx, cs, i, count, status).1.spec_is_rendered(),
    decreases cs, cs.len() - i,
{
    if 0 <= i < cs.len() {
        let c = ctx.spec_merge_exclusive_modifier(
            ExclusiveModifier::OrderedList(count),
        ).spec_add_stackable_modifier(crate::context::StackableModifier::InsideList);
        let r = spec_render_node(s, c, cs[i], false);
        if r.1.spec_is_rendered() {
            lemma_ol_status_mono(
                r.0,
                ctx,
                cs,
                i + 1,
                crate::render::inc_ordinal(count),
                RenderStatus::Rendered,
            );
        } else {
            lemma_ol_status_mono(r.0, ctx, cs, i + 1, count, status);
        }
    }
}

proof fn lemma_block_status_mono(
    s: RState,
    ctx: Context,
    cs: Seq<Node>,
    i: int,
    status: RenderStatus,
    in_pre: bool,
)
    ensures
        status.spec_is_rendered() ==> spec_render_block(
            s,
            ctx,
            cs,
            i,
            status,
            in_pre,
        ).1.spec_is_rendered(),
    decreases cs, cs.len() - i,
{
    if 0 <= i < cs.len() {
        let c = match status {
            RenderStatus::NotRendered => ctx.spec_merge_exclusive_modifier(
                ExclusiveModifier::NewParagraph,
            ),
            RenderStatus::Rendered => ctx.spec_set_exclusive_modifier(ExclusiveModifier::Inline),
            RenderStatus::RenderedRequiresSpace => ctx.spec_set_exclusive_modifier(
                ExclusiveModifier::RequiresSpace,
            ),
        };
        let r = spec_render_node(s, c, cs[i], in_pre);
        let next = if r.1.spec_is_rendered() {
            r.1
        } else {
            status
        };
        lemma_block_status_mono(r.0, ctx, cs, i + 1, next, in_pre);
    }
}

/// Empty-subtree elision, and its converse. An elidable subtree renders
/// nothing at all: the output is exactly what it was — no separator, no
/// paragraph break — and the parent is told `NotRendered`. A subtree that is
/// not elidable always reports itself rendered.
#[verifier::rlimit(100)]
#[verifier::spinoff_prover]
pub proof fn lemma_empty_subtree_elision(s: RState, ctx: Context, n: Node, in_pre: bool)
    requires
        !ctx.inside_raw_block,
    ensures
        elidable(n) ==> spec_render_node(s, ctx, n, in_pre) == (s, RenderStatus::NotRendered),
        !elidable(n) ==> spec_render_node(s, ctx, n, in_pre).1.spec_is_rendered(),
    decreases n, 1int,
{
    match n {
        Node::Document { children } => {
            lemma_elidable_children(s, ctx, children@, 0, RenderStatus::NotRendered);
        },
        Node::Fragment { children } => {
            lemma_elidable_children(s, ctx, children@, 0, RenderStatus::NotRendered);
        },
        Node::Text { text } => {},
        Node::Element { tag, attrs, children } => {
            if tag.spec_is_ignored() {
            } else if tag == Tag::Ul {
                let c = ctx.spec_merge_exclusive_modifier(
                    ExclusiveModifier::UnorderedList,
                ).spec_add_stackable_modifier(crate::context::StackableModifier::InsideList);
                assert(!c.inside_raw_block);
                lemma_elidable_flat(s, c, children@, 0, RenderStatus::NotRendered);
            } else if tag == Tag::Ol {
                lemma_elidable_ol(s, ctx, children@, 0, 1u16, RenderStatus::NotRendered);
            } else if tag == Tag::Pre || tag == Tag::Other {
                if tag.spec_heading_level() == 0 && tag != Tag::Code && tag != Tag::Span && tag
                    != Tag::Button && tag != Tag::A && tag != Tag::Strong && tag != Tag::Em {
                    lemma_elidable_block(
                        s,
                        ctx,
                        children@,
                        0,
                        RenderStatus::NotRendered,
                        tag == Tag::Pre,
                    );
                }
            } else {
            }
        },
        _ => {},
    }
}

proof fn lemma_elidable_children(
    s: RState,
    ctx: Context,
    cs: Seq<Node>,
    i: int,
    status: RenderStatus,
)
    requires
        !ctx.inside_raw_block,
        0 <= i,
    ensures
        all_elidable(cs, i) ==> spec_render_children(s, ctx, cs, i, status) == (s, status),
        !all_elidable(cs, i) ==> spec_render_children(s, ctx, cs, i, status).1.spec_is_rendered(),
    decreases cs, cs.len() - i,
{
    if i >= cs.len() {
    } else {
        let r = spec_render_node(s, ctx, cs[i], false);
        lemma_empty_subtree_elision(s, ctx, cs[i], false);
        let next = if r.1.spec_is_rendered() {
            r.1
        } else {
            status
        };
        lemma_elidable_children(r.0, ctx, cs, i + 1, next);
        if !elidable(cs[i]) {
            lemma_children_status_mono(r.0, ctx, cs, i + 1, next);
        }
    }
}

proof fn lemma_elidable_flat(s: RState, ctx: Context, cs: Seq<Node>, i: int, status: RenderStatus)
    requires
        !ctx.inside_raw_block,
        0 <= i,
    ensures
        all_elidable(cs, i) ==> spec_render_flat_list(s, ctx, cs, i, status) == (s, status),
        !all_elidable(cs, i) ==> spec_render_flat_list(s, ctx, cs, i, status).1.spec_is_rendered(),
    decreases cs, cs.len() - i,
{
    if i >= cs.len() {
    } else {
        let r = spec_render_node(s, ctx, cs[i], false);
        lemma_empty_subtree_elision(s, ctx, cs[i], false);
        let next = if r.1.spec_is_rendered() {
            RenderStatus::Rendered
        } else {
            status
        };
        lemma_elidable_flat(r.0, ctx, cs, i + 1, next);
        if !elidable(cs[i]) {
            lemma_flat_status_mono(r.0, ctx, cs, i + 1, next);
        }
    }
}

proof fn lemma_elidable_ol(
    s: RState,
    ctx: Context,
    cs: Seq<Node>,
    i: int,
    count: u16,
    status: RenderStatus,
)
    requires
        !ctx.inside_raw_block,
        0 <= i,
    ensures
        all_elidable(cs, i) ==> spec_render_ol(s, ctx, cs, i, count, status) == (s, status),
        !all_elidable(cs, i) ==> spec_render_ol(s, ctx, cs, i, count, status).1.spec_is_rendered(),
    decreases cs, cs.len() - i,
{
    if i >= cs.len() {
    } else {
        let c = ctx.spec_merge_exclusive_modifier(
            ExclusiveModifier::OrderedList(count),
        ).spec_add_stackable_modifier(crate::context::StackableModifier::InsideList);
        assert(!c.inside_raw_block);
        let r = spec_render_node(s, c, cs[i], false);
        lemma_empty_subtree_elision(s, c, cs[i], false);
        if r.1.spec_is_rendered() {
            lemma_elidable_ol(
                r.0,
                ctx,
                cs,
                i + 1,
                crate::render::inc_ordinal(count),
                RenderStatus::Rendered,
            );
            lemma_ol_status_mono(
                r.0,
                ctx,
                cs,
                i + 1,
                crate::render::inc_ordinal(count),
                RenderStatus::Rendered,
            );
        } else {
            lemma_elidable_ol(r.0, ctx, cs, i + 1, count, status);
        }
    }
}

proof fn lemma_elidable_block(
    s: RState,
    ctx: Context,
    cs: Seq<Node>,
    i: int,
    status: RenderStatus,
    in_pre: bool,
)
    requires
        !ctx.inside_raw_block,
        0 <= i,
    ensures
        all_elidable(cs, i) ==> spec_render_block(s, ctx, cs, i, status, in_pre) == (
            s,
            if status.spec_is_rendered() {
                RenderStatus::Rendered
            } else {
                RenderStatus::NotRendered
            },
        ),
        !all_elidable(cs, i) ==> spec_render_block(
            s,
            ctx,
            cs,
            i,
            status,
            in_pre,
        ).1.spec_is_rendered(),
    decreases cs, cs.len() - i,
{
    if i >= cs.len() {
    } else {
        let c = match status {
            RenderStatus::NotRendered => ctx.spec_merge_exclusive_modifier(
                ExclusiveModifier::NewParagraph,
            ),
            RenderStatus::Rendered => ctx.spec_set_exclusive_modifier(ExclusiveModifier::Inline),
            RenderStatus::RenderedRequiresSpace => ctx.spec_set_exclusive_modifier(
                ExclusiveModifier::RequiresSpace,
            ),
        };
        assert(!c.inside_raw_block);
        let r = spec_render_node(s, c, cs[i], in_pre);
        lemma_empty_subtree_elision(s, c, cs[i], in_pre);
        let next = if r.1.spec_is_rendered() {
            r.1
        } else {
            status
        };
        lemma_elidable_block(r.0, ctx, cs, i + 1, next, in_pre);
        if !elidable(cs[i]) {
            lemma_block_status_mono(r.0, ctx, cs, i + 1, next, in_pre);
        }
    }
}

/// How many of the first `j` children can produce content.
pub open spec fn count_rendering(cs: Seq<Node>, j: int) -> nat
    decreases j,
{
    if j <= 0 {
        0
    } else {
        count_rendering(cs, j - 1) + (if elidable(cs[j - 1]) {
            0nat
        } else {
            1nat
        })
    }
}

pub open spec fn clamp_u16(k: int) -> u16 {
    if k > u16::MAX {
        u16::MAX
    } else if k < 0 {
        0
    } else {
        k as u16
    }
}

/// The ordinal child `j` of an ordered list receives: one more than the
/// number of content-producing children before it.
pub open spec fn ol_ordinal(cs: Seq<Node>, j: int) -> u16 {
    clamp_u16(1 + count_rendering(cs, j) as int)
}

/// The ordered-list walk with each child's ordinal written out explicitly.
pub open spec fn spec_render_ol_numbered(s: RState, ctx: Context, cs: Seq<Node>, i: int) -> RState
    decreases cs, cs.len() - i,
{
    if i < 0 || i >= cs.len() {
        s
    } else {
        let c = ctx.spec_merge_exclusive_modifier(
            ExclusiveModifier::OrderedList(ol_ordinal(cs, i)),
        ).spec_add_stackable_modifier(crate::context::StackableModifier::InsideList);
        spec_render_ol_numbered(spec_render_node(s, c, cs[i], false).0, ctx, cs, i + 1)
    }
}

proof fn lemma_ol_ordinals_from(
    s: RState,
    ctx: Context,
    cs: Seq<Node>,
    i: int,
    count: u16,
    status: RenderStatus,
)
    requires
        !ctx.inside_raw_block,
        0 <= i,
        count == ol_ordinal(cs, i),
    ensures
        spec_render_ol(s, ctx, cs, i, count, status).0 == spec_render_ol_numbered(s, ctx, cs, i),
    decreases cs, cs.len() - i,
{
    if i >= cs.len() {
    } else {
        let c = ctx.spec_merge_exclusive_modifier(
            ExclusiveModifier::OrderedList(count),
        ).spec_add_stackable_modifier(crate::context::StackableModifier::InsideList);
        assert(!c.inside_raw_block);
        let r = spec_render_node(s, c, cs[i], false);
        lemma_empty_subtree_elision(s, c, cs[i], false);
        assert(count_rendering(cs, i + 1) == count_rendering(cs, i) + (if elidable(cs[i]) {
            0nat
        } else {
            1nat
        }));
        if r.1.spec_is_rendered() {
            assert(!elidable(cs[i]));
            assert(crate::render::inc_ordinal(count) == ol_ordinal(cs, i + 1));
            lemma_ol_ordinals_from(
                r.0,
                ctx,
                cs,
                i + 1,
                crate::render::inc_ordinal(count),
                RenderStatus::Rendered,
            );
        } else {
            assert(elidable(cs[i]));
            assert(r.0 == s);
            assert(count == ol_ordinal(cs, i + 1));
            lemma_ol_ordinals_from(s, ctx, cs, i + 1, count, status);
        }
    }
}

/// List ordinal correctness: in an ordered list, the ordinal each child is
/// rendered under is one more than the number of content-producing children
/// before it. The content-producing children therefore carry the ordinals
/// 1, 2, ... M in document order, and a child that renders nothing consumes
/// no ordinal.
pub proof fn lemma_ol_ordinals(s: RState, ctx: Context, cs: Seq<Node>)
    requires
        !ctx.inside_raw_block,
    ensures
        spec_render_ol(s, ctx, cs, 0, 1u16, RenderStatus::NotRendered).0
            == spec_render_ol_numbered(s, ctx, cs, 0),
{
    lemma_ol_ordinals_from(s, ctx, cs, 0, 1u16, RenderStatus::NotRendered);
}

/// Purity: the render is a mathematical function of the tree and the wrap
/// width alone, so re-running it on the same pair yields identical output.
pub proof fn lemma_render_pure(
    first_run: Seq<Seq<SpanV>>,
    second_run: Seq<Seq<SpanV>>,
    n: Node,
    max: nat,
)
    requires
        first_run == spec_render(n, max),
        second_run == spec_render(n, max),
    ensures
        first_run == second_run,
{
}


/// The shape of a line that is allowed to exceed the wrap column: exactly
/// one word, possibly preceded by its indentation.
pub open spec fn word_alone(l: Seq<SpanV>) -> bool {
    l.len() == 1 || (l.len() == 2 && l[0].kind == SpanKind::Indent)
}

/// A line respects the wrap column, or it carries a single word too wide
/// for it.
pub open spec fn line_ok(l: Seq<SpanV>, max: nat) -> bool {
    line_width(l) <= max || word_alone(l)
}

/// Width invariant of word-wrapping: emission never grows a line beyond the
/// wrap column; the one exception is a word too wide for the column by
/// itself, which stands alone on its line (after its indentation) and may
/// exceed it. The line the emission starts on is either kept within the
/// column or left exactly as it was. Stated under the premise — true of the
/// display-width measure — that a single space is one column wide.
pub proof fn lemma_emit_words_width(
    s: RState,
    ctx: Context,
    words: Seq<Seq<char>>,
    i: int,
    line_start: bool,
    kind: SpanKind,
)
    requires
        s.wf(),
        0 <= i,
        width_of(seq![' ']) == 1,
    ensures
        spec_emit_words(s, ctx, words, i, line_start, kind).wf(),
        spec_emit_words(s, ctx, words, i, line_start, kind).max == s.max,
        spec_emit_words(s, ctx, words, i, line_start, kind).lines.len() >= s.lines.len(),
        forall|k: int|
            0 <= k < s.lines.len() - 1 ==> spec_emit_words(
                s,
                ctx,
                words,
                i,
                line_start,
                kind,
            ).lines[k] == s.lines[k],
        forall|k: int|
            s.lines.len() - 1 <= k < spec_emit_words(s, ctx, words, i, line_start, kind).lines.len()
                ==> line_ok(
                #[trigger] spec_emit_words(s, ctx, words, i, line_start, kind).lines[k],
                s.max,
            ) || (k == s.lines.len() - 1 && spec_emit_words(
                s,
                ctx,
                words,
                i,
                line_start,
                kind,
            ).lines[k] == s.lines[k]),
    decreases words.len() - i,
{
    let r = spec_emit_words(s, ctx, words, i, line_start, kind);
    if i >= words.len() {
    } else {
        let w = width_of(words[i]);
        let style = ctx.spec_style();
        let wrapped = s.max < crate::line::cap_add(crate::line::cap_add(s.last, w), 1);
        let s1 = if wrapped {
            s.st_new_line(ctx)
        } else {
            s
        };
        let ls1 = if wrapped {
            true
        } else {
            line_start
        };
        if wrapped {
            crate::render::lemma_new_line_wf(s, ctx);
        }
        let s2 = if !ls1 && s1.last != 0 {
            s1.st_push_span(SpanV { text: seq![' '], style, kind: SpanKind::Join })
        } else {
            s1
        };
        if !ls1 && s1.last != 0 {
            crate::render::lemma_push_span_wf(
                s1,
                SpanV { text: seq![' '], style, kind: SpanKind::Join },
            );
        }
        let sp = SpanV { text: words[i], style, kind };
        let s3 = s2.st_push_span(sp);
        crate::render::lemma_push_span_wf(s2, sp);
        if wrapped {
            // The word opens a fresh line: at most the indentation stands
            // before it, so the line is a word alone whatever its width.
            assert(s3.lines.len() == s.lines.len() + 1);
            assert(forall|k: int| 0 <= k < s.lines.len() ==> s3.lines[k] == s.lines[k]);
            let nl = s1.lines.last();
            assert(nl.len() <= 1);
            assert(nl.len() == 1 ==> nl[0].kind == SpanKind::Indent);
            assert(s3.lines.last() == nl.push(sp));
            assert(word_alone(s3.lines.last()));
            assert(line_ok(s3.lines.last(), s.max));
        } else {
            // The word fits: the current line, joining space included, stays
            // within the wrap column.
            assert(s3.lines.len() == s.lines.len());
            assert(forall|k: int| 0 <= k < s.lines.len() - 1 ==> s3.lines[k] == s.lines[k]);
            assert(s3.last <= s.max);
            assert(line_width(s3.lines.last()) == s3.last);
            assert(line_ok(s3.lines.last(), s.max));
        }
        lemma_emit_words_width(s3, ctx, words, i + 1, false, kind);
        assert(line_ok(s3.lines[s3.lines.len() - 1], s.max));
        assert forall|k: int| s.lines.len() - 1 <= k < r.lines.len() implies line_ok(
            #[trigger] r.lines[k],
            s.max,
        ) || (k == s.lines.len() - 1 && r.lines[k] == s.lines[k]) by {
            if k < s3.lines.len() - 1 {
                assert(r.lines[k] == s3.lines[k]);
            } else {
                assert(line_ok(r.lines[k], s.max) || (k == s3.lines.len() - 1 && r.lines[k]
                    == s3.lines[k]));
            }
        }
    }
}

} // verus!
