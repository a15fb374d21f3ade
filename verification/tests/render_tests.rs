use simple_rss::dom::Attr;
use simple_rss::dom::Node;
use simple_rss::dom::Tag;
use simple_rss::line::Line;
use simple_rss::line::SpanKind;
use simple_rss::render::render;

fn t(s: &str) -> Vec<char> {
    s.chars().collect()
}

fn text(s: &str) -> Node {
    Node::Text { text: t(s) }
}

fn el(tag: Tag, children: Vec<Node>) -> Node {
    Node::Element { tag, attrs: vec![], children }
}

fn el_attr(tag: Tag, attrs: Vec<(&str, &str)>, children: Vec<Node>) -> Node {
    let attrs = attrs
        .into_iter()
        .map(|(n, v)| Attr { name: t(n), value: t(v) })
        .collect();
    Node::Element { tag, attrs, children }
}

fn doc(children: Vec<Node>) -> Node {
    Node::Document { children }
}

fn line_str(l: &Line) -> String {
    l.spans
        .iter()
        .map(|s| s.text.iter().collect::<String>())
        .collect::<Vec<_>>()
        .join("")
}

fn render_lines(n: &Node, w: usize) -> Vec<String> {
    render(n, w).iter().map(line_str).collect()
}

#[test]
fn scenario_link_and_punctuation() {
    let tree = doc(vec![el(
        Tag::Other,
        vec![
            text("Hello "),
            el_attr(Tag::A, vec![("href", "http://x")], vec![text("there")]),
            text("."),
        ],
    )]);
    let lines = render_lines(&tree, 80);
    assert_eq!(lines, vec!["", "", "Hello [there](http://x)."]);
}

#[test]
fn scenario_unordered_list() {
    let tree = doc(vec![el(
        Tag::Ul,
        vec![
            el(Tag::Other, vec![text("a")]),
            el(Tag::Other, vec![text("b")]),
        ],
    )]);
    let lines = render_lines(&tree, 80);
    assert_eq!(lines, vec!["", "  - a", "  - b"]);
}

#[test]
fn scenario_heading_then_paragraph() {
    let tree = doc(vec![
        el(Tag::H2, vec![text("Title")]),
        el(Tag::Other, vec![text("Body text")]),
    ]);
    let lines = render_lines(&tree, 80);
    assert_eq!(lines, vec!["", "", "", "## Title", "", "Body text"]);
}

#[test]
fn scenario_code_block_preserves_lines_and_tabs() {
    let tree = doc(vec![el(
        Tag::Pre,
        vec![el(Tag::Code, vec![text("line1\n\tline2")])],
    )]);
    for width in [10usize, 80, 200] {
        let lines = render_lines(&tree, width);
        assert_eq!(lines, vec!["", "", "```", "line1", "    line2", "```"]);
    }
}

#[test]
fn scenario_long_word_never_split() {
    let word: String = std::iter::repeat('x').take(50).collect();
    let tree = doc(vec![el(Tag::Other, vec![text(&word)])]);
    let lines = render_lines(&tree, 20);
    assert_eq!(lines, vec!["".to_string(), "".to_string(), "".to_string(), word]);
}

#[test]
fn scenario_ordered_list_skips_empty_item() {
    let tree = doc(vec![el(
        Tag::Ol,
        vec![el(Tag::Other, vec![]), el(Tag::Other, vec![text("x")])],
    )]);
    let lines = render_lines(&tree, 80);
    assert_eq!(lines, vec!["", "  1. x"]);
}

#[test]
fn ordered_list_numbers_only_rendered_items() {
    let tree = doc(vec![el(
        Tag::Ol,
        vec![
            el(Tag::Other, vec![text("first")]),
            el(Tag::Other, vec![text("   ")]),
            el(Tag::Other, vec![text("second")]),
        ],
    )]);
    let lines = render_lines(&tree, 80);
    assert_eq!(lines, vec!["", "  1. first", "  2. second"]);
}

#[test]
fn rendering_twice_yields_identical_output() {
    let tree = doc(vec![
        el(Tag::H1, vec![text("A heading")]),
        el(
            Tag::Other,
            vec![
                text("Some body with "),
                el(Tag::Strong, vec![text("bold")]),
                text(" words."),
            ],
        ),
    ]);
    let first = render(&tree, 24);
    let second = render(&tree, 24);
    assert_eq!(format!("{:?}", first), format!("{:?}", second));
}

#[test]
fn width_invariant_on_wrapped_paragraph() {
    let tree = doc(vec![el(
        Tag::Other,
        vec![text("alpha beta gamma delta epsilon zeta eta theta")],
    )]);
    let max = 11usize;
    let lines = render(&tree, max);
    for line in &lines {
        let s = line_str(&line);
        let width = s.chars().count(); // plain ASCII: one column per char
        assert!(width <= max, "line {:?} wider than the wrap column", s);
    }
}

#[test]
fn order_preservation_strips_markup() {
    let tree = doc(vec![el(
        Tag::Other,
        vec![
            text("one two "),
            el(Tag::Em, vec![text("three")]),
            text(" four"),
            el(Tag::Ul, vec![el(Tag::Other, vec![text("five")])]),
        ],
    )]);
    let lines = render(&tree, 80);
    let mut content: Vec<String> = Vec::new();
    for line in &lines {
        for sp in &line.spans {
            if sp.kind == SpanKind::Content {
                content.push(sp.text.iter().collect());
            }
        }
    }
    assert_eq!(content, vec!["one", "two", "three", "four", "five"]);
}

#[test]
fn empty_subtree_triggers_no_paragraph_break() {
    let with_empty = doc(vec![
        el(Tag::Other, vec![text("a")]),
        el(
            Tag::Other,
            vec![Node::Comment, text("   \n  "), el(Tag::Img, vec![])],
        ),
        el(Tag::Other, vec![text("b")]),
    ]);
    let without = doc(vec![
        el(Tag::Other, vec![text("a")]),
        el(Tag::Other, vec![text("b")]),
    ]);
    assert_eq!(render_lines(&with_empty, 80), render_lines(&without, 80));
}

#[test]
fn ignored_tags_render_nothing() {
    let tree = doc(vec![
        el(Tag::Script, vec![text("var x = 1;")]),
        el(Tag::Other, vec![text("visible")]),
    ]);
    let lines = render_lines(&tree, 80);
    assert_eq!(lines, vec!["", "", "visible"]);
}

#[test]
fn wide_characters_wrap_by_display_width() {
    // Two CJK characters are four columns wide; with a byte- or char-count
    // measure the second word would stay on the first line.
    let tree = doc(vec![el(Tag::Other, vec![text("ab \u{4f60}\u{597d}")])]);
    let lines = render_lines(&tree, 5);
    assert_eq!(lines, vec!["", "", "ab", "\u{4f60}\u{597d}"]);
}

#[test]
fn requires_space_suppressed_before_comma_and_semicolon() {
    let tree = doc(vec![el(
        Tag::Other,
        vec![el(Tag::Strong, vec![text("x")]), text(", then")],
    )]);
    let lines = render_lines(&tree, 80);
    assert_eq!(lines, vec!["", "", "**x**, then"]);
}

#[test]
fn inline_code_gets_backticks() {
    let tree = doc(vec![el(
        Tag::Other,
        vec![text("run "), el(Tag::Code, vec![text("make")]), text(" now")],
    )]);
    let lines = render_lines(&tree, 80);
    assert_eq!(lines, vec!["", "", "run `make` now"]);
}

#[test]
fn link_without_href_gets_empty_target() {
    let tree = doc(vec![el(
        Tag::Other,
        vec![el(Tag::A, vec![text("here")])],
    )]);
    let lines = render_lines(&tree, 80);
    assert_eq!(lines, vec!["", "", "[here]()"]);
}

#[test]
fn nested_list_indents_deeper() {
    let tree = doc(vec![el(
        Tag::Ul,
        vec![el(
            Tag::Other,
            vec![
                text("outer"),
                el(Tag::Ul, vec![el(Tag::Other, vec![text("inner")])]),
            ],
        )],
    )]);
    let lines = render_lines(&tree, 80);
    assert_eq!(lines, vec!["", "  - outer", "    - inner"]);
}

fn span_cls(class: &str, body: &str) -> Node {
    el_attr(Tag::Span, vec![("class", class)], vec![text(body)])
}

#[test]
fn simple() {
    // A highlighted protobuf snippet inside a fenced code block, as an HTML
    // parser delivers it: span-wrapped tokens and literal newlines.
    let code_children = vec![
        span_cls("kn", "package"),
        text(" "),
        span_cls("nn", "google"),
        span_cls("o", "."),
        span_cls("k", "rpc"),
        span_cls("p", ";"),
        text("\n"),
        span_cls("kd", "enum"),
        text(" "),
        span_cls("n", "Code"),
        text(" "),
        span_cls("p", "{"),
        text("\n  "),
        span_cls("na", "OK"),
        text(" "),
        span_cls("o", "="),
        text(" "),
        span_cls("mi", "0"),
        span_cls("p", ";"),
        text("\n  "),
        span_cls("na", "CANCELLED"),
        text(" "),
        span_cls("o", "="),
        text(" "),
        span_cls("mi", "1"),
        span_cls("p", ";"),
        text("\n  "),
        span_cls("na", "UNKNOWN"),
        text(" "),
        span_cls("o", "="),
        text(" "),
        span_cls("mi", "2"),
        span_cls("p", ";"),
        text("\n  "),
        span_cls("c1", "// ..."),
        text("\n"),
        span_cls("p", "}"),
        text("\n\n"),
        span_cls("kn", "package"),
        text(" "),
        span_cls("nn", "google"),
        span_cls("o", "."),
        span_cls("n", "protobuf"),
        span_cls("p", ";"),
        text("\n"),
        span_cls("kd", "message"),
        text(" "),
        span_cls("nc", "FieldDescriptorProto"),
        text(" "),
        span_cls("p", "{"),
        text("\n  "),
        span_cls("kd", "enum"),
        text(" "),
        span_cls("n", "Type"),
        text(" "),
        span_cls("p", "{"),
        text("\n    "),
        span_cls("c1", "// 0 is reserved for errors."),
        text("\n    "),
        span_cls("na", "TYPE_DOUBLE"),
        text(" "),
        span_cls("o", "="),
        text(" "),
        span_cls("mi", "1"),
        span_cls("p", ";"),
        text("\n    "),
        span_cls("na", "TYPE_FLOAT"),
        text(" "),
        span_cls("o", "="),
        text(" "),
        span_cls("mi", "2"),
        span_cls("p", ";"),
        text("\n    "),
        span_cls("na", "TYPE_INT64"),
        text(" "),
        span_cls("o", "="),
        text(" "),
        span_cls("mi", "3"),
        span_cls("p", ";"),
        text("\n    "),
        span_cls("c1", "// ..."),
        text("\n  "),
        span_cls("p", "}"),
        text("\n"),
        span_cls("p", "}"),
    ];
    let tree = doc(vec![el(
        Tag::Other,
        vec![
            el(Tag::Head, vec![]),
            el(
                Tag::Other,
                vec![el(
                    Tag::Pre,
                    vec![el_attr(
                        Tag::Code,
                        vec![("class", "language-protobuf"), ("data-lang", "protobuf")],
                        code_children,
                    )],
                )],
            ),
        ],
    )]);
    let lines = render(&tree, 120);
    println!("{:?}", lines);
}

#[test]
fn empty_document_renders_one_empty_line() {
    let tree = doc(vec![]);
    assert_eq!(render_lines(&tree, 80), vec![""]);
}

#[test]
fn width_one_still_renders_every_word() {
    let tree = doc(vec![el(Tag::Other, vec![text("a bb ccc")])]);
    let lines = render_lines(&tree, 1);
    assert_eq!(lines, vec!["", "", "", "a", "bb", "ccc"]);
}

#[test]
fn raw_block_keeps_interior_blank_lines() {
    let tree = doc(vec![el(
        Tag::Pre,
        vec![el(Tag::Code, vec![text("a\n\nb\n")])],
    )]);
    let lines = render_lines(&tree, 80);
    assert_eq!(lines, vec!["", "", "```", "a", "", "b", "", "```"]);
}

#[test]
fn span_lookahead_skips_into_descendants() {
    // The separating space is dropped because the span's first real
    // character, found through the nested element, is a period.
    let tree = doc(vec![el(
        Tag::Other,
        vec![
            el(Tag::Strong, vec![text("x")]),
            el(Tag::Span, vec![el(Tag::Span, vec![text(". y")])]),
        ],
    )]);
    let lines = render_lines(&tree, 80);
    assert_eq!(lines, vec!["", "", "**x**. y"]);
}
