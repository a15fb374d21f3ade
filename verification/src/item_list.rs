//! The item-list panel's logic: what a key press does given the focus, the
//! selection and the configuration, and how one item is laid out as styled
//! list rows (wrapped title, channel name and date).
use vstd::prelude::*;

use crate::data::Item;
use crate::event::EventState;
use crate::event::KeyboardEvent;
use crate::line::text_width;
use crate::line::width_of;
use crate::line::Fg;
use crate::line::Line;
use crate::line::Span;
use crate::line::SpanKind;
use crate::line::SpanV;
use crate::line::TextStyle;
use crate::render::blank;
use crate::render::copy_chars;
use crate::render::make_spaces;
use crate::text::append_chars;

verus! {

/// Configuration of the item-list panel.
#[derive(Debug)]
pub struct Config {
    /// A caller-supplied message for the empty list, shown instead of the
    /// built-in one.
    pub custom_empty_list_msg: Option<Vec<Line>>,
    pub disable_read_status: bool,
    pub disable_channel_names: bool,
    pub disable_browser_open: bool,
}

/// An outside effect the caller must perform for the item list.
#[derive(Debug)]
pub enum ListAction {
    /// Open the item's link in the browser.
    OpenBrowser { url: Vec<char> },
    /// Start fetching the item's link and announce the load.
    StartLoad { url: Vec<char> },
    /// Mark the item at `index` read or unread in the store.
    SetRead { index: usize, read: bool },
    /// Move the selection up.
    SelectPrevious,
    /// Move the selection down.
    SelectNext,
}

/// What a key press asks of the item list: the browser key works wherever
/// the focus is; everything else needs focus. Enter starts loading the
/// selected item; space toggles its read mark; opening or loading an item
/// also marks it read, unless read tracking is off. A selection index past
/// the end of the list asks for nothing.
pub open spec fn spec_list_decision_ok(
    key: KeyboardEvent,
    focused: bool,
    cfg: Config,
    selected: Option<usize>,
    items: Seq<Item>,
    acts: Seq<ListAction>,
    r: EventState,
) -> bool {
    if key == KeyboardEvent::Open && !cfg.disable_browser_open {
        r == EventState::Handled && (match selected {
            Some(s) => {
                if s < items.len() {
                    &&& acts.len() == (if cfg.disable_read_status {
                        1int
                    } else {
                        2int
                    })
                    &&& (acts[0] matches ListAction::OpenBrowser { url } && url@
                        == items[s as int].link@)
                    &&& (!cfg.disable_read_status ==> acts[1] == (ListAction::SetRead {
                        index: s,
                        read: true,
                    }))
                } else {
                    acts.len() == 0
                }
            },
            None => acts.len() == 0,
        })
    } else if !focused {
        r == EventState::Ignored && acts.len() == 0
    } else {
        match key {
            KeyboardEvent::Up => r == EventState::Handled && acts.len() == 1 && acts[0]
                == ListAction::SelectPrevious,
            KeyboardEvent::Down => r == EventState::Handled && acts.len() == 1 && acts[0]
                == ListAction::SelectNext,
            KeyboardEvent::Enter => r == EventState::Handled && (match selected {
                Some(s) => {
                    if s < items.len() {
                        &&& acts.len() == (if cfg.disable_read_status {
                            1int
                        } else {
                            2int
                        })
                        &&& (acts[0] matches ListAction::StartLoad { url } && url@
                            == items[s as int].link@)
                        &&& (!cfg.disable_read_status ==> acts[1] == (ListAction::SetRead {
                            index: s,
                            read: true,
                        }))
                    } else {
                        acts.len() == 0
                    }
                },
                None => acts.len() == 0,
            }),
            KeyboardEvent::Space => r == EventState::Handled && (match selected {
                Some(s) => {
                    if s < items.len() && !cfg.disable_read_status {
                        acts.len() == 1 && acts[0] == (ListAction::SetRead {
                            index: s,
                            read: !items[s as int].read,
                        })
                    } else {
                        acts.len() == 0
                    }
                },
                None => acts.len() == 0,
            }),
            _ => r == EventState::Ignored && acts.len() == 0,
        }
    }
}

/// Decide what a key press does to the item list; the caller performs the
/// returned actions in order.
pub fn list_key_decision(
    key: KeyboardEvent,
    focused: bool,
    cfg: &Config,
    selected: Option<usize>,
    items: &Vec<Item>,
) -> (r: (Vec<ListAction>, EventState))
    ensures
        spec_list_decision_ok(key, focused, *cfg, selected, items@, r.0@, r.1),
{
    let mut acts: Vec<ListAction> = Vec::new();
    if key == KeyboardEvent::Open && !cfg.disable_browser_open {
        match selected {
            Some(s) => {
                if s < items.len() {
                    acts.push(ListAction::OpenBrowser { url: copy_chars(&items[s].link) });
                    if !cfg.disable_read_status {
                        acts.push(ListAction::SetRead { index: s, read: true });
                    }
                }
            },
            None => {},
        }
        return (acts, EventState::Handled);
    }
    if !focused {
        return (acts, EventState::Ignored);
    }
    match key {
        KeyboardEvent::Up => {
            acts.push(ListAction::SelectPrevious);
            (acts, EventState::Handled)
        },
        KeyboardEvent::Down => {
            acts.push(ListAction::SelectNext);
            (acts, EventState::Handled)
        },
        KeyboardEvent::Enter => {
            match selected {
                Some(s) => {
                    if s < items.len() {
                        acts.push(ListAction::StartLoad { url: copy_chars(&items[s].link) });
                        if !cfg.disable_read_status {
                            acts.push(ListAction::SetRead { index: s, read: true });
                        }
                    }
                },
                None => {},
            }
            (acts, EventState::Handled)
        },
        KeyboardEvent::Space => {
            match selected {
                Some(s) => {
                    if s < items.len() && !cfg.disable_read_status {
                        let new_read = !items[s].read;
                        acts.push(ListAction::SetRead { index: s, read: new_read });
                    }
                },
                None => {},
            }
            (acts, EventState::Handled)
        },
        _ => (acts, EventState::Ignored),
    }
}

/// The lines `textwrap` wraps a text into at a width, under an initial and a
/// subsequent indent, with over-long words broken.
pub uninterp spec fn wrap_of(
    text: Seq<char>,
    width: int,
    initial_indent: Seq<char>,
    subsequent_indent: Seq<char>,
) -> Seq<Seq<char>>;

/// Relies on `textwrap::wrap` with `break_words(true)` and the two indents:
/// the wrapped lines are a function of the text, width and indents alone.
#[verifier::external_body]
fn wrap_text(
    text: &Vec<char>,
    width: usize,
    initial_indent: &Vec<char>,
    subsequent_indent: &Vec<char>,
) -> (r: Vec<Vec<char>>)
    ensures
        r@.map_values(|t: Vec<char>| t@) == wrap_of(
            text@,
            width as int,
            initial_indent@,
            subsequent_indent@,
        ),
{
    let text: String = text.iter().collect();
    let ii: String = initial_indent.iter().collect();
    let si: String = subsequent_indent.iter().collect();
    let opts = textwrap::Options::new(width).break_words(true).initial_indent(
        &ii,
    ).subsequent_indent(&si);
    textwrap::wrap(&text, &opts).into_iter().map(|l| l.chars().collect()).collect()
}

/// The `%Y-%m-%d` label of a Unix timestamp; empty outside the range chrono
/// represents.
pub uninterp spec fn date_label_of(ts: int) -> Seq<char>;

/// Relies on `chrono::DateTime::from_timestamp` and its `%Y-%m-%d`
/// formatting: the label is a function of the timestamp alone.
#[verifier::external_body]
fn date_label(ts: i64) -> (r: Vec<char>)
    ensures
        r@ == date_label_of(ts as int),
{
    match chrono::DateTime::from_timestamp(ts, 0) {
        Some(d) => d.format("%Y-%m-%d").to_string().chars().collect(),
        None => Vec::new(),
    }
}

/// Style of a wrapped title row.
pub open spec fn title_style() -> TextStyle {
    TextStyle { fg: Fg::Heading, bold: true, italic: false }
}

/// Style of a channel-name row.
pub open spec fn channel_style() -> TextStyle {
    TextStyle { fg: Fg::Gray, bold: true, italic: false }
}

/// Style of a date span.
pub open spec fn date_style() -> TextStyle {
    TextStyle { fg: Fg::Gray, bold: false, italic: false }
}

/// One full-line span of the given style.
pub open spec fn full_row(text: Seq<char>, style: TextStyle) -> Seq<SpanV> {
    seq![SpanV { text, style, kind: SpanKind::Content }]
}

/// A sequence of texts, each as one row of the given style.
pub open spec fn rows_of(texts: Seq<Seq<char>>, style: TextStyle) -> Seq<Seq<SpanV>> {
    texts.map_values(|t: Seq<char>| full_row(t, style))
}

/// The title's initial indent: the read mark, or nothing when read marks
/// are off.
pub open spec fn spec_read_mark(it: Item, cfg: Config) -> Seq<char> {
    if cfg.disable_read_status {
        Seq::empty()
    } else if it.read {
        seq!['[', 'X', ']', ' ']
    } else {
        seq!['[', ' ', ']', ' ']
    }
}

/// The hanging indent under the read mark.
pub open spec fn spec_hang(cfg: Config) -> Seq<char> {
    if cfg.disable_read_status {
        Seq::empty()
    } else {
        blank(4)
    }
}

/// The rows one item occupies in the list, always ended by one blank row:
/// the wrapped title; then, with no date, the wrapped channel name; with a
/// date, one row holding channel name and right-aligned date when both fit,
/// else the wrapped channel name with the date on its own row. Channel rows
/// vanish when channel names are off.
pub open spec fn spec_item_rows(it: Item, width: int, cfg: Config) -> Seq<Seq<SpanV>> {
    let title_rows = rows_of(
        wrap_of(it.title@, width - 1, spec_read_mark(it, cfg), spec_hang(cfg)),
        title_style(),
    );
    let channel_wrapped = rows_of(
        wrap_of(it.channel_name@, width - 2, spec_hang(cfg), spec_hang(cfg)),
        channel_style(),
    );
    let tail = match it.pub_date {
        None => {
            if cfg.disable_channel_names {
                Seq::empty()
            } else {
                channel_wrapped
            }
        },
        Some(ts) => {
            let label = date_label_of(ts as int);
            if cfg.disable_channel_names {
                seq![full_row(spec_hang(cfg) + label, date_style())]
            } else {
                let total = width_of(it.channel_name@) + width_of(label) + (
                if cfg.disable_read_status {
                    0int
                } else {
                    4int
                });
                if total + 3 < width {
                    seq![
                        (if cfg.disable_read_status {
                            Seq::<SpanV>::empty()
                        } else {
                            seq![
                                SpanV {
                                    text: blank(4),
                                    style: TextStyle::spec_plain(),
                                    kind: SpanKind::Indent,
                                },
                            ]
                        }) + seq![
                            SpanV {
                                text: it.channel_name@,
                                style: channel_style(),
                                kind: SpanKind::Content,
                            },
                            SpanV {
                                text: blank((width - total - 1) as nat),
                                style: TextStyle::spec_plain(),
                                kind: SpanKind::Join,
                            },
                            SpanV { text: label, style: date_style(), kind: SpanKind::Content },
                        ],
                    ]
                } else {
                    channel_wrapped + seq![full_row(blank(4) + label, date_style())]
                }
            }
        },
    };
    title_rows + tail + seq![Seq::<SpanV>::empty()]
}

/// Lay one item out as list rows.
pub fn item_rows(it: &Item, width: usize, cfg: &Config) -> (r: Vec<Line>)
    requires
        width >= 4,
    ensures
        r@.map_values(|l: Line| l@) == spec_item_rows(*it, width as int, *cfg),
{
    let ghost goal = spec_item_rows(*it, width as int, *cfg);
    let title_st = TextStyle { fg: Fg::Heading, bold: true, italic: false };
    let channel_st = TextStyle { fg: Fg::Gray, bold: true, italic: false };
    let date_st = TextStyle { fg: Fg::Gray, bold: false, italic: false };
    let mark: Vec<char> = if cfg.disable_read_status {
        Vec::new()
    } else if it.read {
        vec!['[', 'X', ']', ' ']
    } else {
        vec!['[', ' ', ']', ' ']
    };
    let hang: Vec<char> = if cfg.disable_read_status {
        Vec::new()
    } else {
        make_spaces(4)
    };
    proof {
        assert(mark@ =~= spec_read_mark(*it, *cfg));
        assert(hang@ =~= spec_hang(*cfg));
    }
    let ghost title_rows = rows_of(
        wrap_of(it.title@, width - 1, spec_read_mark(*it, *cfg), spec_hang(*cfg)),
        title_style(),
    );
    let mut rows: Vec<Line> = Vec::new();
    proof {
        assert(rows@.map_values(|l: Line| l@) =~= Seq::<Seq<SpanV>>::empty());
    }
    let title_lines = wrap_text(&it.title, width - 1, &mark, &hang);
    push_rows(&mut rows, title_lines, title_st);
    proof {
        assert(Seq::<Seq<SpanV>>::empty() + title_rows =~= title_rows);
    }
    let ghost channel_rows = rows_of(
        wrap_of(it.channel_name@, width - 2, spec_hang(*cfg), spec_hang(*cfg)),
        channel_style(),
    );
    match it.pub_date {
        None => {
            if !cfg.disable_channel_names {
                let channel_lines = wrap_text(&it.channel_name, width - 2, &hang, &hang);
                push_rows(&mut rows, channel_lines, channel_st);
            } else {
                proof {
                    assert(title_rows + Seq::<Seq<SpanV>>::empty() =~= title_rows);
                }
            }
        },
        Some(ts) => {
            let label = date_label(ts);
            let ghost labelv = date_label_of(ts as int);
            if cfg.disable_channel_names {
                let mut text = copy_chars(&hang);
                append_chars(&mut text, &label);
                let mut line = Line::empty();
                line.spans.push(Span { text, style: date_st, kind: SpanKind::Content });
                let ghost before = rows@.map_values(|l: Line| l@);
                proof {
                    assert(line@ =~= full_row(spec_hang(*cfg) + labelv, date_style()));
                }
                let ghost lv = line@;
                rows.push(line);
                proof {
                    assert(rows@.map_values(|l: Line| l@) =~= before.push(lv));
                    assert(title_rows + seq![full_row(spec_hang(*cfg) + labelv, date_style())]
                        =~= title_rows.push(full_row(spec_hang(*cfg) + labelv, date_style())));
                }
            } else {
                let cw = text_width(&it.channel_name);
                let lw = text_width(&label);
                let extra: usize = if cfg.disable_read_status {
                    0
                } else {
                    4
                };
                let total = crate::line::width_add(crate::line::width_add(cw, lw), extra);
                let ghost total_math = width_of(it.channel_name@) + width_of(labelv) + (
                if cfg.disable_read_status {
                    0int
                } else {
                    4int
                });
                let fits = total < width - 3;
                proof {
                    assert(fits == (total_math + 3 < width));
                    if fits {
                        assert(total == total_math);
                    }
                }
                if fits {
                    let mut line = Line::empty();
                    if !cfg.disable_read_status {
                        line.spans.push(
                            Span {
                                text: make_spaces(4),
                                style: TextStyle::plain(),
                                kind: SpanKind::Indent,
                            },
                        );
                    }
                    line.spans.push(
                        Span {
                            text: copy_chars(&it.channel_name),
                            style: channel_st,
                            kind: SpanKind::Content,
                        },
                    );
                    line.spans.push(
                        Span {
                            text: make_spaces(width - total - 1),
                            style: TextStyle::plain(),
                            kind: SpanKind::Join,
                        },
                    );
                    line.spans.push(Span { text: label, style: date_st, kind: SpanKind::Content });
                    let ghost spec_line = (if cfg.disable_read_status {
                        Seq::<SpanV>::empty()
                    } else {
                        seq![
                            SpanV {
                                text: blank(4),
                                style: TextStyle::spec_plain(),
                                kind: SpanKind::Indent,
                            },
                        ]
                    }) + seq![
                        SpanV {
                            text: it.channel_name@,
                            style: channel_style(),
                            kind: SpanKind::Content,
                        },
                        SpanV {
                            text: blank((width - total_math - 1) as nat),
                            style: TextStyle::spec_plain(),
                            kind: SpanKind::Join,
                        },
                        SpanV { text: labelv, style: date_style(), kind: SpanKind::Content },
                    ];
                    proof {
                        assert(line@ =~= spec_line);
                    }
                    let ghost before = rows@.map_values(|l: Line| l@);
                    let ghost lv = line@;
                    rows.push(line);
                    proof {
                        assert(rows@.map_values(|l: Line| l@) =~= before.push(lv));
                        assert(title_rows + seq![spec_line] =~= title_rows.push(spec_line));
                    }
                } else {
                    let channel_lines = wrap_text(&it.channel_name, width - 2, &hang, &hang);
                    push_rows(&mut rows, channel_lines, channel_st);
                    let mut text = make_spaces(4);
                    append_chars(&mut text, &label);
                    let mut line = Line::empty();
                    line.spans.push(Span { text, style: date_st, kind: SpanKind::Content });
                    let ghost before = rows@.map_values(|l: Line| l@);
                    proof {
                        assert(line@ =~= full_row(blank(4) + labelv, date_style()));
                    }
                    let ghost lv = line@;
                    rows.push(line);
                    proof {
                        assert(rows@.map_values(|l: Line| l@) =~= before.push(lv));
                        assert(title_rows + (channel_rows + seq![
                            full_row(blank(4) + labelv, date_style()),
                        ]) =~= (title_rows + channel_rows).push(
                            full_row(blank(4) + labelv, date_style()),
                        ));
                    }
                }
            }
        },
    }
    let ghost before_last = rows@.map_values(|l: Line| l@);
    rows.push(Line::empty());
    proof {
        assert(rows@.map_values(|l: Line| l@) =~= before_last.push(Seq::<SpanV>::empty()));
        assert(goal =~= before_last.push(Seq::<SpanV>::empty()));
    }
    rows
}

/// Append each text as one row of the given style.
fn push_rows(rows: &mut Vec<Line>, texts: Vec<Vec<char>>, style: TextStyle)
    ensures
        final(rows)@.map_values(|l: Line| l@) == old(rows)@.map_values(|l: Line| l@) + rows_of(
            texts@.map_values(|t: Vec<char>| t@),
            style,
        ),
{
    let ghost texts0 = texts@.map_values(|t: Vec<char>| t@);
    let mut rest = texts;
    let ghost mut i: int = 0;
    while rest.len() > 0
        invariant
            0 <= i,
            i + rest@.len() == texts0.len(),
            forall|j: int| 0 <= j < rest@.len() ==> rest@[j]@ == texts0[i + j],
            rows@.map_values(|l: Line| l@) == old(rows)@.map_values(|l: Line| l@) + rows_of(
                texts0.subrange(0, i),
                style,
            ),
        decreases rest.len(),
    {
        let t = rest.remove(0);
        let mut line = Line::empty();
        line.spans.push(Span { text: t, style, kind: SpanKind::Content });
        let ghost before = rows@.map_values(|l: Line| l@);
        let ghost lv = line@;
        rows.push(line);
        proof {
            i = i + 1;
            assert(lv =~= full_row(texts0[i - 1], style));
            assert(rows@.map_values(|l: Line| l@) =~= before.push(lv));
            assert(rows_of(texts0.subrange(0, i), style) =~= rows_of(
                texts0.subrange(0, i - 1),
                style,
            ).push(full_row(texts0[i - 1], style)));
        }
    }
    proof {
        assert(texts0.subrange(0, texts0.len() as int) =~= texts0);
    }
}

} // verus!
