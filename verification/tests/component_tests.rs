use simple_rss::content::Content;
use simple_rss::content::ContentState;
use simple_rss::data::add_channel;
use simple_rss::data::channel_idx_cell;
use simple_rss::data::channel_name_cell;
use simple_rss::data::edit_channel;
use simple_rss::data::item_from_entry;
use simple_rss::data::manage_channel;
use simple_rss::data::merge_read_flags;
use simple_rss::data::name_col_width;
use simple_rss::data::pad_center;
use simple_rss::data::remove_channel;
use simple_rss::data::sort_items_by_date_desc;
use simple_rss::data::url_col_width;
use simple_rss::data::Channel;
use simple_rss::data::ChannelCommand;
use simple_rss::data::ChannelOutcome;
use simple_rss::data::Data;
use simple_rss::data::Item;
use simple_rss::event::keyboard_event_of;
use simple_rss::event::Event;
use simple_rss::event::EventState;
use simple_rss::event::KeyInput;
use simple_rss::event::KeyboardEvent;
use simple_rss::event::ToastEvent;
use simple_rss::focus::Focus;
use simple_rss::focus::FocusState;
use simple_rss::item_list::item_rows;
use simple_rss::item_list::list_key_decision;
use simple_rss::item_list::Config;
use simple_rss::item_list::ListAction;
use simple_rss::toast::Toast;
use simple_rss::toast::ToastState;

fn t(s: &str) -> Vec<char> {
    s.chars().collect()
}

fn s(v: &[char]) -> String {
    v.iter().collect()
}

fn item(id: &str, title: &str, date: Option<i64>, link: &str, read: bool) -> Item {
    Item {
        id: t(id),
        channel_name: t("chan"),
        title: t(title),
        description: None,
        pub_date: date,
        link: t(link),
        read,
    }
}

#[test]
fn event_state_or_and_is_handled() {
    assert!(EventState::Handled.is_handled());
    assert!(!EventState::Ignored.is_handled());
    assert_eq!(EventState::Ignored.or(&EventState::Handled), EventState::Handled);
    assert_eq!(EventState::Handled.or(&EventState::Ignored), EventState::Handled);
    assert_eq!(EventState::Ignored.or(&EventState::Ignored), EventState::Ignored);
}

#[test]
fn keyboard_mapping_matches_bindings() {
    assert_eq!(keyboard_event_of(KeyInput::Character('h')), Some(KeyboardEvent::Left));
    assert_eq!(keyboard_event_of(KeyInput::Character('j')), Some(KeyboardEvent::Down));
    assert_eq!(keyboard_event_of(KeyInput::Character('k')), Some(KeyboardEvent::Up));
    assert_eq!(keyboard_event_of(KeyInput::Character('l')), Some(KeyboardEvent::Right));
    assert_eq!(keyboard_event_of(KeyInput::Character('q')), Some(KeyboardEvent::Back));
    assert_eq!(keyboard_event_of(KeyInput::Character(' ')), Some(KeyboardEvent::Space));
    assert_eq!(keyboard_event_of(KeyInput::Character('o')), Some(KeyboardEvent::Open));
    assert_eq!(keyboard_event_of(KeyInput::Character('?')), Some(KeyboardEvent::Help));
    assert_eq!(keyboard_event_of(KeyInput::Esc), Some(KeyboardEvent::Back));
    assert_eq!(keyboard_event_of(KeyInput::Enter), Some(KeyboardEvent::Enter));
    assert_eq!(keyboard_event_of(KeyInput::Character('z')), None);
    assert_eq!(keyboard_event_of(KeyInput::Other), None);
}

#[test]
fn toast_shows_and_hides() {
    let mut toast = Toast::new(30);
    assert!(toast.hidden());
    let st = toast.handle_event(&Event::Toast(ToastEvent::Loading("fetching".to_string())));
    assert_eq!(st, EventState::Handled);
    match &toast.state {
        ToastState::Loading { message, ticks } => {
            assert_eq!(message, "fetching");
            assert_eq!(*ticks, 0);
        }
        other => panic!("unexpected state {:?}", other),
    }
    toast.handle_event(&Event::Tick);
    match &toast.state {
        ToastState::Loading { ticks, .. } => assert_eq!(*ticks, 1),
        other => panic!("unexpected state {:?}", other),
    }
    let st = toast.handle_event(&Event::Toast(ToastEvent::Hide));
    assert_eq!(st, EventState::Handled);
    assert!(toast.hidden());
}

#[test]
fn toast_error_times_out() {
    let mut toast = Toast::new(30);
    toast.handle_event(&Event::Toast(ToastEvent::Error("boom".to_string())));
    toast.state = ToastState::Error { error: "boom".to_string(), ticks: 151 };
    let st = toast.handle_event(&Event::Tick);
    assert_eq!(st, EventState::Handled);
    assert!(toast.hidden());
    assert_eq!(toast.handle_event(&Event::Tick), EventState::Ignored);
}

#[test]
fn focus_moves_between_panels() {
    let mut f = FocusState::new();
    assert_eq!(f.focus, Focus::ItemList);
    assert_eq!(f.handle_event(&Event::Keyboard(KeyboardEvent::Right)), EventState::Handled);
    assert_eq!(f.focus, Focus::Content);
    assert_eq!(f.handle_event(&Event::Keyboard(KeyboardEvent::Left)), EventState::Handled);
    assert_eq!(f.focus, Focus::ItemList);
    assert_eq!(f.handle_event(&Event::Keyboard(KeyboardEvent::Back)), EventState::Ignored);
    assert_eq!(f.handle_event(&Event::StartLoadingItem), EventState::Handled);
    assert_eq!(f.focus, Focus::Content);
    assert_eq!(f.handle_event(&Event::Keyboard(KeyboardEvent::Help)), EventState::Handled);
    assert_eq!(f.focus, Focus::Help);
    assert_eq!(f.prev_focus, Some(Focus::Content));
    assert_eq!(f.handle_event(&Event::Keyboard(KeyboardEvent::Back)), EventState::Handled);
    assert_eq!(f.focus, Focus::Content);
}

#[test]
fn content_loads_and_scrolls() {
    let mut c = Content::new(true);
    assert_eq!(c.handle_event(&Event::StartLoadingItem), EventState::Handled);
    assert!(matches!(c.state, ContentState::Loading(0)));
    assert_eq!(c.handle_event(&Event::Tick), EventState::Handled);
    assert!(matches!(c.state, ContentState::Loading(1)));
    assert_eq!(
        c.handle_event(&Event::LoadedItem("<p>hi</p>".to_string())),
        EventState::Handled
    );
    match &c.state {
        ContentState::Data(d) => {
            assert_eq!(d.raw_text, "<p>hi</p>");
            assert_eq!(d.scroll_offset, 0);
            assert!(d.render_cache.is_none());
        }
        other => panic!("unexpected state {:?}", other),
    }
    assert!(!c.cache_valid(40));
    let lines = simple_rss::render::render(
        &simple_rss::dom::Node::Text { text: t("hello world again and again") },
        10,
    );
    c.set_cache(lines, 40);
    assert!(c.cache_valid(40));
    assert!(!c.cache_valid(41));
    // Scrolling up at the top stays put; scrolling down is capped.
    assert_eq!(c.handle_event(&Event::Keyboard(KeyboardEvent::Up)), EventState::Handled);
    match &c.state {
        ContentState::Data(d) => assert_eq!(d.scroll_offset, 0),
        other => panic!("unexpected state {:?}", other),
    }
    assert_eq!(c.handle_event(&Event::Keyboard(KeyboardEvent::Down)), EventState::Handled);
    match &c.state {
        ContentState::Data(d) => assert!(d.scroll_offset <= 1),
        other => panic!("unexpected state {:?}", other),
    }
}

#[test]
fn manage_channel_add_remove_edit() {
    let mut data = Data { channels: vec![], items: vec![] };
    let out = manage_channel(
        &mut data,
        ChannelCommand::Add { url: t("http://a"), name: Some(t("A")) },
    );
    assert_eq!(out, ChannelOutcome::Added);
    add_channel(&mut data, Channel { name: None, url: t("http://b") });
    assert_eq!(data.channels.len(), 2);

    let out = manage_channel(
        &mut data,
        ChannelCommand::Edit { idx: 1, name: Some(t("B")), url: None },
    );
    assert_eq!(out, ChannelOutcome::Updated);
    assert_eq!(data.channels[1].name.as_ref().map(|n| s(n)), Some("B".to_string()));
    assert_eq!(s(&data.channels[1].url), "http://b");

    let out = edit_channel(&mut data, 1, None, None);
    assert_eq!(out, ChannelOutcome::NothingToDo);
    let out = edit_channel(&mut data, 9, Some(t("X")), None);
    assert_eq!(out, ChannelOutcome::InvalidIndex);

    assert!(!remove_channel(&mut data, 5));
    let out = manage_channel(&mut data, ChannelCommand::Remove { idx: 0 });
    assert_eq!(out, ChannelOutcome::Removed);
    assert_eq!(data.channels.len(), 1);
    assert_eq!(s(&data.channels[0].url), "http://b");

    let out = manage_channel(&mut data, ChannelCommand::List);
    assert_eq!(out, ChannelOutcome::Listed);
    assert_eq!(data.channels.len(), 1);
}

#[test]
fn sort_orders_newest_first_with_missing_dates_last() {
    let items = vec![
        item("a", "a", Some(100), "l", false),
        item("b", "b", None, "l", false),
        item("c", "c", Some(300), "l", false),
        item("d", "d", Some(200), "l", false),
    ];
    let sorted = sort_items_by_date_desc(items);
    let ids: Vec<String> = sorted.iter().map(|it| s(&it.id)).collect();
    assert_eq!(ids, vec!["c", "d", "a", "b"]);
}

#[test]
fn merge_keeps_read_marks_by_id() {
    let old_items = vec![item("a", "a", None, "l", true), item("b", "b", None, "l", false)];
    let fetched = vec![
        item("b", "b2", None, "l", false),
        item("a", "a2", None, "l", false),
        item("c", "c", None, "l", false),
    ];
    let merged = merge_read_flags(&old_items, fetched);
    let marks: Vec<(String, bool)> = merged.iter().map(|it| (s(&it.id), it.read)).collect();
    assert_eq!(
        marks,
        vec![("b".to_string(), false), ("a".to_string(), true), ("c".to_string(), false)]
    );
}

#[test]
fn item_from_entry_defaults_and_id() {
    let it = item_from_entry(
        &t("http://feed"),
        &None,
        &Some(t("Feed Title")),
        &t("42"),
        Some(t("A post")),
        None,
        Some(1000),
        Some(t("http://feed/42")),
    )
    .unwrap();
    assert_eq!(s(&it.id), "http://feed:42");
    assert_eq!(s(&it.channel_name), "Feed Title");
    assert_eq!(s(&it.title), "A post");
    assert_eq!(it.pub_date, Some(1000));
    assert!(!it.read);

    let none = item_from_entry(
        &t("u"),
        &None,
        &None,
        &t("1"),
        None,
        None,
        None,
        Some(t("l")),
    );
    assert!(none.is_none());

    let unnamed = item_from_entry(
        &t("u"),
        &None,
        &None,
        &t("1"),
        Some(t("t")),
        None,
        None,
        Some(t("l")),
    )
    .unwrap();
    assert_eq!(s(&unnamed.channel_name), "Unnamed Channel");
}

#[test]
fn channel_table_layout() {
    let channels = vec![
        Channel { name: Some(t("World News")), url: t("http://example.com/feed") },
        Channel { name: None, url: t("http://x") },
    ];
    // Widest name is ten columns, plus a space on each side.
    assert_eq!(name_col_width(&channels), 12);
    // Longest url is 23 characters, plus the leading space.
    assert_eq!(url_col_width(&channels), 24);
    assert_eq!(s(&channel_idx_cell(7)), "7   ");
    assert_eq!(s(&channel_idx_cell(12345)), "12345");
    assert_eq!(s(&channel_name_cell(&channels[0].name, 12)), "World News ");
    assert_eq!(s(&channel_name_cell(&channels[1].name, 12)), "           ");
    assert_eq!(s(&pad_center(&t("Name"), 12)), "    Name    ");
    assert_eq!(s(&pad_center(&t("URL"), 6)), " URL  ");
}

#[test]
fn list_decision_open_and_toggle() {
    let cfg = Config {
        custom_empty_list_msg: None,
        disable_read_status: false,
        disable_channel_names: false,
        disable_browser_open: false,
    };
    let items = vec![item("a", "a", None, "http://a", false)];

    // The browser key works even without focus and marks the item read.
    let (acts, st) = list_key_decision(KeyboardEvent::Open, false, &cfg, Some(0), &items);
    assert_eq!(st, EventState::Handled);
    assert_eq!(acts.len(), 2);
    match &acts[0] {
        ListAction::OpenBrowser { url } => assert_eq!(s(url), "http://a"),
        other => panic!("unexpected action {:?}", other),
    }
    assert!(matches!(acts[1], ListAction::SetRead { index: 0, read: true }));

    // Unfocused, everything else is ignored.
    let (acts, st) = list_key_decision(KeyboardEvent::Enter, false, &cfg, Some(0), &items);
    assert_eq!(st, EventState::Ignored);
    assert!(acts.is_empty());

    let (acts, st) = list_key_decision(KeyboardEvent::Enter, true, &cfg, Some(0), &items);
    assert_eq!(st, EventState::Handled);
    assert!(matches!(&acts[0], ListAction::StartLoad { .. }));

    let (acts, st) = list_key_decision(KeyboardEvent::Space, true, &cfg, Some(0), &items);
    assert_eq!(st, EventState::Handled);
    assert!(matches!(acts[0], ListAction::SetRead { index: 0, read: true }));

    let (acts, st) = list_key_decision(KeyboardEvent::Up, true, &cfg, None, &items);
    assert_eq!(st, EventState::Handled);
    assert!(matches!(acts[0], ListAction::SelectPrevious));

    // A stale selection past the end asks for nothing.
    let (acts, st) = list_key_decision(KeyboardEvent::Enter, true, &cfg, Some(9), &items);
    assert_eq!(st, EventState::Handled);
    assert!(acts.is_empty());
}

#[test]
fn item_rows_wraps_title_and_formats_date() {
    let cfg = Config {
        custom_empty_list_msg: None,
        disable_read_status: false,
        disable_channel_names: false,
        disable_browser_open: false,
    };
    let it = item("a", "hello world", Some(0), "l", false);
    let rows = item_rows(&it, 12, &cfg);
    let texts: Vec<String> = rows
        .iter()
        .map(|l| l.spans.iter().map(|sp| s(&sp.text)).collect::<Vec<_>>().join(""))
        .collect();
    // Title wraps at width - 1 under the read mark; the date comes from the
    // Unix epoch; channel and date do not fit on one row at this width.
    assert_eq!(texts[0], "[ ] hello");
    assert_eq!(texts[1], "    world");
    assert!(texts.contains(&"    1970-01-01".to_string()));
    assert_eq!(texts.last().unwrap(), "");
}

#[test]
fn item_rows_one_line_channel_and_date() {
    let cfg = Config {
        custom_empty_list_msg: None,
        disable_read_status: false,
        disable_channel_names: false,
        disable_browser_open: false,
    };
    let it = item("a", "t", Some(86400), "l", true);
    let rows = item_rows(&it, 40, &cfg);
    let texts: Vec<String> = rows
        .iter()
        .map(|l| l.spans.iter().map(|sp| s(&sp.text)).collect::<Vec<_>>().join(""))
        .collect();
    assert_eq!(texts[0], "[X] t");
    // 4 indent + 4 channel + 10 date = 18 wide, fits in 40: one row with the
    // date pushed to the right.
    assert_eq!(texts[1], format!("    chan{}1970-01-02", " ".repeat(40 - 18 - 1)));
    assert_eq!(texts[2], "");
}

#[test]
fn toast_tick_count_saturates_at_the_limit() {
    let mut toast = Toast::new(u32::MAX);
    toast.state = ToastState::Loading { message: "m".to_string(), ticks: u32::MAX };
    assert_eq!(toast.handle_event(&Event::Tick), EventState::Handled);
    match &toast.state {
        ToastState::Loading { ticks, .. } => assert_eq!(*ticks, u32::MAX),
        other => panic!("unexpected state {:?}", other),
    }
}

#[test]
fn sort_keeps_equal_dates_together() {
    let items = vec![
        item("a", "a", Some(5), "l", false),
        item("b", "b", Some(5), "l", true),
        item("c", "c", Some(9), "l", false),
    ];
    let sorted = sort_items_by_date_desc(items);
    assert_eq!(sorted.len(), 3);
    assert_eq!(s(&sorted[0].id), "c");
    let mut tail: Vec<String> = sorted[1..].iter().map(|it| s(&it.id)).collect();
    tail.sort();
    assert_eq!(tail, vec!["a", "b"]);
}

#[test]
fn edit_channel_replaces_url_only() {
    let mut data = Data { channels: vec![Channel { name: Some(t("A")), url: t("u1") }], items: vec![] };
    let out = edit_channel(&mut data, 0, None, Some(t("u2")));
    assert_eq!(out, ChannelOutcome::Updated);
    assert_eq!(data.channels[0].name.as_ref().map(|n| s(n)), Some("A".to_string()));
    assert_eq!(s(&data.channels[0].url), "u2");
}

#[test]
fn content_unfocused_ignores_scrolling() {
    let mut c = Content::new(false);
    c.handle_event(&Event::LoadedItem("text".to_string()));
    assert_eq!(c.handle_event(&Event::Keyboard(KeyboardEvent::Down)), EventState::Ignored);
}
