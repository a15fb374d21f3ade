//! The reader's data: feed channels and fetched items, the channel
//! management commands of the command line, the refresh bookkeeping that
//! orders items by date and carries read marks over, and the plain-text
//! layout of the channel table.
use vstd::prelude::*;

use crate::line::cap_add;
use crate::line::text_width;
use crate::line::width_of;
use crate::render::blank;
use crate::text::dec_chars;
use crate::text::eq_chars;
use crate::text::u64_dec_chars;

verus! {

/// One fetched feed entry.
#[derive(Debug)]
pub struct Item {
    pub id: Vec<char>,
    pub channel_name: Vec<char>,
    pub title: Vec<char>,
    pub description: Option<Vec<char>>,
    /// Publication instant as seconds since the Unix epoch.
    pub pub_date: Option<i64>,
    pub link: Vec<char>,
    pub read: bool,
}

/// One subscribed feed.
#[derive(Debug)]
pub struct Channel {
    pub name: Option<Vec<char>>,
    pub url: Vec<char>,
}

/// Everything the reader persists.
#[derive(Debug)]
pub struct Data {
    pub channels: Vec<Channel>,
    pub items: Vec<Item>,
}

/// Outcome of a refresh round.
#[derive(Debug, Clone, Copy, PartialEq, Eq, Structural)]
pub enum RefreshStatus {
    Done,
    Error,
}

/// A channel-management command.
#[derive(Debug)]
pub enum ChannelCommand {
    List,
    Add { url: Vec<char>, name: Option<Vec<char>> },
    Remove { idx: usize },
    Edit { idx: usize, name: Option<Vec<char>>, url: Option<Vec<char>> },
}

/// What a channel-management command did to the data.
#[derive(Debug, Clone, Copy, PartialEq, Eq, Structural)]
pub enum ChannelOutcome {
    Listed,
    Added,
    Removed,
    Updated,
    InvalidIndex,
    NothingToDo,
}

/// Add a channel at the end of the list.
pub fn add_channel(data: &mut Data, channel: Channel)
    ensures
        final(data).channels@ == old(data).channels@.push(channel),
        final(data).items@ == old(data).items@,
{
    data.channels.push(channel);
}

/// Remove the channel at `idx`; an index past the end changes nothing.
pub fn remove_channel(data: &mut Data, idx: usize) -> (r: bool)
    ensures
        final(data).items@ == old(data).items@,
        idx < old(data).channels@.len() ==> r && final(data).channels@ == old(data).channels@.remove(idx as int),
        idx >= old(data).channels@.len() ==> !r && final(data).channels@ == old(data).channels@,
{
    if idx >= data.channels.len() {
        return false;
    }
    data.channels.remove(idx);
    true
}

/// Edit the channel at `idx`: a given name or url replaces the stored one,
/// the other field stays. With nothing to change, or an index past the end,
/// the data is left alone.
pub fn edit_channel(data: &mut Data, idx: usize, name: Option<Vec<char>>, url: Option<Vec<char>>)
    -> (r: ChannelOutcome)
    ensures
        final(data).items@ == old(data).items@,
        name is None && url is None ==> r == ChannelOutcome::NothingToDo && final(data).channels@
            == old(data).channels@,
        !(name is None && url is None) && idx >= old(data).channels@.len() ==> r
            == ChannelOutcome::InvalidIndex && final(data).channels@ == old(data).channels@,
        !(name is None && url is None) && idx < old(data).channels@.len() ==> r
            == ChannelOutcome::Updated && final(data).channels@ == old(data).channels@.update(
            idx as int,
            Channel {
                name: if name is Some {
                    name
                } else {
                    old(data).channels@[idx as int].name
                },
                url: match url {
                    Some(u) => u,
                    None => old(data).channels@[idx as int].url,
                },
            },
        ),
{
    let nothing = match (&name, &url) {
        (None, None) => true,
        _ => false,
    };
    if nothing {
        return ChannelOutcome::NothingToDo;
    }
    if idx >= data.channels.len() {
        return ChannelOutcome::InvalidIndex;
    }
    let mut ch = data.channels.remove(idx);
    if name.is_some() {
        ch.name = name;
    }
    match url {
        Some(u) => {
            ch.url = u;
        },
        None => {},
    }
    data.channels.insert(idx, ch);
    proof {
        assert(data.channels@ =~= old(data).channels@.update(
            idx as int,
            data.channels@[idx as int],
        ));
    }
    ChannelOutcome::Updated
}

/// Dispatch one channel-management command onto the data and report what
/// happened, so the caller can print the right message and persist.
pub fn manage_channel(data: &mut Data, cmd: ChannelCommand) -> (r: ChannelOutcome)
    ensures
        final(data).items@ == old(data).items@,
        match cmd {
            ChannelCommand::List => r == ChannelOutcome::Listed && final(data).channels@ == old(data).channels@,
            ChannelCommand::Add { url, name } => r == ChannelOutcome::Added && final(data).channels@ == old(data).channels@.push(Channel { name, url }),
            ChannelCommand::Remove { idx } => {
                if idx < old(data).channels@.len() {
                    r == ChannelOutcome::Removed && final(data).channels@ == old(data).channels@.remove(idx as int)
                } else {
                    r == ChannelOutcome::InvalidIndex && final(data).channels@ == old(data).channels@
                }
            },
            ChannelCommand::Edit { idx, name, url } => {
                if name is None && url is None {
                    r == ChannelOutcome::NothingToDo && final(data).channels@ == old(data).channels@
                } else if idx >= old(data).channels@.len() {
                    r == ChannelOutcome::InvalidIndex && final(data).channels@ == old(data).channels@
                } else {
                    r == ChannelOutcome::Updated && final(data).channels@ == old(data).channels@.update(
                        idx as int,
                        Channel {
                            name: if name is Some {
                                name
                            } else {
                                old(data).channels@[idx as int].name
                            },
                            url: match url {
                                Some(u) => u,
                                None => old(data).channels@[idx as int].url,
                            },
                        },
                    )
                }
            },
        },
{
    match cmd {
        ChannelCommand::List => ChannelOutcome::Listed,
        ChannelCommand::Add { url, name } => {
            add_channel(data, Channel { name, url });
            ChannelOutcome::Added
        },
        ChannelCommand::Remove { idx } => {
            if remove_channel(data, idx) {
                ChannelOutcome::Removed
            } else {
                ChannelOutcome::InvalidIndex
            }
        },
        ChannelCommand::Edit { idx, name, url } => edit_channel(data, idx, name, url),
    }
}

/// Date order on optional timestamps: a missing date sorts below every
/// present one.
pub open spec fn spec_date_le(a: Option<i64>, b: Option<i64>) -> bool {
    match (a, b) {
        (None, _) => true,
        (Some(_), None) => false,
        (Some(x), Some(y)) => x <= y,
    }
}

fn date_le(a: &Option<i64>, b: &Option<i64>) -> (r: bool)
    ensures
        r == spec_date_le(*a, *b),
{
    match (a, b) {
        (None, _) => true,
        (Some(_), None) => false,
        (Some(x), Some(y)) => *x <= *y,
    }
}

/// Newest first: every later item's date is at or below every earlier one's.
pub open spec fn sorted_by_date_desc(s: Seq<Item>) -> bool {
    forall|i: int, j: int|
        0 <= i < j < s.len() ==> spec_date_le(#[trigger] s[j].pub_date, #[trigger] s[i].pub_date)
}

/// Order items newest first. The result holds exactly the given items.
pub fn sort_items_by_date_desc(items: Vec<Item>) -> (r: Vec<Item>)
    ensures
        sorted_by_date_desc(r@),
        r@.to_multiset() == items@.to_multiset(),
{
    broadcast use vstd::seq_lib::group_to_multiset_ensures;

    let ghost orig = items@;
    let mut rest = items;
    let mut out: Vec<Item> = Vec::new();
    while rest.len() > 0
        invariant
            sorted_by_date_desc(out@),
            out@.to_multiset().add(rest@.to_multiset()) =~= orig.to_multiset(),
            forall|i: int, j: int|
                0 <= i < out@.len() && 0 <= j < rest@.len() ==> spec_date_le(
                    #[trigger] rest@[j].pub_date,
                    #[trigger] out@[i].pub_date,
                ),
        decreases rest.len(),
    {
        let mut best: usize = 0;
        let mut k: usize = 1;
        while k < rest.len()
            invariant
                rest@.len() > 0,
                best < k,
                k <= rest.len(),
                forall|j: int|
                    0 <= j < k ==> spec_date_le(
                        #[trigger] rest@[j].pub_date,
                        rest@[best as int].pub_date,
                    ),
            decreases rest.len() - k,
        {
            if !date_le(&rest[k].pub_date, &rest[best].pub_date) {
                best = k;
            }
            k = k + 1;
        }
        let ghost old_rest = rest@;
        let ghost old_out = out@;
        let it = rest.remove(best);
        out.push(it);
        proof {
            assert(out@.to_multiset() =~= old_out.to_multiset().insert(it));
            assert(rest@.to_multiset() =~= old_rest.to_multiset().remove(it));
            assert(out@.to_multiset().add(rest@.to_multiset()) =~= orig.to_multiset());
            assert forall|i: int, j: int|
                0 <= i < out@.len() && 0 <= j < rest@.len() implies spec_date_le(
                #[trigger] rest@[j].pub_date,
                #[trigger] out@[i].pub_date,
            ) by {
                if j < best {
                    assert(rest@[j] == old_rest[j]);
                } else {
                    assert(rest@[j] == old_rest[j + 1]);
                }
            }
        }
    }
    out
}

/// Whether some already-stored item with this id had been marked read.
pub open spec fn spec_was_read(olds: Seq<Item>, id: Seq<char>) -> bool {
    exists|j: int| 0 <= j < olds.len() && olds[j].read && olds[j].id@ == id
}

fn was_read(olds: &Vec<Item>, id: &Vec<char>) -> (r: bool)
    ensures
        r == spec_was_read(olds@, id@),
{
    let mut j: usize = 0;
    while j < olds.len()
        invariant
            j <= olds.len(),
            forall|k: int| 0 <= k < j ==> !(olds@[k].read && olds@[k].id@ == id@),
        decreases olds.len() - j,
    {
        if olds[j].read && eq_chars(&olds[j].id, id) {
            return true;
        }
        j = j + 1;
    }
    false
}

/// Carry read marks over a refresh: each fetched item is marked read exactly
/// when an already-stored item with the same id was read; everything else
/// about each item, and their order, stays.
pub fn merge_read_flags(old_items: &Vec<Item>, fetched: Vec<Item>) -> (r: Vec<Item>)
    ensures
        r@.len() == fetched@.len(),
        forall|i: int|
            0 <= i < r@.len() ==> #[trigger] r@[i] == (Item {
                read: spec_was_read(old_items@, fetched@[i].id@),
                ..fetched@[i]
            }),
{
    let ghost orig = fetched@;
    let mut rest = fetched;
    let mut out: Vec<Item> = Vec::new();
    while rest.len() > 0
        invariant
            out@.len() + rest@.len() == orig.len(),
            forall|j: int| 0 <= j < rest@.len() ==> rest@[j] == orig[out@.len() + j],
            forall|i: int|
                0 <= i < out@.len() ==> #[trigger] out@[i] == (Item {
                    read: spec_was_read(old_items@, orig[i].id@),
                    ..orig[i]
                }),
        decreases rest.len(),
    {
        let mut it = rest.remove(0);
        let wr = was_read(old_items, &it.id);
        it.read = wr;
        out.push(it);
    }
    out
}

/// Build an item from the plain fields of a fetched feed entry. An entry
/// without a title or without a link yields nothing. The item's id is the
/// channel url and the entry id joined by a colon; the shown channel name is
/// the subscription's custom name, else the feed's title, else a fixed
/// placeholder; the item starts unread.
pub fn item_from_entry(
    channel_url: &Vec<char>,
    channel_name: &Option<Vec<char>>,
    feed_title: &Option<Vec<char>>,
    entry_id: &Vec<char>,
    title: Option<Vec<char>>,
    summary: Option<Vec<char>>,
    published: Option<i64>,
    link: Option<Vec<char>>,
) -> (r: Option<Item>)
    ensures
        (r is Some) <==> (title is Some && link is Some),
        r matches Some(it) ==> {
            &&& it.id@ == channel_url@ + seq![':'] + entry_id@
            &&& it.channel_name@ == (match channel_name {
                Some(n) => n@,
                None => match feed_title {
                    Some(t) => t@,
                    None => unnamed_channel(),
                },
            })
            &&& Some(it.title) == title
            &&& it.description == summary
            &&& it.pub_date == published
            &&& Some(it.link) == link
            &&& !it.read
        },
{
    let t = match title {
        Some(t) => t,
        None => {
            return None;
        },
    };
    let l = match link {
        Some(l) => l,
        None => {
            return None;
        },
    };
    let mut id: Vec<char> = Vec::new();
    crate::text::append_chars(&mut id, channel_url);
    id.push(':');
    crate::text::append_chars(&mut id, entry_id);
    proof {
        assert(id@ =~= channel_url@ + seq![':'] + entry_id@);
    }
    let name: Vec<char> = match channel_name {
        Some(n) => crate::render::copy_chars(n),
        None => match feed_title {
            Some(ft) => crate::render::copy_chars(ft),
            None => {
                let v = unnamed_channel_text();
                v
            },
        },
    };
    Some(
        Item {
            id,
            channel_name: name,
            title: t,
            description: summary,
            pub_date: published,
            link: l,
            read: false,
        },
    )
}

/// The name shown for a channel that brought no name of its own.
pub open spec fn unnamed_channel() -> Seq<char> {
    seq!['U', 'n', 'n', 'a', 'm', 'e', 'd', ' ', 'C', 'h', 'a', 'n', 'n', 'e', 'l']
}

fn unnamed_channel_text() -> (r: Vec<char>)
    ensures
        r@ == unnamed_channel(),
{
    let v: Vec<char> = vec![
        'U',
        'n',
        'n',
        'a',
        'm',
        'e',
        'd',
        ' ',
        'C',
        'h',
        'a',
        'n',
        'n',
        'e',
        'l',
    ];
    proof {
        assert(v@ =~= unnamed_channel());
    }
    v
}

/// Width of a channel's name in display columns; a missing name is empty.
pub open spec fn spec_name_width(c: Channel) -> nat {
    match c.name {
        Some(n) => width_of(n@),
        None => 0,
    }
}

/// The widest channel name among the first `i`.
pub open spec fn spec_max_name_width(cs: Seq<Channel>, i: int) -> nat
    decreases i,
{
    if i <= 0 {
        0
    } else {
        let rest = spec_max_name_width(cs, i - 1);
        let w = spec_name_width(cs[i - 1]);
        if w > rest {
            w
        } else {
            rest
        }
    }
}

/// The column width the channel table gives to names: wide enough for the
/// widest name and for the column's own four-letter heading, plus a space
/// on each side.
pub fn name_col_width(channels: &Vec<Channel>) -> (r: usize)
    ensures
        r == cap_add(
            if spec_max_name_width(channels@, channels@.len() as int) > 4 {
                spec_max_name_width(channels@, channels@.len() as int)
            } else {
                4
            },
            2,
        ),
{
    let mut w: usize = 0;
    let mut i: usize = 0;
    while i < channels.len()
        invariant
            i <= channels.len(),
            w == spec_max_name_width(channels@, i as int),
        decreases channels.len() - i,
    {
        let cw = match &channels[i].name {
            Some(n) => text_width(n),
            None => 0,
        };
        if cw > w {
            w = cw;
        }
        i = i + 1;
    }
    let base = if w > 4 {
        w
    } else {
        4
    };
    crate::line::width_add(base, 2)
}

/// The longest channel url among the first `i`, in characters.
pub open spec fn spec_max_url_len(cs: Seq<Channel>, i: int) -> nat
    decreases i,
{
    if i <= 0 {
        0
    } else {
        let rest = spec_max_url_len(cs, i - 1);
        let w = cs[i - 1].url@.len();
        if w > rest {
            w
        } else {
            rest
        }
    }
}

/// The column width the channel table gives to urls: wide enough for the
/// longest url and for the column's three-letter heading, plus a leading
/// space.
pub fn url_col_width(channels: &Vec<Channel>) -> (r: usize)
    ensures
        r == cap_add(
            if spec_max_url_len(channels@, channels@.len() as int) > 3 {
                spec_max_url_len(channels@, channels@.len() as int)
            } else {
                3
            },
            1,
        ),
{
    let mut w: usize = 0;
    let mut i: usize = 0;
    while i < channels.len()
        invariant
            i <= channels.len(),
            w == spec_max_url_len(channels@, i as int),
        decreases channels.len() - i,
    {
        let cw = channels[i].url.len();
        if cw > w {
            w = cw;
        }
        i = i + 1;
    }
    let base = if w > 3 {
        w
    } else {
        3
    };
    crate::line::width_add(base, 1)
}

/// Subtraction that stops at zero.
pub open spec fn sub0(a: nat, b: nat) -> nat {
    if a > b {
        (a - b) as nat
    } else {
        0
    }
}

/// A text centred in a field: spaces before and after, the odd leftover
/// space going to the right side.
pub fn pad_center(text: &Vec<char>, width: usize) -> (r: Vec<char>)
    ensures
        r@ == blank(sub0(width as nat, text@.len()) / 2) + text@ + blank(
            sub0(width as nat, text@.len() + sub0(width as nat, text@.len()) / 2),
        ),
{
    let room: usize = if width > text.len() {
        width - text.len()
    } else {
        0
    };
    let front = room / 2;
    let back: usize = if width > text.len() + front {
        width - text.len() - front
    } else {
        0
    };
    let mut out = crate::render::make_spaces(front);
    crate::text::append_chars(&mut out, text);
    let tail = crate::render::make_spaces(back);
    crate::text::append_chars(&mut out, &tail);
    proof {
        assert(back as nat == sub0(width as nat, text@.len() + sub0(width as nat, text@.len()) / 2));
    }
    out
}

/// The index cell of one channel row: the index in decimal, padded with
/// spaces to at least four columns.
pub fn channel_idx_cell(idx: u64) -> (r: Vec<char>)
    ensures
        r@ == dec_chars(idx as nat) + blank(sub0(4, dec_chars(idx as nat).len())),
{
    let mut out = u64_dec_chars(idx);
    let ghost digits = dec_chars(idx as nat);
    let pad: usize = if out.len() < 4 {
        4 - out.len()
    } else {
        0
    };
    let tail = crate::render::make_spaces(pad);
    crate::text::append_chars(&mut out, &tail);
    out
}

/// The name cell of one channel row: the name (empty when absent), padded
/// with spaces so that the cell spans one column less than the name column
/// (the separator contributes the last column).
pub fn channel_name_cell(name: &Option<Vec<char>>, name_len: usize) -> (r: Vec<char>)
    ensures
        match name {
            Some(n) => r@ == n@ + blank(sub0(sub0(name_len as nat, 1), width_of(n@))),
            None => r@ == blank(sub0(name_len as nat, 1)),
        },
{
    match name {
        Some(n) => {
            let w = text_width(n);
            let pad: usize = if name_len > 1 && name_len - 1 > w {
                name_len - 1 - w
            } else {
                0
            };
            let mut out = crate::render::copy_chars(n);
            let tail = crate::render::make_spaces(pad);
            crate::text::append_chars(&mut out, &tail);
            out
        },
        None => {
            let pad: usize = if name_len > 1 {
                name_len - 1
            } else {
                0
            };
            crate::render::make_spaces(pad)
        },
    }
}

} // verus!
