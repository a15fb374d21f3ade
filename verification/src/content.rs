//! The article-content panel: empty, loading (with a spinner tick), or
//! holding fetched text with a scroll offset and a cache of rendered lines
//! keyed by the width it was rendered at.
use vstd::prelude::*;

use crate::event::Event;
use crate::event::EventState;
use crate::event::KeyboardEvent;
use crate::line::Line;

verus! {

/// Rendered lines, remembered together with the width they were rendered
/// at; a draw at another width must re-render.
#[derive(Debug)]
pub struct RenderCache {
    pub lines: Vec<Line>,
    pub render_width: u16,
}

/// Fetched article text with the panel's scroll position and render cache.
#[derive(Debug)]
pub struct ContentData {
    pub raw_text: String,
    pub scroll_offset: usize,
    pub render_cache: Option<RenderCache>,
}

/// What the content panel shows.
#[derive(Debug)]
pub enum ContentState {
    Empty,
    Loading(u8),
    Data(ContentData),
}

/// The content panel component.
#[derive(Debug)]
pub struct Content {
    pub focused: bool,
    pub state: ContentState,
}

/// The scroll offset after a downward step: one further, but never past
/// five lines short of the end.
pub open spec fn spec_scroll_down(offset: usize, nr_lines: usize) -> usize {
    let inc = if offset < usize::MAX {
        (offset + 1) as usize
    } else {
        usize::MAX
    };
    let cap = if nr_lines >= 5 {
        (nr_lines - 5) as usize
    } else {
        0
    };
    if inc < cap {
        inc
    } else {
        cap
    }
}

/// What one event does to the content panel: ticks advance the spinner,
/// starting a load shows the spinner, a loaded item replaces the text with
/// a fresh scroll position and an empty cache, and up/down scroll the text
/// when the panel is focused.
pub open spec fn spec_content_after(
    prior: ContentState,
    focused: bool,
    event: Event,
    after: ContentState,
    r: EventState,
) -> bool {
    match event {
        Event::Keyboard(key) => {
            if !focused {
                r == EventState::Ignored && after == prior
            } else {
                match prior {
                    ContentState::Data(d) => match key {
                        KeyboardEvent::Up => r == EventState::Handled && (after
                            matches ContentState::Data(d2) && d2.raw_text == d.raw_text
                            && d2.render_cache == d.render_cache && d2.scroll_offset == (
                        if d.scroll_offset > 0 {
                            (d.scroll_offset - 1) as usize
                        } else {
                            0
                        })),
                        KeyboardEvent::Down => r == EventState::Handled && (after
                            matches ContentState::Data(d2) && d2.raw_text == d.raw_text
                            && d2.render_cache == d.render_cache && d2.scroll_offset == (
                        match d.render_cache {
                            Some(c) => spec_scroll_down(d.scroll_offset, c.lines.len()),
                            None => d.scroll_offset,
                        })),
                        _ => r == EventState::Ignored && after == prior,
                    },
                    _ => r == EventState::Ignored && after == prior,
                }
            }
        },
        Event::Tick => match prior {
            ContentState::Loading(t) => r == EventState::Handled && after == ContentState::Loading(
                if t < u8::MAX {
                    (t + 1) as u8
                } else {
                    0
                },
            ),
            _ => r == EventState::Ignored && after == prior,
        },
        Event::StartLoadingItem => r == EventState::Handled && after == ContentState::Loading(0),
        Event::LoadedItem(text) => r == EventState::Handled && (after matches ContentState::Data(d)
            && d.raw_text@ == text@ && d.scroll_offset == 0 && d.render_cache is None),
        Event::Toast(_) => r == EventState::Ignored && after == prior,
    }
}

impl Content {
    pub fn new(focused: bool) -> (r: Content)
        ensures
            r.focused == focused,
            r.state is Empty,
    {
        Content { focused, state: ContentState::Empty }
    }

    pub fn set_focused(&mut self, focused: bool)
        ensures
            final(self).focused == focused,
            final(self).state == old(self).state,
    {
        self.focused = focused;
    }

    pub fn handle_event(&mut self, event: &Event) -> (r: EventState)
        ensures
            final(self).focused == old(self).focused,
            spec_content_after(old(self).state, old(self).focused, *event, final(self).state, r),
    {
        match event {
            Event::Keyboard(key) => {
                if !self.focused {
                    return EventState::Ignored;
                }
                let is_data = match &self.state {
                    ContentState::Data(_) => true,
                    _ => false,
                };
                let scrolls = *key == KeyboardEvent::Up || *key == KeyboardEvent::Down;
                if !is_data || !scrolls {
                    return EventState::Ignored;
                }
                let mut st = ContentState::Empty;
                core::mem::swap(&mut self.state, &mut st);
                match st {
                    ContentState::Data(mut d) => {
                        if *key == KeyboardEvent::Up {
                            if d.scroll_offset > 0 {
                                d.scroll_offset = d.scroll_offset - 1;
                            }
                        } else {
                            let nr = match &d.render_cache {
                                Some(c) => Some(c.lines.len()),
                                None => None,
                            };
                            match nr {
                                Some(nr_lines) => {
                                    let inc = if d.scroll_offset < usize::MAX {
                                        d.scroll_offset + 1
                                    } else {
                                        usize::MAX
                                    };
                                    let cap = if nr_lines >= 5 {
                                        nr_lines - 5
                                    } else {
                                        0
                                    };
                                    d.scroll_offset = if inc < cap {
                                        inc
                                    } else {
                                        cap
                                    };
                                },
                                None => {},
                            }
                        }
                        self.state = ContentState::Data(d);
                        EventState::Handled
                    },
                    _ => EventState::Ignored,
                }
            },
            Event::Tick => {
                let t = match &self.state {
                    ContentState::Loading(t) => Some(*t),
                    _ => None,
                };
                match t {
                    Some(t) => {
                        let t2: u8 = if t < u8::MAX {
                            t + 1
                        } else {
                            0
                        };
                        self.state = ContentState::Loading(t2);
                        EventState::Handled
                    },
                    None => EventState::Ignored,
                }
            },
            Event::StartLoadingItem => {
                self.state = ContentState::Loading(0);
                EventState::Handled
            },
            Event::LoadedItem(text) => {
                self.state = ContentState::Data(
                    ContentData { raw_text: text.clone(), scroll_offset: 0, render_cache: None },
                );
                EventState::Handled
            },
            Event::Toast(_) => EventState::Ignored,
        }
    }

    /// Whether the cached render can be drawn as it is at the given width.
    pub open spec fn spec_cache_valid(&self, width: u16) -> bool {
        self.state matches ContentState::Data(d) && (d.render_cache matches Some(c)
            && c.render_width == width)
    }

    pub fn cache_valid(&self, width: u16) -> (r: bool)
        ensures
            r == self.spec_cache_valid(width),
    {
        match &self.state {
            ContentState::Data(d) => match &d.render_cache {
                Some(c) => c.render_width == width,
                None => false,
            },
            _ => false,
        }
    }

    /// Store a freshly rendered cache for the given width; text and scroll
    /// position stay as they are. Without fetched text there is nothing to
    /// cache and the lines are dropped.
    pub fn set_cache(&mut self, lines: Vec<Line>, width: u16)
        ensures
            final(self).focused == old(self).focused,
            old(self).state matches ContentState::Data(d) ==> (final(self).state
                matches ContentState::Data(d2) && d2.raw_text == d.raw_text && d2.scroll_offset
                == d.scroll_offset && (d2.render_cache matches Some(c) && c.lines@ == lines@
                && c.render_width == width)),
            !(old(self).state is Data) ==> final(self).state == old(self).state,
    {
        let is_data = match &self.state {
            ContentState::Data(_) => true,
            _ => false,
        };
        if !is_data {
            return ;
        }
        let mut st = ContentState::Empty;
        core::mem::swap(&mut self.state, &mut st);
        match st {
            ContentState::Data(mut d) => {
                d.render_cache = Some(RenderCache { lines, render_width: width });
                self.state = ContentState::Data(d);
            },
            _ => {},
        }
    }
}

} // verus!
