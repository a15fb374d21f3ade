//! Which panel of the reader owns the keyboard: the item list, the article
//! content, or the help overlay, with the focus to return to when help is
//! closed.
use vstd::prelude::*;

use crate::event::Event;
use crate::event::EventState;
use crate::event::KeyboardEvent;

verus! {

/// The panel that currently has focus.
#[derive(Debug, Clone, Copy, PartialEq, Eq, Structural)]
pub enum Focus {
    ItemList,
    Content,
    Help,
}

/// The focus state of the whole application: the focused panel, and the one
/// focus returns to when the help overlay closes.
#[derive(Debug, Clone, Copy, PartialEq, Eq, Structural)]
pub struct FocusState {
    pub focus: Focus,
    pub prev_focus: Option<Focus>,
}

impl FocusState {
    pub fn new() -> (r: FocusState)
        ensures
            r.focus == Focus::ItemList,
            r.prev_focus is None,
    {
        FocusState { focus: Focus::ItemList, prev_focus: None }
    }

    /// Moving to help remembers where focus came from; every other move
    /// leaves the memory alone.
    pub open spec fn spec_set_focus(self, f: Focus) -> FocusState {
        FocusState {
            focus: f,
            prev_focus: if f == Focus::Help {
                Some(self.focus)
            } else {
                self.prev_focus
            },
        }
    }

    pub fn set_focus(&mut self, f: Focus)
        ensures
            *final(self) == old(self).spec_set_focus(f),
    {
        if f == Focus::Help {
            self.prev_focus = Some(self.focus);
        }
        self.focus = f;
    }

    /// How one event moves the focus: back leaves content for the list and
    /// closes help toward the remembered panel, left and right move between
    /// list and content, the help key opens help, and starting to load an
    /// item moves focus onto the content panel.
    pub open spec fn spec_after_event(prior: FocusState, event: Event, after: FocusState, r: EventState) -> bool {
        match event {
            Event::Keyboard(key) => match key {
                KeyboardEvent::Back => match prior.focus {
                    Focus::ItemList => r == EventState::Ignored && after == prior,
                    Focus::Content => r == EventState::Handled && after == prior.spec_set_focus(
                        Focus::ItemList,
                    ),
                    Focus::Help => r == EventState::Handled && after == prior.spec_set_focus(
                        match prior.prev_focus {
                            Some(f) => f,
                            None => Focus::ItemList,
                        },
                    ),
                },
                KeyboardEvent::Left => match prior.focus {
                    Focus::Content => r == EventState::Handled && after == prior.spec_set_focus(
                        Focus::ItemList,
                    ),
                    _ => r == EventState::Ignored && after == prior,
                },
                KeyboardEvent::Right => match prior.focus {
                    Focus::ItemList => r == EventState::Handled && after == prior.spec_set_focus(
                        Focus::Content,
                    ),
                    _ => r == EventState::Ignored && after == prior,
                },
                KeyboardEvent::Help => r == EventState::Handled && after == prior.spec_set_focus(
                    Focus::Help,
                ),
                _ => r == EventState::Ignored && after == prior,
            },
            Event::StartLoadingItem => match prior.focus {
                Focus::ItemList => r == EventState::Handled && after == prior.spec_set_focus(
                    Focus::Content,
                ),
                _ => r == EventState::Ignored && after == prior,
            },
            _ => r == EventState::Ignored && after == prior,
        }
    }

    pub fn handle_event(&mut self, event: &Event) -> (r: EventState)
        ensures
            FocusState::spec_after_event(*old(self), *event, *final(self), r),
    {
        match event {
            Event::Keyboard(key) => match key {
                KeyboardEvent::Back => match self.focus {
                    Focus::ItemList => EventState::Ignored,
                    Focus::Content => {
                        self.set_focus(Focus::ItemList);
                        EventState::Handled
                    },
                    Focus::Help => {
                        let back_to = match self.prev_focus {
                            Some(f) => f,
                            None => Focus::ItemList,
                        };
                        self.set_focus(back_to);
                        EventState::Handled
                    },
                },
                KeyboardEvent::Left => match self.focus {
                    Focus::Content => {
                        self.set_focus(Focus::ItemList);
                        EventState::Handled
                    },
                    _ => EventState::Ignored,
                },
                KeyboardEvent::Right => match self.focus {
                    Focus::ItemList => {
                        self.set_focus(Focus::Content);
                        EventState::Handled
                    },
                    _ => EventState::Ignored,
                },
                KeyboardEvent::Help => {
                    self.set_focus(Focus::Help);
                    EventState::Handled
                },
                _ => EventState::Ignored,
            },
            Event::StartLoadingItem => match self.focus {
                Focus::ItemList => {
                    self.set_focus(Focus::Content);
                    EventState::Handled
                },
                _ => EventState::Ignored,
            },
            _ => EventState::Ignored,
        }
    }
}

} // verus!
