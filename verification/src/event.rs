//! Events flowing through the reader: ticks, interpreted key presses, item
//! loading and toast notifications, and the handled/ignored verdict each
//! component reports back.
use vstd::prelude::*;

verus! {

/// An event delivered to every component.
#[derive(Debug, Clone)]
pub enum Event {
    Tick,
    Keyboard(KeyboardEvent),
    StartLoadingItem,
    LoadedItem(String),
    Toast(ToastEvent),
}

/// A key press, already interpreted.
#[derive(Debug, Clone, Copy, PartialEq, Eq, Structural)]
pub enum KeyboardEvent {
    Left,
    Right,
    Up,
    Down,
    Back,
    Enter,
    Space,
    Open,
    Help,
}

/// A toast notification request.
#[derive(Debug, Clone)]
pub enum ToastEvent {
    Loading(String),
    Error(String),
    Hide,
}

/// Whether an event has been handled. A handled event is still delivered to
/// the other components; the verdict mostly decides when to re-draw.
#[derive(Debug, Clone, Copy, PartialEq, Eq, Structural)]
pub enum EventState {
    Handled,
    Ignored,
}

impl EventState {
    pub open spec fn spec_is_handled(self) -> bool {
        self == EventState::Handled
    }

    pub fn is_handled(&self) -> (r: bool)
        ensures
            r == self.spec_is_handled(),
    {
        *self == EventState::Handled
    }

    /// Handled wins: the combination is handled when either side is.
    pub fn or(&self, other: &Self) -> (r: Self)
        ensures
            r == EventState::Handled <==> (self.spec_is_handled() || other.spec_is_handled()),
    {
        if self.is_handled() || other.is_handled() {
            Self::Handled
        } else {
            Self::Ignored
        }
    }
}

/// A raw key, as the terminal reports it: the keys the reader reacts to,
/// plus a character and a catch-all for everything else.
#[derive(Debug, Clone, Copy, PartialEq, Eq, Structural)]
pub enum KeyInput {
    Left,
    Right,
    Up,
    Down,
    Esc,
    Enter,
    Character(char),
    Other,
}

/// The interpreted event a raw key stands for, if any: arrows and their
/// letter aliases move, escape and `q` go back, enter and space select,
/// `o` opens the browser, `?` opens help.
pub open spec fn spec_keyboard_event_of(key: KeyInput) -> Option<KeyboardEvent> {
    match key {
        KeyInput::Left => Some(KeyboardEvent::Left),
        KeyInput::Right => Some(KeyboardEvent::Right),
        KeyInput::Up => Some(KeyboardEvent::Up),
        KeyInput::Down => Some(KeyboardEvent::Down),
        KeyInput::Esc => Some(KeyboardEvent::Back),
        KeyInput::Enter => Some(KeyboardEvent::Enter),
        KeyInput::Character(c) => {
            if c == 'h' {
                Some(KeyboardEvent::Left)
            } else if c == 'l' {
                Some(KeyboardEvent::Right)
            } else if c == 'k' {
                Some(KeyboardEvent::Up)
            } else if c == 'j' {
                Some(KeyboardEvent::Down)
            } else if c == 'q' {
                Some(KeyboardEvent::Back)
            } else if c == ' ' {
                Some(KeyboardEvent::Space)
            } else if c == 'o' {
                Some(KeyboardEvent::Open)
            } else if c == '?' {
                Some(KeyboardEvent::Help)
            } else {
                None
            }
        },
        KeyInput::Other => None,
    }
}

pub fn keyboard_event_of(key: KeyInput) -> (r: Option<KeyboardEvent>)
    ensures
        r == spec_keyboard_event_of(key),
{
    match key {
        KeyInput::Left => Some(KeyboardEvent::Left),
        KeyInput::Right => Some(KeyboardEvent::Right),
        KeyInput::Up => Some(KeyboardEvent::Up),
        KeyInput::Down => Some(KeyboardEvent::Down),
        KeyInput::Esc => Some(KeyboardEvent::Back),
        KeyInput::Enter => Some(KeyboardEvent::Enter),
        KeyInput::Character(c) => {
            if c == 'h' {
                Some(KeyboardEvent::Left)
            } else if c == 'l' {
                Some(KeyboardEvent::Right)
            } else if c == 'k' {
                Some(KeyboardEvent::Up)
            } else if c == 'j' {
                Some(KeyboardEvent::Down)
            } else if c == 'q' {
                Some(KeyboardEvent::Back)
            } else if c == ' ' {
                Some(KeyboardEvent::Space)
            } else if c == 'o' {
                Some(KeyboardEvent::Open)
            } else if c == '?' {
                Some(KeyboardEvent::Help)
            } else {
                None
            }
        },
        KeyInput::Other => None,
    }
}

} // verus!
