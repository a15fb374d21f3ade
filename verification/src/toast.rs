//! The toast notification: a small state machine showing a loading spinner
//! or an error message, advanced by ticks and hidden again after the error
//! has been on screen long enough.
use vstd::prelude::*;

use crate::event::Event;
use crate::event::EventState;
use crate::event::ToastEvent;

verus! {

/// What the toast currently shows.
#[derive(Debug)]
pub enum ToastState {
    Hidden,
    Loading { message: String, ticks: u32 },
    Error { error: String, ticks: u32 },
}

/// The toast component: its state and the tick rate that scales how long an
/// error stays visible (five seconds' worth of ticks).
#[derive(Debug)]
pub struct Toast {
    pub state: ToastState,
    pub tick_fps: u32,
}

/// A tick count advanced by one, clamped at the type's maximum.
pub open spec fn spec_inc_ticks(t: u32) -> u32 {
    if t < u32::MAX {
        (t + 1) as u32
    } else {
        u32::MAX
    }
}

impl Toast {
    pub fn new(tick_fps: u32) -> (r: Toast)
        ensures
            r.state is Hidden,
            r.tick_fps == tick_fps,
    {
        Toast { state: ToastState::Hidden, tick_fps }
    }

    pub open spec fn spec_hidden(&self) -> bool {
        self.state is Hidden
    }

    pub fn hidden(&self) -> (r: bool)
        ensures
            r == self.spec_hidden(),
    {
        match self.state {
            ToastState::Hidden => true,
            _ => false,
        }
    }

    /// What one event does to the toast: a toast request replaces the
    /// state; a tick advances the counter, hiding an error once it has
    /// outlived five seconds' worth of ticks; everything else is ignored
    /// and leaves the toast alone.
    pub open spec fn spec_after_event(
        prior: ToastState,
        tick_fps: u32,
        event: Event,
        after: ToastState,
        r: EventState,
    ) -> bool {
        match event {
            Event::Toast(te) => match te {
                ToastEvent::Loading(msg) => r == EventState::Handled && (after
                    matches ToastState::Loading { message, ticks } && message@ == msg@ && ticks
                    == 0),
                ToastEvent::Error(msg) => r == EventState::Handled && (after
                    matches ToastState::Error { error, ticks } && error@ == msg@ && ticks == 0),
                ToastEvent::Hide => r == EventState::Handled && after is Hidden,
            },
            Event::Tick => match prior {
                ToastState::Error { error, ticks } => r == EventState::Handled && (if ticks
                    > tick_fps * 5 {
                    after is Hidden
                } else {
                    after matches ToastState::Error { error: e2, ticks: t2 } && e2 == error && t2
                        == spec_inc_ticks(ticks)
                }),
                ToastState::Loading { message, ticks } => r == EventState::Handled && (after
                    matches ToastState::Loading { message: m2, ticks: t2 } && m2 == message && t2
                    == spec_inc_ticks(ticks)),
                ToastState::Hidden => r == EventState::Ignored && after is Hidden,
            },
            _ => r == EventState::Ignored && after == prior,
        }
    }

    pub fn handle_event(&mut self, event: &Event) -> (r: EventState)
        ensures
            final(self).tick_fps == old(self).tick_fps,
            Toast::spec_after_event(
                old(self).state,
                old(self).tick_fps,
                *event,
                final(self).state,
                r,
            ),
    {
        match event {
            Event::Toast(ToastEvent::Loading(msg)) => {
                self.state = ToastState::Loading { message: msg.clone(), ticks: 0 };
                EventState::Handled
            },
            Event::Toast(ToastEvent::Error(msg)) => {
                self.state = ToastState::Error { error: msg.clone(), ticks: 0 };
                EventState::Handled
            },
            Event::Toast(ToastEvent::Hide) => {
                self.state = ToastState::Hidden;
                EventState::Handled
            },
            Event::Tick => {
                let mut st = ToastState::Hidden;
                core::mem::swap(&mut self.state, &mut st);
                match st {
                    ToastState::Error { error, ticks } => {
                        if (ticks as u64) > (self.tick_fps as u64) * 5 {
                            self.state = ToastState::Hidden;
                        } else {
                            let t2: u32 = if ticks < u32::MAX {
                                ticks + 1
                            } else {
                                u32::MAX
                            };
                            self.state = ToastState::Error { error, ticks: t2 };
                        }
                        EventState::Handled
                    },
                    ToastState::Loading { message, ticks } => {
                        let t2: u32 = if ticks < u32::MAX {
                            ticks + 1
                        } else {
                            u32::MAX
                        };
                        self.state = ToastState::Loading { message, ticks: t2 };
                        EventState::Handled
                    },
                    ToastState::Hidden => EventState::Ignored,
                }
            },
            Event::Keyboard(_) => EventState::Ignored,
            Event::StartLoadingItem => EventState::Ignored,
            Event::LoadedItem(_) => EventState::Ignored,
        }
    }
}

} // verus!
