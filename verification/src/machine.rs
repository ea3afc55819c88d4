//! The event-loop state machine. It decides; its caller performs.
//!
//! The caller owns the blocking operations (wait for an edge, publish and
//! await the acknowledgment, sleep, disconnect) and after each one hands
//! the outcome to the machine, which answers with the next step. Every
//! transition is pinned exactly by the contracts below.

use vstd::prelude::*;

use crate::event::Action;
use crate::event::AfterPublish;
use crate::event::EdgeEvent;
use crate::event::Trigger;

verus! {

/// The loop's phase. `WaitingForEdge` is initial; `Terminated` is terminal:
/// no method accepts it, so a terminated loop can take no further step.
#[derive(Clone, Copy, Debug, PartialEq, Eq, Structural)]
pub enum Phase {
    /// Blocked on the input line, willing to observe the next event.
    WaitingForEdge,
    /// A rising edge was observed; a publish is in flight.
    Publishing,
    /// The last poll cycle is handled; the quiescence window is running.
    Debouncing,
    /// A publish failed; the loop observes no further edges.
    Terminated,
}

/// The event-loop state machine itself: one phase, driven forward by the
/// outcomes its caller hands in.
pub struct EventLoop {
    phase: Phase,
}

impl View for EventLoop {
    type V = Phase;

    closed spec fn view(&self) -> Phase {
        self.phase
    }
}

impl EventLoop {
    /// A fresh loop, waiting for its first edge.
    pub fn new() -> (lp: EventLoop)
        ensures
            lp@ == Phase::WaitingForEdge,
    {
        EventLoop { phase: Phase::WaitingForEdge }
    }

    /// True exactly when the loop has stopped for good.
    pub fn terminated(&self) -> (b: bool)
        ensures
            b == (self@ == Phase::Terminated),
    {
        self.phase == Phase::Terminated
    }

    /// Hands the loop the outcome of one poll of the input line. Only a
    /// rising edge leads to a publish; a non-rising trigger and a timeout
    /// only start the quiescence window; a polling error is recoverable and
    /// leaves the loop waiting, with no quiescence window.
    pub fn on_edge_event(&mut self, ev: &EdgeEvent) -> (a: Action)
        requires
            old(self)@ == Phase::WaitingForEdge,
        ensures
            final(self)@ == (match ev {
                EdgeEvent::Edge(Trigger::Rising) => Phase::Publishing,
                EdgeEvent::Edge(_) => Phase::Debouncing,
                EdgeEvent::NoEvent => Phase::Debouncing,
                EdgeEvent::IoError => Phase::WaitingForEdge,
            }),
            a == (match ev {
                EdgeEvent::Edge(Trigger::Rising) => Action::Publish,
                EdgeEvent::Edge(_) => Action::LogDisabled,
                EdgeEvent::NoEvent => Action::Debounce,
                EdgeEvent::IoError => Action::LogIoError,
            }),
    {
        match ev {
            EdgeEvent::Edge(Trigger::Rising) => {
                self.phase = Phase::Publishing;
                Action::Publish
            },
            EdgeEvent::Edge(_) => {
                self.phase = Phase::Debouncing;
                Action::LogDisabled
            },
            EdgeEvent::NoEvent => {
                self.phase = Phase::Debouncing;
                Action::Debounce
            },
            EdgeEvent::IoError => Action::LogIoError,
        }
    }

    /// Hands the loop the outcome of the publish it requested. An
    /// acknowledged publish enters the quiescence window; a failed one
    /// terminates the loop — it will observe no further edges, and the
    /// caller proceeds to the one disconnect.
    pub fn on_publish_result(&mut self, acked: bool) -> (f: AfterPublish)
        requires
            old(self)@ == Phase::Publishing,
        ensures
            final(self)@ == (if acked {
                Phase::Debouncing
            } else {
                Phase::Terminated
            }),
            f == (if acked {
                AfterPublish::Debounce
            } else {
                AfterPublish::Stop
            }),
    {
        if acked {
            self.phase = Phase::Debouncing;
            AfterPublish::Debounce
        } else {
            self.phase = Phase::Terminated;
            AfterPublish::Stop
        }
    }

    /// Hands the loop the end of the quiescence window: it goes back to
    /// waiting for the next edge.
    pub fn on_debounce_done(&mut self)
        requires
            old(self)@ == Phase::Debouncing,
        ensures
            final(self)@ == Phase::WaitingForEdge,
    {
        self.phase = Phase::WaitingForEdge;
    }
}

} // verus!
