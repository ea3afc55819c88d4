//! The values the event loop consumes and produces: what one poll of the
//! input line reported, and what the loop asks its caller to do next.

use vstd::prelude::*;

verus! {

/// The kind of transition an interrupt reported on the input line. The line
/// is armed for rising edges only, so anything else reaching the loop is a
/// defensive path: it is reported and ignored.
#[derive(Clone, Copy, Debug, PartialEq, Eq, Structural)]
pub enum Trigger {
    Rising,
    Falling,
    Both,
}

/// The outcome of one poll of the input line: an interrupt fired with some
/// trigger, the wait timed out with no event, or the polling mechanism
/// itself reported an I/O error (the caller holds the error's description
/// and reports it; the loop only decides what to do next).
#[derive(Clone, Copy, Debug, PartialEq, Eq, Structural)]
pub enum EdgeEvent {
    Edge(Trigger),
    NoEvent,
    IoError,
}

/// What the loop asks its caller to do after a poll outcome was handed in.
#[derive(Clone, Copy, Debug, PartialEq, Eq, Structural)]
pub enum Action {
    /// A rising edge was observed: publish the fixed payload to the
    /// configured topic and report the acknowledgment outcome.
    Publish,
    /// A non-rising trigger was observed: report it as disabled, then sleep
    /// the quiescence window and report the sleep as done.
    LogDisabled,
    /// The wait timed out with no event: sleep the quiescence window and
    /// report the sleep as done.
    Debounce,
    /// Polling failed: report the error and poll again at once, without a
    /// quiescence window.
    LogIoError,
}

/// What the loop asks its caller to do after a publish outcome was handed
/// in.
#[derive(Clone, Copy, Debug, PartialEq, Eq, Structural)]
pub enum AfterPublish {
    /// The broker acknowledged the message: sleep the quiescence window and
    /// report the sleep as done.
    Debounce,
    /// The publish failed: stop the loop and disconnect. There is no retry.
    Stop,
}

} // verus!
