//! A doorbell-to-broker bridge: watches a single digital input line for a
//! rising edge (a button press) and forwards one fixed notification message
//! per press to an MQTT broker.
//!
//! This crate holds the verified core: the settings record, the event-loop
//! state machine (debounce, delivery-failure handling), and a timed
//! simulation of a whole run, with proofs of the loop's behavioural laws.
//! The hardware, network and configuration plumbing around it lives outside
//! the library and drives the state machine through its public methods.

use vstd::prelude::*;

pub mod event;
pub mod laws;
pub mod machine;
pub mod settings;
pub mod sim;

verus! {

/// Quiescence window after a handled poll cycle, in milliseconds: once an
/// edge has been handled, the loop sleeps this long before it is willing to
/// observe a new one, so that one physical press yields exactly one message.
pub const DEBOUNCE_MS: u64 = 4000;

/// Quality-of-service level for every publish: "at least once".
pub const QOS: i32 = 1;

} // verus!
