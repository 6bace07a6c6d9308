//! A ring of ride-dispatch drivers, as a verified per-node state machine.
//!
//! Each driver node reacts to events (messages from its ring neighbours,
//! passenger requests, timers, connection results) by updating its own state
//! and returning the actions to perform (messages to send, timers to start,
//! links to open). The runtime that performs those actions lives outside this
//! library.
use vstd::prelude::*;

pub mod driver;
pub mod framing;
pub mod geometry;
pub mod id_map;
pub mod laws;
pub mod messages;
pub mod passenger;
pub mod payments;
pub mod selection;

verus! {

/// Upper bound on the number of drivers; ids are in `0..MAX_DRIVERS`.
pub const MAX_DRIVERS: u16 = 5;

/// Driver `id` listens on `DRIVER_PORT + id`.
pub const DRIVER_PORT: u16 = 6000;

/// Port reserved for passenger traffic.
pub const PASSENGER_PORT: u16 = 7000;

} // verus!
