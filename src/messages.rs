//! Messages that travel around the ring and to passengers.
//!
//! These are plain values; their JSON encoding is done by the runtime around
//! the library, one record per line (see `framing`).
use vstd::prelude::*;

use crate::geometry::Position;
use crate::id_map::IdMap;

verus! {

/// Who opens a connection to a driver.
#[derive(Clone, Copy, Debug, PartialEq, Eq, Structural)]
pub enum ConnectionType {
    Driver,
    Passenger,
}

/// A passenger asks for a ride from `start` to `end`.
#[derive(Clone, Copy, Debug, PartialEq, Eq)]
pub struct TripRequest {
    pub start: Position,
    pub end: Position,
}

/// First message on a new connection: who is connecting and, for a driver,
/// which coordinator it believes in.
#[derive(Clone, Copy, Debug, PartialEq, Eq, Structural)]
pub struct Connect {
    pub from: ConnectionType,
    pub id: u16,
    pub coordinator_id: Option<u16>,
}

/// Announces the coordinator around the ring.
#[derive(Clone, Copy, Debug, PartialEq, Eq, Structural)]
pub struct NewCoordinator {
    pub id: u16,
}

/// Starts a position gather for a passenger's trip.
#[derive(Clone, Copy, Debug, PartialEq, Eq, Structural)]
pub struct CoordinatesRequest {
    pub passenger_id: u16,
}

/// A position gather in progress: the available drivers seen so far.
pub struct CoordinatesResponse {
    pub drivers_coordinates: IdMap<Position>,
    pub passenger_id: u16,
}

/// Proposes a trip to one driver.
#[derive(Clone, Copy, Debug, PartialEq, Eq)]
pub struct OfferToDriver {
    pub driver_id: u16,
    pub origin: Position,
    pub destination: Position,
    pub passenger_id: u16,
}

/// Why a trip request failed.
#[derive(Clone, Copy, Debug, PartialEq, Eq, Structural)]
pub enum DeclineReason {
    /// Every available driver declined.
    NotAccepted,
    /// No driver was available.
    DriversBusy,
}

/// A driver's answer to an offer, or the final answer to a passenger.
#[derive(Clone, Copy, Debug, PartialEq, Eq, Structural)]
pub struct TripResponse {
    pub status: bool,
    pub reason: Option<DeclineReason>,
    pub passenger_id: u16,
    pub driver_id: u16,
}

/// A trip answer as the passenger handles it, with its own decision to try
/// again after a refusal.
#[derive(Clone, Copy, Debug, PartialEq, Eq, Structural)]
pub struct HandleTripResponse {
    pub res: TripResponse,
    pub try_again: bool,
}

/// A driver finished the trip of a passenger.
#[derive(Clone, Copy, Debug, PartialEq, Eq, Structural)]
pub struct SendTripEnded {
    pub passenger_id: u16,
}

/// A driver (re)joined the ring.
#[derive(Clone, Copy, Debug, PartialEq, Eq, Structural)]
pub struct DriverConnected {
    pub driver_id: u16,
}

/// Tells a driver that rejoined to close the trip it had in flight.
#[derive(Clone, Copy, Debug, PartialEq, Eq, Structural)]
pub struct UnresolvedTrip {
    pub passenger_id: u16,
    pub driver_id: u16,
}

/// Every message exchanged between drivers (and the trip request a passenger
/// sends to its driver).
pub enum DriverMsg {
    TripRequest(TripRequest),
    Connect(Connect),
    Disconnect,
    NewCoordinator(NewCoordinator),
    CoordinatesRequest(CoordinatesRequest),
    CoordinatesResponse(CoordinatesResponse),
    OfferToDriver(OfferToDriver),
    TripResponse(TripResponse),
    SendTripEnded(SendTripEnded),
    DriverConnected(DriverConnected),
    UnresolvedTrip(UnresolvedTrip),
}

/// The trip has started.
#[derive(Clone, Copy, Debug, PartialEq, Eq, Structural)]
pub struct TripStarted;

/// The trip of `passenger_id` has ended.
#[derive(Clone, Copy, Debug, PartialEq, Eq, Structural)]
pub struct TripEnded {
    pub passenger_id: u16,
}

/// Answer to a passenger's `Connect`.
#[derive(Clone, Copy, Debug, PartialEq, Eq, Structural)]
pub struct ConnectRes {
    pub status: bool,
    pub leader_id: Option<u16>,
}

/// Messages a driver sends to a passenger.
#[derive(Clone, Copy, Debug, PartialEq, Eq, Structural)]
pub enum PassengerMsg {
    TripResponse(TripResponse),
    TripStarted,
    TripEnded,
    ConnectRes(ConnectRes),
}

} // verus!
