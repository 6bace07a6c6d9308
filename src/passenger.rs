//! The decisions of a passenger client.
use vstd::prelude::*;

use crate::geometry::Position;
use crate::messages::{
    Connect, ConnectRes, ConnectionType, DriverMsg, HandleTripResponse, TripRequest,
};
use crate::MAX_DRIVERS;

verus! {

/// What a passenger does after an answer to its trip request.
#[derive(Clone, Copy, Debug, PartialEq, Eq)]
pub enum PassengerStep {
    /// A driver took the trip; wait for its end.
    Wait,
    /// Ask again with this request.
    Retry(TripRequest),
    /// Stop asking.
    GiveUp,
}

/// A passenger wanting a ride from `location` to `destination`.
#[derive(Clone, Copy, Debug, PartialEq, Eq)]
pub struct Passenger {
    pub id: u16,
    pub location: Position,
    pub destination: Position,
}

impl Passenger {
    /// A passenger with id `id`.
    pub fn new(id: u16, location: Position, destination: Position) -> (r: Passenger)
        ensures
            r.id == id,
            r.location == location,
            r.destination == destination,
    {
        Passenger { id, location, destination }
    }

    /// The request for this passenger's trip.
    pub fn trip_request(&self) -> (r: DriverMsg)
        ensures
            r == DriverMsg::TripRequest(TripRequest { start: self.location, end: self.destination }),
    {
        DriverMsg::TripRequest(TripRequest { start: self.location, end: self.destination })
    }

    /// The first message on a connection to a driver.
    pub fn connect_msg(&self) -> (r: DriverMsg)
        ensures
            r == DriverMsg::Connect(
                Connect { from: ConnectionType::Passenger, id: self.id, coordinator_id: None },
            ),
    {
        DriverMsg::Connect(
            Connect { from: ConnectionType::Passenger, id: self.id, coordinator_id: None },
        )
    }

    /// What to do after an answer: wait for the end of an accepted trip; after
    /// a refusal, ask again when the passenger chose to, else give up.
    pub fn handle_trip_response(&self, msg: HandleTripResponse) -> (r: PassengerStep)
        ensures
            r == if msg.res.status {
                PassengerStep::Wait
            } else if msg.try_again {
                PassengerStep::Retry(TripRequest { start: self.location, end: self.destination })
            } else {
                PassengerStep::GiveUp
            },
    {
        if msg.res.status {
            PassengerStep::Wait
        } else if msg.try_again {
            PassengerStep::Retry(TripRequest { start: self.location, end: self.destination })
        } else {
            PassengerStep::GiveUp
        }
    }
}

/// Where a passenger resumes its scan of the drivers after a driver that the
/// scan from `start` reached answered `reply`: nowhere when it was accepted;
/// otherwise at the leader it was told of, or else one past `start`, as long
/// as that is a driver id.
pub fn next_scan_start(start: u16, reply: ConnectRes) -> (r: Option<u16>)
    ensures
        r == if reply.status {
            None
        } else {
            match reply.leader_id {
                Some(l) => if l < MAX_DRIVERS {
                    Some(l)
                } else {
                    None
                },
                None => if start + 1 < MAX_DRIVERS {
                    Some((start + 1) as u16)
                } else {
                    None
                },
            }
        },
{
    if reply.status {
        return None;
    }
    match reply.leader_id {
        Some(l) => if l < MAX_DRIVERS {
            Some(l)
        } else {
            None
        },
        None => if start < MAX_DRIVERS - 1 {
            Some(start + 1)
        } else {
            None
        },
    }
}

} // verus!
