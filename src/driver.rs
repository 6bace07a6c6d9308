//! The state machine of one driver node.
//!
//! A `Driver` holds everything a node knows; each `handle_*` method consumes
//! one event and returns, in order, the actions the runtime must perform.
//! Messages that a node addresses to itself come back as `Action::Deliver`
//! and are handled after the current event, so no handler re-enters another.
use vstd::prelude::*;

use crate::geometry::Position;
use crate::id_map::IdMap;
use crate::messages::{
    Connect, ConnectRes, ConnectionType, CoordinatesResponse, DeclineReason, DriverConnected,
    DriverMsg, NewCoordinator, OfferToDriver, PassengerMsg, SendTripEnded, TripRequest,
    TripResponse, UnresolvedTrip,
};
use crate::selection::{contains_id, eligible, is_closest, select_closest};

verus! {

/// Whether a driver can take a new trip.
#[derive(Clone, Copy, Debug, PartialEq, Eq, Structural)]
pub enum DriverStatus {
    Available,
    Busy,
}

/// What the runtime must do on behalf of a driver.
pub enum Action {
    /// Write the message on the link to the right neighbour.
    SendToRight(DriverMsg),
    /// Write the message to the connected passenger `passenger_id`.
    SendToPassenger { passenger_id: u16, msg: PassengerMsg },
    /// Handle the message at this same driver, after the current event.
    Deliver(DriverMsg),
    /// Send `Disconnect` on the current left link before the new left link
    /// replaces it.
    DisconnectLeft,
    /// Probe the ports to the right for a new right neighbour.
    ConnectToRight,
    /// Drive the trip of `passenger_id`: after the trip time, report
    /// `handle_trip_finished(passenger_id)`.
    StartTrip { passenger_id: u16 },
}

/// The abstract state of a driver node.
pub struct DriverView {
    pub id: u16,
    pub coordinates: Position,
    pub status: DriverStatus,
    /// The last availability snapshot the coordinator gathered.
    pub snapshot: Option<Map<u16, Position>>,
    pub left_id: Option<u16>,
    pub right_id: Option<u16>,
    pub coordinator_id: Option<u16>,
    /// Passengers whose connection is open.
    pub passengers: Set<u16>,
    /// Trips awaiting an accepted offer: passenger id to (origin, destination).
    pub pending_trips: Map<u16, (Position, Position)>,
    /// Drivers that declined each passenger's trip.
    pub declined: Map<u16, Seq<u16>>,
    /// Messages held back for passengers that are not connected.
    pub unresolved: Map<u16, Seq<PassengerMsg>>,
    /// Trips being driven: driver id to passenger id.
    pub in_flight: Map<u16, u16>,
}

impl DriverView {
    /// The node takes the coordinator's part for trip traffic: it is the
    /// coordinator, or it knows of none yet.
    pub open spec fn acts_as_coordinator(self) -> bool {
        self.coordinator_id.is_none() || self.coordinator_id == Some(self.id)
    }

    /// The node is the coordinator it knows of.
    pub open spec fn is_coordinator(self) -> bool {
        self.coordinator_id == Some(self.id)
    }

    /// Drivers that declined passenger `pid`.
    pub open spec fn declined_of(self, pid: u16) -> Seq<u16> {
        if self.declined.contains_key(pid) {
            self.declined[pid]
        } else {
            Seq::empty()
        }
    }

    /// Messages held back for passenger `pid`, oldest first.
    pub open spec fn unresolved_of(self, pid: u16) -> Seq<PassengerMsg> {
        if self.unresolved.contains_key(pid) {
            self.unresolved[pid]
        } else {
            Seq::empty()
        }
    }

    /// The state with `c` as coordinator.
    pub open spec fn with_coordinator(self, c: u16) -> DriverView {
        DriverView { coordinator_id: Some(c), ..self }
    }

    /// The state after `msg` is held back for passenger `pid`.
    pub open spec fn buffered(self, pid: u16, msg: PassengerMsg) -> DriverView {
        DriverView {
            unresolved: self.unresolved.insert(pid, self.unresolved_of(pid).push(msg)),
            ..self
        }
    }

    /// The state after sending `msg` to passenger `pid`: unchanged when the
    /// passenger is connected, else the message is held back.
    pub open spec fn after_passenger_send(self, pid: u16, msg: PassengerMsg) -> DriverView {
        if self.passengers.contains(pid) {
            self
        } else {
            self.buffered(pid, msg)
        }
    }

    /// The actions of sending `msg` to passenger `pid`.
    pub open spec fn passenger_send_actions(self, pid: u16, msg: PassengerMsg) -> Seq<Action> {
        if self.passengers.contains(pid) {
            seq![Action::SendToPassenger { passenger_id: pid, msg }]
        } else {
            Seq::empty()
        }
    }

    /// How the node passes on a message meant for the coordinator.
    pub open spec fn toward_coordinator(self, m: DriverMsg) -> Action {
        if self.acts_as_coordinator() {
            Action::Deliver(m)
        } else {
            Action::SendToRight(m)
        }
    }

    /// The node's own entry in a position gather: present only when available.
    pub open spec fn gathered(self, snapshot: Map<u16, Position>) -> Map<u16, Position> {
        if self.status == DriverStatus::Available {
            snapshot.insert(self.id, self.coordinates)
        } else {
            snapshot
        }
    }

    /// The state after a trip request from `pid`: the trip is recorded as
    /// pending and earlier declines for `pid` are forgotten.
    pub open spec fn stored(self, pid: u16, origin: Position, destination: Position) -> DriverView {
        DriverView {
            pending_trips: self.pending_trips.insert(pid, (origin, destination)),
            declined: self.declined.remove(pid),
            ..self
        }
    }

    /// `actions` start a position gather for `pid`: one gather message holding
    /// this node's own entry, sent to the right, or handled here when the node
    /// has no right neighbour.
    pub open spec fn starts_gather(self, pid: u16, actions: Seq<Action>) -> bool {
        &&& actions.len() == 1
        &&& match actions[0] {
            Action::SendToRight(m) => self.right_id.is_some() && carries_snapshot(
                m,
                pid,
                self.gathered(Map::empty()),
            ),
            Action::Deliver(m) => self.right_id.is_none() && carries_snapshot(
                m,
                pid,
                self.gathered(Map::empty()),
            ),
            _ => false,
        }
    }

    /// How an offer leaves the coordinator: handled here when it names this
    /// node, else sent to the right.
    pub open spec fn offer_action(self, offer: OfferToDriver) -> Action {
        if offer.driver_id == self.id {
            Action::Deliver(DriverMsg::OfferToDriver(offer))
        } else {
            Action::SendToRight(DriverMsg::OfferToDriver(offer))
        }
    }

    /// The answer a passenger gets when no driver can be offered the trip.
    pub open spec fn refusal(self, pid: u16) -> PassengerMsg {
        PassengerMsg::TripResponse(
            TripResponse {
                status: false,
                reason: Some(
                    if self.declined_of(pid).len() == 0 {
                        DeclineReason::DriversBusy
                    } else {
                        DeclineReason::NotAccepted
                    },
                ),
                passenger_id: pid,
                driver_id: self.id,
            },
        )
    }

    /// The state once the trip of `pid` is no longer pending.
    pub open spec fn trip_closed(self, pid: u16) -> DriverView {
        DriverView {
            pending_trips: self.pending_trips.remove(pid),
            declined: self.declined.remove(pid),
            ..self
        }
    }

    /// Selection for passenger `pid` from state `self` leads to `post` and
    /// `actions`. With a snapshot and a pending trip: the nearest eligible
    /// driver gets the offer; when none is eligible, the trip is closed and
    /// the passenger told why. Otherwise nothing happens.
    pub open spec fn select_outcome(
        self,
        pid: u16,
        post: DriverView,
        actions: Seq<Action>,
    ) -> bool {
        if self.snapshot.is_some() && self.pending_trips.contains_key(pid) {
            let snap = self.snapshot.unwrap();
            let origin = self.pending_trips[pid].0;
            let destination = self.pending_trips[pid].1;
            let dec = self.declined_of(pid);
            if exists|e: u16| eligible(snap, dec, e) {
                exists|d: u16|
                    {
                        &&& is_closest(snap, dec, origin, d)
                        &&& post == self
                        &&& actions == seq![
                            self.offer_action(
                                OfferToDriver {
                                    driver_id: d,
                                    origin,
                                    destination,
                                    passenger_id: pid,
                                },
                            ),
                        ]
                    }
            } else {
                &&& post == self.trip_closed(pid).after_passenger_send(pid, self.refusal(pid))
                &&& actions == self.trip_closed(pid).passenger_send_actions(pid, self.refusal(pid))
            }
        } else {
            post == self && actions == Seq::<Action>::empty()
        }
    }

    /// Handling `offer` with coin outcome `accept_draw` leads from `self` to
    /// `post` and `actions`. An offer for another driver is passed on. An offer
    /// for this node is accepted when the coin says so and the node is
    /// available; the answer goes toward the coordinator and, on acceptance,
    /// the node turns busy and starts the trip.
    pub open spec fn offer_outcome(
        self,
        offer: OfferToDriver,
        accept_draw: bool,
        post: DriverView,
        actions: Seq<Action>,
    ) -> bool {
        if offer.driver_id != self.id {
            post == self && actions == seq![Action::SendToRight(DriverMsg::OfferToDriver(offer))]
        } else {
            let accepted = accept_draw && self.status == DriverStatus::Available;
            let resp = TripResponse {
                status: accepted,
                reason: None,
                passenger_id: offer.passenger_id,
                driver_id: self.id,
            };
            &&& post == if accepted {
                DriverView { status: DriverStatus::Busy, ..self }
            } else {
                self
            }
            &&& actions == seq![self.toward_coordinator(DriverMsg::TripResponse(resp))] + if accepted {
                seq![Action::StartTrip { passenger_id: offer.passenger_id }]
            } else {
                Seq::<Action>::empty()
            }
        }
    }

    /// The actions of a `NewCoordinator { id }` arriving here: passed on
    /// unless it has come back to the coordinator itself.
    pub open spec fn new_coordinator_actions(self, id: u16) -> Seq<Action> {
        if id != self.id {
            seq![Action::SendToRight(DriverMsg::NewCoordinator(NewCoordinator { id }))]
        } else {
            Seq::<Action>::empty()
        }
    }

    /// A gather for `pid` carrying `snapshot` arrives here and leads to `post`
    /// and `actions`. The coordinator keeps it as the current snapshot and
    /// selects a driver; any other node adds its own entry when available and
    /// passes it on. A node that knows no coordinator drops it.
    pub open spec fn gather_outcome(
        self,
        pid: u16,
        snapshot: Map<u16, Position>,
        post: DriverView,
        actions: Seq<Action>,
    ) -> bool {
        if self.coordinator_id.is_none() {
            post == self && actions == Seq::<Action>::empty()
        } else if self.is_coordinator() {
            (DriverView { snapshot: Some(snapshot), ..self }).select_outcome(pid, post, actions)
        } else {
            &&& post == self
            &&& actions.len() == 1
            &&& match actions[0] {
                Action::SendToRight(m) => carries_snapshot(m, pid, self.gathered(snapshot)),
                _ => false,
            }
        }
    }

    /// A driver's answer `resp` arrives here and leads to `post` and
    /// `actions`. A node that does not act as coordinator passes it on. At the
    /// coordinator, a decline adds the driver to the passenger's decline list
    /// and starts a new position gather; an acceptance records the trip as in
    /// flight, closes the pending trip and forwards the answer to the
    /// passenger.
    pub open spec fn trip_response_outcome(
        self,
        resp: TripResponse,
        post: DriverView,
        actions: Seq<Action>,
    ) -> bool {
        let pid = resp.passenger_id;
        if !self.acts_as_coordinator() {
            post == self && actions == seq![Action::SendToRight(DriverMsg::TripResponse(resp))]
        } else if !resp.status {
            let dec = self.declined_of(pid);
            &&& post == (DriverView {
                declined: self.declined.insert(
                    pid,
                    if dec.contains(resp.driver_id) {
                        dec
                    } else {
                        dec.push(resp.driver_id)
                    },
                ),
                ..self
            })
            &&& self.starts_gather(pid, actions)
        } else {
            let closed = DriverView {
                in_flight: self.in_flight.insert(resp.driver_id, pid),
                ..self.trip_closed(pid)
            };
            let msg = PassengerMsg::TripResponse(resp);
            &&& post == closed.after_passenger_send(pid, msg)
            &&& actions == closed.passenger_send_actions(pid, msg)
        }
    }

    /// The report that the trip of `pid` ended arrives here and leads to
    /// `post` and `actions`. A node that does not act as coordinator passes
    /// it on. The coordinator closes the pending trip and, when a driver had
    /// that passenger's trip in flight, clears that entry and tells the
    /// passenger the trip ended; a report with no trip in flight (a repeat)
    /// reaches no passenger.
    pub open spec fn trip_ended_outcome(
        self,
        pid: u16,
        post: DriverView,
        actions: Seq<Action>,
    ) -> bool {
        if !self.acts_as_coordinator() {
            &&& post == self
            &&& actions == seq![
                Action::SendToRight(DriverMsg::SendTripEnded(SendTripEnded { passenger_id: pid })),
            ]
        } else if exists|d: u16| #[trigger]
            self.in_flight.contains_key(d) && self.in_flight[d] == pid {
            exists|d: u16|
                {
                    let closed = DriverView {
                        pending_trips: self.pending_trips.remove(pid),
                        in_flight: self.in_flight.remove(d),
                        ..self
                    };
                    &&& #[trigger] self.in_flight.contains_key(d)
                    &&& self.in_flight[d] == pid
                    &&& post == closed.after_passenger_send(pid, PassengerMsg::TripEnded)
                    &&& actions == closed.passenger_send_actions(pid, PassengerMsg::TripEnded)
                }
        } else {
            &&& post == (DriverView { pending_trips: self.pending_trips.remove(pid), ..self })
            &&& actions == Seq::<Action>::empty()
        }
    }

    /// The actions of `DriverConnected` arriving here. A node that does not
    /// act as coordinator passes it on; the coordinator, when that driver has
    /// a trip in flight, asks it to close the trip.
    pub open spec fn driver_connected_actions(self, msg: DriverConnected) -> Seq<Action> {
        if !self.acts_as_coordinator() {
            seq![Action::SendToRight(DriverMsg::DriverConnected(msg))]
        } else if self.in_flight.contains_key(msg.driver_id) {
            seq![
                Action::SendToRight(
                    DriverMsg::UnresolvedTrip(
                        UnresolvedTrip {
                            passenger_id: self.in_flight[msg.driver_id],
                            driver_id: msg.driver_id,
                        },
                    ),
                ),
            ]
        } else {
            Seq::<Action>::empty()
        }
    }

    /// The actions of `UnresolvedTrip` arriving here: the named driver reports
    /// the end of the trip; any other node passes the request on.
    pub open spec fn unresolved_trip_actions(self, msg: UnresolvedTrip) -> Seq<Action> {
        if msg.driver_id != self.id {
            seq![Action::SendToRight(DriverMsg::UnresolvedTrip(msg))]
        } else {
            seq![
                Action::Deliver(
                    DriverMsg::SendTripEnded(SendTripEnded { passenger_id: msg.passenger_id }),
                ),
            ]
        }
    }
}

/// `m` is a position gather for `pid` carrying exactly `snapshot`.
pub open spec fn carries_snapshot(m: DriverMsg, pid: u16, snapshot: Map<u16, Position>) -> bool {
    match m {
        DriverMsg::CoordinatesResponse(c) => {
            &&& c.passenger_id == pid
            &&& c.drivers_coordinates.wf()
            &&& c.drivers_coordinates@ == snapshot
        },
        _ => false,
    }
}

/// Relies on `rand::random::<bool>`: a fair coin drawn from the thread-local
/// generator. Nothing is known of the outcome.
#[verifier::external_body]
fn draw_acceptance() -> (r: bool) {
    rand::random::<bool>()
}

/// One node of the driver ring.
pub struct Driver {
    id: u16,
    coordinates: Position,
    status: DriverStatus,
    free_drivers_position: Option<IdMap<Position>>,
    driver_left_id: Option<u16>,
    driver_right_id: Option<u16>,
    coordinator_id: Option<u16>,
    passengers: IdMap<()>,
    passengers_trips: IdMap<(Position, Position)>,
    trips_drivers_declined: IdMap<Vec<u16>>,
    unresolved_messages: IdMap<Vec<PassengerMsg>>,
    started_trips: IdMap<u16>,
}

impl View for Driver {
    type V = DriverView;

    closed spec fn view(&self) -> DriverView {
        DriverView {
            id: self.id,
            coordinates: self.coordinates,
            status: self.status,
            snapshot: match self.free_drivers_position {
                Some(m) => Some(m@),
                None => None,
            },
            left_id: self.driver_left_id,
            right_id: self.driver_right_id,
            coordinator_id: self.coordinator_id,
            passengers: self.passengers@.dom(),
            pending_trips: self.passengers_trips@,
            declined: self.trips_drivers_declined@.map_values(|v: Vec<u16>| v@),
            unresolved: self.unresolved_messages@.map_values(|v: Vec<PassengerMsg>| v@),
            in_flight: self.started_trips@,
        }
    }
}

impl Driver {
    /// Well-formedness of every map the node holds.
    pub closed spec fn wf(&self) -> bool {
        &&& match self.free_drivers_position {
            Some(m) => m.wf(),
            None => true,
        }
        &&& self.passengers.wf()
        &&& self.passengers_trips.wf()
        &&& self.trips_drivers_declined.wf()
        &&& self.unresolved_messages.wf()
        &&& self.started_trips.wf()
    }

    /// A driver with id `id` at `(x_position, y_position)`, available, with no
    /// neighbours, no known coordinator and no trips.
    pub fn new(id: u16, x_position: u8, y_position: u8) -> (r: Driver)
        ensures
            r.wf(),
            r@.id == id,
            r@.coordinates == (x_position, y_position),
            r@.status == DriverStatus::Available,
            r@.snapshot.is_none(),
            r@.left_id.is_none(),
            r@.right_id.is_none(),
            r@.coordinator_id.is_none(),
            r@.passengers.is_empty(),
            r@.pending_trips.is_empty(),
            r@.declined.is_empty(),
            r@.unresolved.is_empty(),
            r@.in_flight.is_empty(),
    {
        let r = Driver {
            id,
            coordinates: (x_position, y_position),
            status: DriverStatus::Available,
            free_drivers_position: None,
            driver_left_id: None,
            driver_right_id: None,
            coordinator_id: None,
            passengers: IdMap::new(),
            passengers_trips: IdMap::new(),
            trips_drivers_declined: IdMap::new(),
            unresolved_messages: IdMap::new(),
            started_trips: IdMap::new(),
        };
        proof {
            assert(r@.passengers =~= Set::empty());
            assert(r@.declined =~= Map::empty());
            assert(r@.unresolved =~= Map::empty());
        }
        r
    }

    /// Holds `msg` back for passenger `pid`, after those already held.
    fn buffer_message(&mut self, pid: u16, msg: PassengerMsg)
        requires
            old(self).wf(),
        ensures
            final(self).wf(),
            final(self)@ == old(self)@.buffered(pid, msg),
    {
        let mut queue = match self.unresolved_messages.remove(pid) {
            Some(q) => q,
            None => Vec::new(),
        };
        queue.push(msg);
        self.unresolved_messages.insert(pid, queue);
        proof {
            assert(self@.unresolved =~= old(self)@.unresolved.insert(
                pid,
                old(self)@.unresolved_of(pid).push(msg),
            ));
        }
    }

    /// Sends `msg` to passenger `pid` if connected, else holds it back.
    fn send_to_passenger(&mut self, pid: u16, msg: PassengerMsg, actions: &mut Vec<Action>)
        requires
            old(self).wf(),
        ensures
            final(self).wf(),
            final(self)@ == old(self)@.after_passenger_send(pid, msg),
            final(actions)@ == old(actions)@ + old(self)@.passenger_send_actions(pid, msg),
    {
        if self.passengers.contains_key(pid) {
            actions.push(Action::SendToPassenger { passenger_id: pid, msg });
            proof {
                assert(actions@ =~= old(actions)@ + old(self)@.passenger_send_actions(
                    pid,
                    msg,
                ));
            }
        } else {
            self.buffer_message(pid, msg);
            proof {
                assert(actions@ =~= old(actions)@ + old(self)@.passenger_send_actions(
                    pid,
                    msg,
                ));
            }
        }
    }

    /// The right-probe finished: `right` is the id of the new right neighbour,
    /// or `None` when no other driver answered.
    ///
    /// With a right neighbour of smaller id the node declares itself
    /// coordinator; with a larger one it hands the part over when it held it
    /// alone; otherwise it keeps its belief. It then introduces itself to the
    /// right with that belief. With no neighbour it is its own coordinator and
    /// forgets both links.
    pub fn handle_right_connected(&mut self, right: Option<u16>) -> (r: Vec<Action>)
        requires
            old(self).wf(),
        ensures
            final(self).wf(),
            match right {
                Some(rid) => {
                    let c = if rid < old(self)@.id {
                        Some(old(self)@.id)
                    } else if old(self)@.coordinator_id == Some(old(self)@.id) {
                        Some(rid)
                    } else {
                        old(self)@.coordinator_id
                    };
                    &&& final(self)@ == (DriverView {
                        right_id: Some(rid),
                        coordinator_id: c,
                        ..old(self)@
                    })
                    &&& r@ == seq![
                        Action::SendToRight(
                            DriverMsg::Connect(
                                Connect {
                                    from: ConnectionType::Driver,
                                    id: old(self)@.id,
                                    coordinator_id: c,
                                },
                            ),
                        ),
                    ]
                },
                None => {
                    &&& final(self)@ == (DriverView {
                        right_id: None,
                        left_id: None,
                        coordinator_id: Some(old(self)@.id),
                        ..old(self)@
                    })
                    &&& r@ == Seq::<Action>::empty()
                },
            },
    {
        let mut actions: Vec<Action> = Vec::new();
        match right {
            Some(rid) => {
                self.driver_right_id = Some(rid);
                if rid < self.id {
                    self.coordinator_id = Some(self.id);
                } else if self.coordinator_id == Some(self.id) {
                    self.coordinator_id = Some(rid);
                }
                actions.push(
                    Action::SendToRight(
                        DriverMsg::Connect(
                            Connect {
                                from: ConnectionType::Driver,
                                id: self.id,
                                coordinator_id: self.coordinator_id,
                            },
                        ),
                    ),
                );
            },
            None => {
                self.coordinator_id = Some(self.id);
                self.driver_right_id = None;
                self.driver_left_id = None;
            },
        }
        proof {
            if right.is_none() {
                assert(actions@ =~= Seq::<Action>::empty());
            }
        }
        actions
    }

    /// A driver `left` connected in from the left, believing in
    /// `coordinator_id`.
    ///
    /// A stated coordinator is adopted and announced to the right. The new
    /// link replaces the current left link, which is first told to
    /// disconnect. A node without a right neighbour then probes for one;
    /// otherwise it announces the newcomer to the right.
    pub fn handle_driver_connection(&mut self, left: u16, coordinator_id: Option<u16>) -> (r: Vec<
        Action,
    >)
        requires
            old(self).wf(),
        ensures
            final(self).wf(),
            final(self)@ == (DriverView {
                left_id: Some(left),
                coordinator_id: if coordinator_id.is_some() {
                    coordinator_id
                } else {
                    old(self)@.coordinator_id
                },
                ..old(self)@
            }),
            r@ == (match coordinator_id {
                Some(c) => seq![Action::SendToRight(DriverMsg::NewCoordinator(NewCoordinator { id: c }))],
                None => Seq::<Action>::empty(),
            }) + (if old(self)@.left_id.is_some() {
                seq![Action::DisconnectLeft]
            } else {
                Seq::<Action>::empty()
            }) + (if old(self)@.right_id.is_none() {
                seq![Action::ConnectToRight]
            } else {
                seq![Action::SendToRight(DriverMsg::DriverConnected(DriverConnected { driver_id: left }))]
            }),
    {
        let mut actions: Vec<Action> = Vec::new();
        if let Some(c) = coordinator_id {
            self.coordinator_id = Some(c);
            actions.push(Action::SendToRight(DriverMsg::NewCoordinator(NewCoordinator { id: c })));
        }
        let ghost a1 = actions@;
        if self.driver_left_id.is_some() {
            actions.push(Action::DisconnectLeft);
        }
        let ghost a2 = actions@;
        self.driver_left_id = Some(left);
        if self.driver_right_id.is_none() {
            actions.push(Action::ConnectToRight);
        } else {
            actions.push(
                Action::SendToRight(DriverMsg::DriverConnected(DriverConnected { driver_id: left })),
            );
        }
        proof {
            assert(a1 =~= (match coordinator_id {
                Some(c) => seq![Action::SendToRight(DriverMsg::NewCoordinator(NewCoordinator { id: c }))],
                None => Seq::<Action>::empty(),
            }));
            assert(a2 =~= a1 + (if old(self)@.left_id.is_some() {
                seq![Action::DisconnectLeft]
            } else {
                Seq::<Action>::empty()
            }));
            assert(actions@ =~= a2 + (if old(self)@.right_id.is_none() {
                seq![Action::ConnectToRight]
            } else {
                seq![Action::SendToRight(DriverMsg::DriverConnected(DriverConnected { driver_id: left }))]
            }));
        }
        actions
    }

    /// The right link was lost, or the right neighbour asked this node to
    /// disconnect: probe for a new right neighbour.
    pub fn handle_right_lost(&mut self) -> (r: Vec<Action>)
        requires
            old(self).wf(),
        ensures
            final(self).wf(),
            final(self)@ == old(self)@,
            r@ == seq![Action::ConnectToRight],
    {
        let mut actions: Vec<Action> = Vec::new();
        actions.push(Action::ConnectToRight);
        proof {
            assert(actions@ =~= seq![Action::ConnectToRight]);
        }
        actions
    }

    /// `NewCoordinator { id }` arrived: adopt `id`, and pass the announcement
    /// on unless it has come back to the coordinator itself. Once the node
    /// already follows `id`, its state does not change.
    pub fn handle_new_coordinator(&mut self, id: u16) -> (r: Vec<Action>)
        requires
            old(self).wf(),
        ensures
            final(self).wf(),
            final(self)@ == old(self)@.with_coordinator(id),
            old(self)@.coordinator_id == Some(id) ==> final(self)@ == old(self)@,
            r@ == old(self)@.new_coordinator_actions(id),
    {
        self.coordinator_id = Some(id);
        let mut actions: Vec<Action> = Vec::new();
        if id != self.id {
            actions.push(Action::SendToRight(DriverMsg::NewCoordinator(NewCoordinator { id })));
        }
        proof {
            if id != old(self)@.id {
                assert(actions@ =~= seq![
                    Action::SendToRight(DriverMsg::NewCoordinator(NewCoordinator { id })),
                ]);
            } else {
                assert(actions@ =~= Seq::<Action>::empty());
            }
        }
        actions
    }

    /// Records the trip request of passenger `pid`.
    pub fn store_trip(&mut self, pid: u16, origin: Position, destination: Position)
        requires
            old(self).wf(),
        ensures
            final(self).wf(),
            final(self)@ == old(self)@.stored(pid, origin, destination),
    {
        self.passengers_trips.insert(pid, (origin, destination));
        self.trips_drivers_declined.remove(pid);
        proof {
            assert(self@.declined =~= old(self)@.declined.remove(pid));
        }
    }

    /// Starts a position gather for passenger `pid` with this node's entry.
    pub fn handle_coordinates_request(&mut self, pid: u16) -> (r: Vec<Action>)
        requires
            old(self).wf(),
        ensures
            final(self).wf(),
            final(self)@ == old(self)@,
            old(self)@.starts_gather(pid, r@),
    {
        let mut drivers_coordinates: IdMap<Position> = IdMap::new();
        if self.status == DriverStatus::Available {
            drivers_coordinates.insert(self.id, self.coordinates);
        }
        proof {
            assert(drivers_coordinates@ =~= self@.gathered(Map::empty()));
        }
        let msg = DriverMsg::CoordinatesResponse(
            CoordinatesResponse { drivers_coordinates, passenger_id: pid },
        );
        let mut actions: Vec<Action> = Vec::new();
        if self.driver_right_id.is_none() {
            actions.push(Action::Deliver(msg));
        } else {
            actions.push(Action::SendToRight(msg));
        }
        actions
    }

    /// Passenger `pid` asks for a trip: record it and start a position gather.
    pub fn handle_trip_request(&mut self, pid: u16, req: TripRequest) -> (r: Vec<Action>)
        requires
            old(self).wf(),
        ensures
            final(self).wf(),
            final(self)@ == old(self)@.stored(pid, req.start, req.end),
            old(self)@.starts_gather(pid, r@),
    {
        self.store_trip(pid, req.start, req.end);
        self.handle_coordinates_request(pid)
    }

    /// Chooses the driver to offer the pending trip of `pid` to, from the last
    /// snapshot, or tells the passenger that no driver can take it.
    pub fn select_driver(&mut self, pid: u16) -> (r: Vec<Action>)
        requires
            old(self).wf(),
        ensures
            final(self).wf(),
            old(self)@.select_outcome(pid, final(self)@, r@),
    {
        let mut actions: Vec<Action> = Vec::new();
        let (origin, destination) = match self.passengers_trips.get(pid) {
            Some(t) => *t,
            None => {
                return actions;
            },
        };
        let empty: Vec<u16> = Vec::new();
        let chosen = match &self.free_drivers_position {
            Some(snapshot) => {
                let declined: &Vec<u16> = match self.trips_drivers_declined.get(pid) {
                    Some(v) => v,
                    None => &empty,
                };
                proof {
                    assert(declined@ == old(self)@.declined_of(pid));
                }
                let no_decline = declined.len() == 0;
                (select_closest(snapshot, origin, declined), no_decline)
            },
            None => {
                proof {
                    assert(actions@ =~= Seq::<Action>::empty());
                }
                return actions;
            },
        };
        let ghost snap = old(self)@.snapshot.unwrap();
        let ghost dec = old(self)@.declined_of(pid);
        match chosen.0 {
            Some(d) => {
                let offer = OfferToDriver {
                    driver_id: d,
                    origin,
                    destination,
                    passenger_id: pid,
                };
                if d == self.id {
                    actions.push(Action::Deliver(DriverMsg::OfferToDriver(offer)));
                } else {
                    actions.push(Action::SendToRight(DriverMsg::OfferToDriver(offer)));
                }
                proof {
                    assert(eligible(snap, dec, d));
                    assert(actions@ =~= seq![old(self)@.offer_action(offer)]);
                }
            },
            None => {
                let reason = if chosen.1 {
                    DeclineReason::DriversBusy
                } else {
                    DeclineReason::NotAccepted
                };
                let msg = PassengerMsg::TripResponse(
                    TripResponse {
                        status: false,
                        reason: Some(reason),
                        passenger_id: pid,
                        driver_id: self.id,
                    },
                );
                self.passengers_trips.remove(pid);
                self.trips_drivers_declined.remove(pid);
                proof {
                    assert(self@.declined =~= old(self)@.declined.remove(pid));
                    assert(self@ == old(self)@.trip_closed(pid));
                    assert(actions@ =~= Seq::<Action>::empty());
                }
                self.send_to_passenger(pid, msg, &mut actions);
                proof {
                    assert(actions@ =~= old(self)@.trip_closed(pid).passenger_send_actions(
                        pid,
                        msg,
                    ));
                }
            },
        }
        actions
    }

    /// A position gather arrived (see `DriverView::gather_outcome`).
    pub fn handle_coordinates_response(&mut self, resp: CoordinatesResponse) -> (r: Vec<Action>)
        requires
            old(self).wf(),
            resp.drivers_coordinates.wf(),
        ensures
            final(self).wf(),
            old(self)@.gather_outcome(
                resp.passenger_id,
                resp.drivers_coordinates@,
                final(self)@,
                r@,
            ),
    {
        let coordinator_id = match self.coordinator_id {
            Some(c) => c,
            None => {
                return Vec::new();
            },
        };
        let pid = resp.passenger_id;
        if self.id == coordinator_id {
            self.free_drivers_position = Some(resp.drivers_coordinates);
            self.select_driver(pid)
        } else {
            let mut drivers_coordinates = resp.drivers_coordinates;
            if self.status == DriverStatus::Available {
                drivers_coordinates.insert(self.id, self.coordinates);
            }
            let mut actions: Vec<Action> = Vec::new();
            actions.push(
                Action::SendToRight(
                    DriverMsg::CoordinatesResponse(
                        CoordinatesResponse { drivers_coordinates, passenger_id: pid },
                    ),
                ),
            );
            actions
        }
    }

    /// An offer arrived, with `accept_draw` the outcome of this node's coin
    /// (see `DriverView::offer_outcome`). A busy node always declines and
    /// stays as it is.
    pub fn handle_offer_with(&mut self, offer: OfferToDriver, accept_draw: bool) -> (r: Vec<
        Action,
    >)
        requires
            old(self).wf(),
        ensures
            final(self).wf(),
            old(self)@.offer_outcome(offer, accept_draw, final(self)@, r@),
            old(self)@.status == DriverStatus::Busy ==> final(self)@ == old(self)@,
    {
        let mut actions: Vec<Action> = Vec::new();
        if offer.driver_id != self.id {
            actions.push(Action::SendToRight(DriverMsg::OfferToDriver(offer)));
            proof {
                assert(actions@ =~= seq![Action::SendToRight(DriverMsg::OfferToDriver(offer))]);
            }
            return actions;
        }
        let accepted = accept_draw && self.status == DriverStatus::Available;
        let resp = TripResponse {
            status: accepted,
            reason: None,
            passenger_id: offer.passenger_id,
            driver_id: self.id,
        };
        let acts_as_coordinator = match self.coordinator_id {
            Some(c) => c == self.id,
            None => true,
        };
        if acts_as_coordinator {
            actions.push(Action::Deliver(DriverMsg::TripResponse(resp)));
        } else {
            actions.push(Action::SendToRight(DriverMsg::TripResponse(resp)));
        }
        let ghost first = actions@;
        if accepted {
            self.status = DriverStatus::Busy;
            actions.push(Action::StartTrip { passenger_id: offer.passenger_id });
        }
        proof {
            assert(first =~= seq![old(self)@.toward_coordinator(DriverMsg::TripResponse(resp))]);
            if accepted {
                assert(actions@ =~= first + seq![
                    Action::StartTrip { passenger_id: offer.passenger_id },
                ]);
            } else {
                assert(actions@ =~= first + Seq::<Action>::empty());
            }
        }
        actions
    }

    /// An offer arrived: a fair coin drawn here decides (see
    /// `handle_offer_with`). Whatever the coin, the outcome is one of the two
    /// that `offer_outcome` allows, and a busy node stays as it is.
    pub fn handle_offer(&mut self, offer: OfferToDriver) -> (r: Vec<Action>)
        requires
            old(self).wf(),
        ensures
            final(self).wf(),
            exists|accept_draw: bool| #[trigger]
                old(self)@.offer_outcome(offer, accept_draw, final(self)@, r@),
            old(self)@.status == DriverStatus::Busy ==> final(self)@ == old(self)@,
    {
        let accept_draw = draw_acceptance();
        self.handle_offer_with(offer, accept_draw)
    }

    /// A driver's answer to an offer arrived (see
    /// `DriverView::trip_response_outcome`).
    pub fn handle_trip_response(&mut self, resp: TripResponse) -> (r: Vec<Action>)
        requires
            old(self).wf(),
        ensures
            final(self).wf(),
            old(self)@.trip_response_outcome(resp, final(self)@, r@),
    {
        let pid = resp.passenger_id;
        let acts_as_coordinator = match self.coordinator_id {
            Some(c) => c == self.id,
            None => true,
        };
        if !acts_as_coordinator {
            let mut actions: Vec<Action> = Vec::new();
            actions.push(Action::SendToRight(DriverMsg::TripResponse(resp)));
            proof {
                assert(actions@ =~= seq![Action::SendToRight(DriverMsg::TripResponse(resp))]);
            }
            return actions;
        }
        if !resp.status {
            let mut declined = match self.trips_drivers_declined.remove(pid) {
                Some(v) => v,
                None => Vec::new(),
            };
            if !contains_id(&declined, resp.driver_id) {
                declined.push(resp.driver_id);
            }
            self.trips_drivers_declined.insert(pid, declined);
            proof {
                let dec = old(self)@.declined_of(pid);
                assert(self@.declined =~= old(self)@.declined.insert(
                    pid,
                    if dec.contains(resp.driver_id) {
                        dec
                    } else {
                        dec.push(resp.driver_id)
                    },
                ));
            }
            return self.handle_coordinates_request(pid);
        }
        self.started_trips.insert(resp.driver_id, pid);
        self.passengers_trips.remove(pid);
        self.trips_drivers_declined.remove(pid);
        proof {
            assert(self@.declined =~= old(self)@.declined.remove(pid));
        }
        let mut actions: Vec<Action> = Vec::new();
        self.send_to_passenger(pid, PassengerMsg::TripResponse(resp), &mut actions);
        proof {
            assert(actions@ =~= Seq::<Action>::empty() + actions@);
        }
        actions
    }

    /// The trip of passenger `pid` that this node drove is over: the node is
    /// available again and reports the end toward the coordinator.
    pub fn handle_trip_finished(&mut self, pid: u16) -> (r: Vec<Action>)
        requires
            old(self).wf(),
        ensures
            final(self).wf(),
            final(self)@ == (DriverView { status: DriverStatus::Available, ..old(self)@ }),
            r@ == seq![
                old(self)@.toward_coordinator(
                    DriverMsg::SendTripEnded(SendTripEnded { passenger_id: pid }),
                ),
            ],
    {
        self.status = DriverStatus::Available;
        let msg = DriverMsg::SendTripEnded(SendTripEnded { passenger_id: pid });
        let acts_as_coordinator = match self.coordinator_id {
            Some(c) => c == self.id,
            None => true,
        };
        let mut actions: Vec<Action> = Vec::new();
        if acts_as_coordinator {
            actions.push(Action::Deliver(msg));
        } else {
            actions.push(Action::SendToRight(msg));
        }
        proof {
            assert(actions@ =~= seq![old(self)@.toward_coordinator(msg)]);
        }
        actions
    }

    /// The end of the trip of `msg.passenger_id` was reported (see
    /// `DriverView::trip_ended_outcome`).
    pub fn handle_send_trip_ended(&mut self, msg: SendTripEnded) -> (r: Vec<Action>)
        requires
            old(self).wf(),
        ensures
            final(self).wf(),
            old(self)@.trip_ended_outcome(msg.passenger_id, final(self)@, r@),
    {
        let pid = msg.passenger_id;
        let acts_as_coordinator = match self.coordinator_id {
            Some(c) => c == self.id,
            None => true,
        };
        let mut actions: Vec<Action> = Vec::new();
        if !acts_as_coordinator {
            actions.push(Action::SendToRight(DriverMsg::SendTripEnded(msg)));
            proof {
                assert(actions@ =~= seq![Action::SendToRight(DriverMsg::SendTripEnded(msg))]);
            }
            return actions;
        }
        let driver = self.started_trips.key_of(pid);
        self.passengers_trips.remove(pid);
        match driver {
            Some(d) => {
                self.started_trips.remove(d);
                self.send_to_passenger(pid, PassengerMsg::TripEnded, &mut actions);
                proof {
                    assert(actions@ =~= Seq::<Action>::empty() + actions@);
                    assert(old(self)@.in_flight.contains_key(d));
                }
            },
            None => {},
        }
        actions
    }

    /// A driver announced that it (re)joined the ring (see
    /// `DriverView::driver_connected_actions`).
    pub fn handle_driver_connected(&mut self, msg: DriverConnected) -> (r: Vec<Action>)
        requires
            old(self).wf(),
        ensures
            final(self).wf(),
            final(self)@ == old(self)@,
            r@ == old(self)@.driver_connected_actions(msg),
    {
        let acts_as_coordinator = match self.coordinator_id {
            Some(c) => c == self.id,
            None => true,
        };
        let mut actions: Vec<Action> = Vec::new();
        if !acts_as_coordinator {
            actions.push(Action::SendToRight(DriverMsg::DriverConnected(msg)));
        } else {
            match self.started_trips.get(msg.driver_id) {
                Some(pid) => {
                    actions.push(
                        Action::SendToRight(
                            DriverMsg::UnresolvedTrip(
                                UnresolvedTrip { passenger_id: *pid, driver_id: msg.driver_id },
                            ),
                        ),
                    );
                },
                None => {},
            }
        }
        proof {
            assert(actions@ =~= old(self)@.driver_connected_actions(msg));
        }
        actions
    }

    /// The coordinator asks driver `msg.driver_id` to close a trip it had in
    /// flight (see `DriverView::unresolved_trip_actions`).
    pub fn handle_unresolved_trip(&mut self, msg: UnresolvedTrip) -> (r: Vec<Action>)
        requires
            old(self).wf(),
        ensures
            final(self).wf(),
            final(self)@ == old(self)@,
            r@ == old(self)@.unresolved_trip_actions(msg),
    {
        let mut actions: Vec<Action> = Vec::new();
        if msg.driver_id != self.id {
            actions.push(Action::SendToRight(DriverMsg::UnresolvedTrip(msg)));
        } else {
            actions.push(
                Action::Deliver(
                    DriverMsg::SendTripEnded(SendTripEnded { passenger_id: msg.passenger_id }),
                ),
            );
        }
        proof {
            assert(actions@ =~= old(self)@.unresolved_trip_actions(msg));
        }
        actions
    }

    /// The answer to a passenger's `Connect`: only the coordinator accepts.
    pub fn connect_reply(&self) -> (r: ConnectRes)
        requires
            self.wf(),
        ensures
            r.status == self@.is_coordinator(),
            r.leader_id.is_none(),
    {
        ConnectRes { status: self.coordinator_id == Some(self.id), leader_id: None }
    }

    /// Passenger `pid` is now connected: the messages held back for it are
    /// sent, once each and in the order they were held back.
    pub fn add_passenger(&mut self, pid: u16) -> (r: Vec<Action>)
        requires
            old(self).wf(),
        ensures
            final(self).wf(),
            final(self)@ == (DriverView {
                passengers: old(self)@.passengers.insert(pid),
                unresolved: old(self)@.unresolved.remove(pid),
                ..old(self)@
            }),
            r@ == old(self)@.unresolved_of(pid).map_values(
                |m: PassengerMsg| Action::SendToPassenger { passenger_id: pid, msg: m },
            ),
    {
        self.passengers.insert(pid, ());
        let queue = match self.unresolved_messages.remove(pid) {
            Some(q) => q,
            None => Vec::new(),
        };
        proof {
            assert(queue@ == old(self)@.unresolved_of(pid));
            assert(self@.unresolved =~= old(self)@.unresolved.remove(pid));
            assert(self@.passengers =~= old(self)@.passengers.insert(pid));
        }
        let mut actions: Vec<Action> = Vec::new();
        let mut i: usize = 0;
        while i < queue.len()
            invariant
                i <= queue@.len(),
                actions@ =~= queue@.take(i as int).map_values(
                    |m: PassengerMsg| Action::SendToPassenger { passenger_id: pid, msg: m },
                ),
            decreases queue@.len() - i,
        {
            actions.push(Action::SendToPassenger { passenger_id: pid, msg: queue[i] });
            i = i + 1;
            proof {
                assert(queue@.take(i as int) =~= queue@.take(i - 1).push(queue@[i - 1]));
            }
        }
        proof {
            assert(queue@.take(i as int) =~= queue@);
        }
        actions
    }

    /// The connection of passenger `pid` closed; later messages are held back.
    pub fn remove_passenger(&mut self, pid: u16)
        requires
            old(self).wf(),
        ensures
            final(self).wf(),
            final(self)@ == (DriverView {
                passengers: old(self)@.passengers.remove(pid),
                ..old(self)@
            }),
    {
        self.passengers.remove(pid);
        proof {
            assert(self@.passengers =~= old(self)@.passengers.remove(pid));
        }
    }

    /// Writing `msg` to passenger `pid` failed: hold it back for the next
    /// connection.
    pub fn passenger_send_failed(&mut self, pid: u16, msg: PassengerMsg)
        requires
            old(self).wf(),
        ensures
            final(self).wf(),
            final(self)@ == old(self)@.buffered(pid, msg),
    {
        self.buffer_message(pid, msg);
    }

    /// A message from the ring (or handed back by `Action::Deliver`) arrived.
    /// Each kind goes to its handler; a trip request or a `Connect` does not
    /// belong on a ring link and is ignored, and `Disconnect` makes the node
    /// look for a new right neighbour.
    pub fn handle_driver_msg(&mut self, msg: DriverMsg) -> (r: Vec<Action>)
        requires
            old(self).wf(),
            msg is CoordinatesResponse ==> msg->CoordinatesResponse_0.drivers_coordinates.wf(),
        ensures
            final(self).wf(),
            match msg {
                DriverMsg::TripRequest(_) => final(self)@ == old(self)@ && r@ == Seq::<
                    Action,
                >::empty(),
                DriverMsg::Connect(_) => final(self)@ == old(self)@ && r@ == Seq::<Action>::empty(),
                DriverMsg::Disconnect => final(self)@ == old(self)@ && r@ == seq![
                    Action::ConnectToRight,
                ],
                DriverMsg::NewCoordinator(m) => final(self)@ == old(self)@.with_coordinator(m.id)
                    && r@ == old(self)@.new_coordinator_actions(m.id),
                DriverMsg::CoordinatesRequest(m) => final(self)@ == old(self)@ && old(
                    self,
                )@.starts_gather(m.passenger_id, r@),
                DriverMsg::CoordinatesResponse(m) => old(self)@.gather_outcome(
                    m.passenger_id,
                    m.drivers_coordinates@,
                    final(self)@,
                    r@,
                ),
                DriverMsg::OfferToDriver(m) => exists|accept_draw: bool| #[trigger]
                    old(self)@.offer_outcome(m, accept_draw, final(self)@, r@),
                DriverMsg::TripResponse(m) => old(self)@.trip_response_outcome(m, final(self)@, r@),
                DriverMsg::SendTripEnded(m) => old(self)@.trip_ended_outcome(
                    m.passenger_id,
                    final(self)@,
                    r@,
                ),
                DriverMsg::DriverConnected(m) => final(self)@ == old(self)@ && r@ == old(
                    self,
                )@.driver_connected_actions(m),
                DriverMsg::UnresolvedTrip(m) => final(self)@ == old(self)@ && r@ == old(
                    self,
                )@.unresolved_trip_actions(m),
            },
    {
        match msg {
            DriverMsg::TripRequest(_) => Vec::new(),
            DriverMsg::Connect(_) => Vec::new(),
            DriverMsg::Disconnect => self.handle_right_lost(),
            DriverMsg::NewCoordinator(m) => self.handle_new_coordinator(m.id),
            DriverMsg::CoordinatesRequest(m) => self.handle_coordinates_request(m.passenger_id),
            DriverMsg::CoordinatesResponse(m) => self.handle_coordinates_response(m),
            DriverMsg::OfferToDriver(m) => self.handle_offer(m),
            DriverMsg::TripResponse(m) => self.handle_trip_response(m),
            DriverMsg::SendTripEnded(m) => self.handle_send_trip_ended(m),
            DriverMsg::DriverConnected(m) => self.handle_driver_connected(m),
            DriverMsg::UnresolvedTrip(m) => self.handle_unresolved_trip(m),
        }
    }

    /// This driver's id.
    pub fn id(&self) -> (r: u16)
        ensures
            r == self@.id,
    {
        self.id
    }

    /// This driver's position.
    pub fn coordinates(&self) -> (r: Position)
        ensures
            r == self@.coordinates,
    {
        self.coordinates
    }

    /// Whether this driver can take a trip.
    pub fn status(&self) -> (r: DriverStatus)
        ensures
            r == self@.status,
    {
        self.status
    }

    /// The coordinator this driver follows.
    pub fn coordinator_id(&self) -> (r: Option<u16>)
        ensures
            r == self@.coordinator_id,
    {
        self.coordinator_id
    }

    /// Whether this driver is the coordinator it follows.
    pub fn is_coordinator(&self) -> (r: bool)
        ensures
            r == self@.is_coordinator(),
    {
        self.coordinator_id == Some(self.id)
    }

    /// The left neighbour's id.
    pub fn left_id(&self) -> (r: Option<u16>)
        ensures
            r == self@.left_id,
    {
        self.driver_left_id
    }

    /// The right neighbour's id.
    pub fn right_id(&self) -> (r: Option<u16>)
        ensures
            r == self@.right_id,
    {
        self.driver_right_id
    }

    /// The pending trip of passenger `pid`, as (origin, destination).
    pub fn pending_trip(&self, pid: u16) -> (r: Option<(Position, Position)>)
        requires
            self.wf(),
        ensures
            r == if self@.pending_trips.contains_key(pid) {
                Some(self@.pending_trips[pid])
            } else {
                None
            },
    {
        match self.passengers_trips.get(pid) {
            Some(t) => Some(*t),
            None => None,
        }
    }

    /// The passenger whose trip driver `driver_id` has in flight.
    pub fn in_flight_passenger(&self, driver_id: u16) -> (r: Option<u16>)
        requires
            self.wf(),
        ensures
            r == if self@.in_flight.contains_key(driver_id) {
                Some(self@.in_flight[driver_id])
            } else {
                None
            },
    {
        match self.started_trips.get(driver_id) {
            Some(p) => Some(*p),
            None => None,
        }
    }

    /// Whether driver `driver_id` declined the trip of passenger `pid`.
    pub fn has_declined(&self, pid: u16, driver_id: u16) -> (r: bool)
        requires
            self.wf(),
        ensures
            r == self@.declined_of(pid).contains(driver_id),
    {
        match self.trips_drivers_declined.get(pid) {
            Some(v) => contains_id(v, driver_id),
            None => false,
        }
    }

    /// How many messages are held back for passenger `pid`.
    pub fn held_messages(&self, pid: u16) -> (r: usize)
        requires
            self.wf(),
        ensures
            r == self@.unresolved_of(pid).len(),
    {
        match self.unresolved_messages.get(pid) {
            Some(v) => v.len(),
            None => 0,
        }
    }

    /// Whether passenger `pid` is connected.
    pub fn is_passenger_connected(&self, pid: u16) -> (r: bool)
        requires
            self.wf(),
        ensures
            r == self@.passengers.contains(pid),
    {
        self.passengers.contains_key(pid)
    }
}

} // verus!
