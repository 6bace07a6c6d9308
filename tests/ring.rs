use std::collections::VecDeque;

use ride_ring::driver::{Action, Driver, DriverStatus};
use ride_ring::messages::{
    ConnectionType, DeclineReason, DriverMsg, PassengerMsg, TripRequest, TripResponse,
};
use ride_ring::passenger::next_scan_start;
use ride_ring::payments::{MakePayment, PaymentMsg, Payments, ValidatePayment, ValidatePaymentResponse, ValidationStatus, PAYMENTS_PORT};
use ride_ring::MAX_DRIVERS;

enum Event {
    Msg(DriverMsg),
    RightConnected(Option<u16>),
    DriverConnection(u16, Option<u16>),
    RightLost,
}

/// Runs drivers in one process, delivering every action as the runtime would.
struct Sim {
    drivers: Vec<Option<Driver>>,
    left_link: Vec<Option<u16>>,
    coins: Vec<VecDeque<bool>>,
    queue: VecDeque<(u16, Event)>,
    inbox: Vec<(u16, PassengerMsg)>,
    trips: Vec<(u16, u16)>,
}

impl Sim {
    fn new() -> Sim {
        let n = MAX_DRIVERS as usize;
        Sim {
            drivers: (0..n).map(|_| None).collect(),
            left_link: vec![None; n],
            coins: (0..n).map(|_| VecDeque::new()).collect(),
            queue: VecDeque::new(),
            inbox: Vec::new(),
            trips: Vec::new(),
        }
    }

    fn driver(&self, id: u16) -> &Driver {
        self.drivers[id as usize].as_ref().unwrap()
    }

    fn driver_mut(&mut self, id: u16) -> &mut Driver {
        self.drivers[id as usize].as_mut().unwrap()
    }

    fn start(&mut self, id: u16, x: u8, y: u8) {
        self.drivers[id as usize] = Some(Driver::new(id, x, y));
        self.perform(id, vec![Action::ConnectToRight]);
        self.run();
    }

    fn probe(&self, id: u16) -> Option<u16> {
        for i in 1..MAX_DRIVERS {
            let cand = (id + i) % MAX_DRIVERS;
            if self.drivers[cand as usize].is_some() {
                return Some(cand);
            }
        }
        None
    }

    fn perform(&mut self, from: u16, actions: Vec<Action>) {
        for a in actions {
            match a {
                Action::SendToRight(m) => {
                    if let Some(r) = self.driver(from).right_id() {
                        let ev = match m {
                            DriverMsg::Connect(c) if c.from == ConnectionType::Driver => {
                                Event::DriverConnection(c.id, c.coordinator_id)
                            }
                            other => Event::Msg(other),
                        };
                        self.queue.push_back((r, ev));
                    }
                }
                Action::Deliver(m) => self.queue.push_back((from, Event::Msg(m))),
                Action::SendToPassenger { passenger_id, msg } => {
                    self.inbox.push((passenger_id, msg))
                }
                Action::DisconnectLeft => {
                    if let Some(old_left) = self.left_link[from as usize] {
                        self.queue.push_back((old_left, Event::Msg(DriverMsg::Disconnect)));
                    }
                }
                Action::ConnectToRight => {
                    let right = self.probe(from);
                    self.queue.push_back((from, Event::RightConnected(right)));
                }
                Action::StartTrip { passenger_id } => self.trips.push((from, passenger_id)),
            }
        }
    }

    fn step(&mut self, to: u16, ev: Event) {
        let actions = match ev {
            Event::Msg(DriverMsg::OfferToDriver(o)) if o.driver_id == to => {
                let coin = self.coins[to as usize].pop_front().unwrap_or(true);
                self.driver_mut(to).handle_offer_with(o, coin)
            }
            Event::Msg(m) => self.driver_mut(to).handle_driver_msg(m),
            Event::RightConnected(r) => self.driver_mut(to).handle_right_connected(r),
            Event::DriverConnection(left, c) => {
                let actions = self.driver_mut(to).handle_driver_connection(left, c);
                self.perform(to, actions);
                self.left_link[to as usize] = Some(left);
                return;
            }
            Event::RightLost => self.driver_mut(to).handle_right_lost(),
        };
        self.perform(to, actions);
    }

    fn run(&mut self) {
        let mut steps = 0;
        while let Some((to, ev)) = self.queue.pop_front() {
            steps += 1;
            assert!(steps < 10_000, "the ring does not settle");
            self.step(to, ev);
        }
    }

    fn connect_passenger(&mut self, driver: u16, pid: u16) -> bool {
        let reply = self.driver(driver).connect_reply();
        if reply.status {
            let actions = self.driver_mut(driver).add_passenger(pid);
            self.perform(driver, actions);
            self.run();
        }
        reply.status
    }

    fn request(&mut self, driver: u16, pid: u16, start: (u8, u8), end: (u8, u8)) {
        let actions = self.driver_mut(driver).handle_trip_request(pid, TripRequest { start, end });
        self.perform(driver, actions);
        self.run();
    }

    fn finish_trip(&mut self, driver: u16, pid: u16) {
        let actions = self.driver_mut(driver).handle_trip_finished(pid);
        self.perform(driver, actions);
        self.run();
    }

    fn answers(&self, pid: u16) -> Vec<PassengerMsg> {
        self.inbox.iter().filter(|(p, _)| *p == pid).map(|(_, m)| *m).collect()
    }
}

fn three_drivers() -> Sim {
    let mut sim = Sim::new();
    sim.start(2, 100, 100);
    sim.start(1, 5, 5);
    sim.start(0, 0, 0);
    sim
}

fn accepted(pid: u16, driver_id: u16) -> PassengerMsg {
    PassengerMsg::TripResponse(TripResponse { status: true, reason: None, passenger_id: pid, driver_id })
}

#[test]
fn test_un_conductor_solo_es_coordinador() {
    let mut sim = Sim::new();
    sim.start(1, 80, 20);
    assert_eq!(sim.driver(1).coordinator_id(), Some(1));
    assert!(sim.driver(1).is_coordinator());
    assert_eq!(sim.driver(1).right_id(), None);
}

#[test]
fn election_on_join_converges_to_highest_starter() {
    let sim = three_drivers();
    for id in 0..3 {
        assert_eq!(sim.driver(id).coordinator_id(), Some(2));
    }
    assert!(sim.driver(2).is_coordinator());
    assert!(!sim.driver(1).is_coordinator());
    assert!(!sim.driver(0).is_coordinator());
    assert_eq!(sim.driver(0).right_id(), Some(1));
    assert_eq!(sim.driver(1).right_id(), Some(2));
    assert_eq!(sim.driver(2).right_id(), Some(0));
    assert_eq!(sim.driver(1).left_id(), Some(0));
    assert_eq!(sim.driver(2).left_id(), Some(1));
    assert_eq!(sim.driver(0).left_id(), Some(2));
}

#[test]
fn single_driver_accepts_and_ends_trip() {
    let payments = Payments::new(PAYMENTS_PORT);
    let reply = payments.respond(PaymentMsg::ValidatePayment(ValidatePayment { passenger_id: 42, card_number: 2 }));
    assert_eq!(
        reply,
        Some(PaymentMsg::ValidatePaymentResponse(ValidatePaymentResponse { status: ValidationStatus::Success }))
    );
    let mut sim = Sim::new();
    sim.start(0, 10, 10);
    assert!(sim.connect_passenger(0, 42));
    sim.coins[0].push_back(true);
    sim.request(0, 42, (10, 10), (20, 20));
    assert_eq!(sim.answers(42), vec![accepted(42, 0)]);
    assert_eq!(sim.trips, vec![(0, 42)]);
    assert_eq!(sim.driver(0).status(), DriverStatus::Busy);
    assert_eq!(sim.driver(0).in_flight_passenger(0), Some(42));
    sim.finish_trip(0, 42);
    assert_eq!(sim.answers(42), vec![accepted(42, 0), PassengerMsg::TripEnded]);
    assert_eq!(sim.driver(0).status(), DriverStatus::Available);
    assert_eq!(sim.driver(0).in_flight_passenger(0), None);
    assert_eq!(payments.respond(PaymentMsg::MakePayment(MakePayment { passenger_id: 42 })), None);
}

#[test]
fn decline_then_accept_goes_to_next_nearest() {
    let mut sim = three_drivers();
    assert!(sim.connect_passenger(2, 7));
    sim.coins[1].push_back(false);
    sim.coins[0].push_back(true);
    sim.request(2, 7, (4, 4), (9, 9));
    assert_eq!(sim.answers(7), vec![accepted(7, 0)]);
    assert_eq!(sim.trips, vec![(0, 7)]);
    assert_eq!(sim.driver(2).in_flight_passenger(0), Some(7));
    assert_eq!(sim.driver(2).pending_trip(7), None);
    assert!(!sim.driver(2).has_declined(7, 1));
    assert_eq!(sim.driver(1).status(), DriverStatus::Available);
}

#[test]
fn all_drivers_busy_answers_drivers_busy() {
    let mut sim = Sim::new();
    sim.start(1, 5, 5);
    sim.start(0, 0, 0);
    assert_eq!(sim.driver(0).coordinator_id(), Some(1));
    assert!(sim.connect_passenger(1, 3));
    assert!(sim.connect_passenger(1, 4));
    sim.request(1, 3, (0, 0), (1, 1));
    sim.request(1, 4, (5, 5), (1, 1));
    assert_eq!(sim.driver(0).status(), DriverStatus::Busy);
    assert_eq!(sim.driver(1).status(), DriverStatus::Busy);
    assert!(sim.connect_passenger(1, 9));
    sim.request(1, 9, (3, 3), (4, 4));
    assert_eq!(
        sim.answers(9),
        vec![PassengerMsg::TripResponse(TripResponse {
            status: false,
            reason: Some(DeclineReason::DriversBusy),
            passenger_id: 9,
            driver_id: 1,
        })]
    );
    assert_eq!(sim.driver(1).pending_trip(9), None);
}

#[test]
fn all_drivers_decline_answers_not_accepted() {
    let mut sim = three_drivers();
    assert!(sim.connect_passenger(2, 5));
    for id in 0..3 {
        sim.coins[id].push_back(false);
    }
    sim.request(2, 5, (1, 1), (2, 2));
    assert_eq!(
        sim.answers(5),
        vec![PassengerMsg::TripResponse(TripResponse {
            status: false,
            reason: Some(DeclineReason::NotAccepted),
            passenger_id: 5,
            driver_id: 2,
        })]
    );
    assert!(sim.trips.is_empty());
    assert_eq!(sim.driver(2).pending_trip(5), None);
    assert!(!sim.driver(2).has_declined(5, 0));
}

#[test]
fn lone_busy_driver_answers_drivers_busy() {
    let mut sim = Sim::new();
    sim.start(0, 10, 10);
    assert!(sim.connect_passenger(0, 1));
    sim.request(0, 1, (10, 10), (0, 0));
    assert_eq!(sim.driver(0).status(), DriverStatus::Busy);
    assert!(sim.connect_passenger(0, 2));
    sim.request(0, 2, (10, 10), (0, 0));
    assert_eq!(
        sim.answers(2),
        vec![PassengerMsg::TripResponse(TripResponse {
            status: false,
            reason: Some(DeclineReason::DriversBusy),
            passenger_id: 2,
            driver_id: 0,
        })]
    );
}

#[test]
fn passenger_rejected_until_coordinator() {
    let sim = three_drivers();
    let mut target = 0u16;
    let mut tries = 0;
    loop {
        tries += 1;
        let reply = sim.driver(target).connect_reply();
        match next_scan_start(target, reply) {
            Some(next) => target = next,
            None => {
                assert!(reply.status);
                break;
            }
        }
    }
    assert_eq!(target, 2);
    assert_eq!(tries, 3);
    assert!(!sim.driver(0).connect_reply().status);
    assert_eq!(sim.driver(0).connect_reply().leader_id, None);
}

#[test]
fn recovery_after_right_link_loss_ends_trip_once() {
    let mut sim = three_drivers();
    assert!(sim.connect_passenger(2, 11));
    sim.coins[1].push_back(true);
    sim.request(2, 11, (5, 5), (50, 50));
    assert_eq!(sim.answers(11), vec![accepted(11, 1)]);
    assert_eq!(sim.driver(2).in_flight_passenger(1), Some(11));
    // The link from 1 to the coordinator 2 breaks; 2 notices the closed left side.
    sim.left_link[2] = None;
    sim.queue.push_back((1, Event::RightLost));
    sim.run();
    assert_eq!(sim.driver(1).right_id(), Some(2));
    assert_eq!(sim.driver(2).in_flight_passenger(1), None);
    assert_eq!(sim.answers(11), vec![accepted(11, 1), PassengerMsg::TripEnded]);
    // The trip timer of driver 1 still fires later; nothing more reaches the passenger.
    sim.finish_trip(1, 11);
    assert_eq!(sim.answers(11), vec![accepted(11, 1), PassengerMsg::TripEnded]);
    for id in 0..3 {
        assert_eq!(sim.driver(id).coordinator_id(), Some(2));
    }
    assert_eq!(sim.driver(1).status(), DriverStatus::Available);
}

#[test]
fn messages_for_absent_passenger_are_delivered_on_reconnect_in_order() {
    let mut sim = Sim::new();
    sim.start(0, 10, 10);
    sim.coins[0].push_back(true);
    sim.request(0, 8, (10, 10), (12, 12));
    assert!(sim.answers(8).is_empty());
    assert_eq!(sim.driver(0).held_messages(8), 1);
    sim.finish_trip(0, 8);
    assert_eq!(sim.driver(0).held_messages(8), 2);
    assert!(sim.connect_passenger(0, 8));
    assert_eq!(sim.answers(8), vec![accepted(8, 0), PassengerMsg::TripEnded]);
    assert_eq!(sim.driver(0).held_messages(8), 0);
    // A second connection delivers nothing again.
    assert!(sim.connect_passenger(0, 8));
    assert_eq!(sim.answers(8).len(), 2);
}
