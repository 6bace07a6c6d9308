use ride_ring::driver::{Action, Driver, DriverStatus};
use ride_ring::framing::{frame_line, LineBuffer, NEWLINE};
use ride_ring::geometry::manhattan_distance;
use ride_ring::id_map::IdMap;
use ride_ring::messages::{
    ConnectRes, ConnectionType, CoordinatesResponse, DriverConnected, DriverMsg,
    HandleTripResponse, NewCoordinator, OfferToDriver, PassengerMsg, SendTripEnded, TripRequest,
    TripResponse, UnresolvedTrip,
};
use ride_ring::passenger::{next_scan_start, Passenger, PassengerStep};
use ride_ring::payments::{Payments, ValidationStatus};
use ride_ring::selection::{contains_id, select_closest};

fn snapshot(entries: &[(u16, (u8, u8))]) -> IdMap<(u8, u8)> {
    let mut m = IdMap::new();
    for (id, pos) in entries {
        m.insert(*id, *pos);
    }
    m
}

fn only_right(actions: &[Action]) -> Vec<String> {
    actions
        .iter()
        .map(|a| match a {
            Action::SendToRight(m) => format!("right {:?}", kind(m)),
            Action::Deliver(m) => format!("self {:?}", kind(m)),
            Action::SendToPassenger { passenger_id, .. } => format!("passenger {}", passenger_id),
            Action::DisconnectLeft => "disconnect-left".to_string(),
            Action::ConnectToRight => "connect-right".to_string(),
            Action::StartTrip { passenger_id } => format!("trip {}", passenger_id),
        })
        .collect()
}

fn kind(m: &DriverMsg) -> &'static str {
    match m {
        DriverMsg::TripRequest(_) => "TripRequest",
        DriverMsg::Connect(_) => "Connect",
        DriverMsg::Disconnect => "Disconnect",
        DriverMsg::NewCoordinator(_) => "NewCoordinator",
        DriverMsg::CoordinatesRequest(_) => "CoordinatesRequest",
        DriverMsg::CoordinatesResponse(_) => "CoordinatesResponse",
        DriverMsg::OfferToDriver(_) => "OfferToDriver",
        DriverMsg::TripResponse(_) => "TripResponse",
        DriverMsg::SendTripEnded(_) => "SendTripEnded",
        DriverMsg::DriverConnected(_) => "DriverConnected",
        DriverMsg::UnresolvedTrip(_) => "UnresolvedTrip",
    }
}

#[test]
fn manhattan_exact_values() {
    assert_eq!(manhattan_distance((0, 0), (0, 0)), 0);
    assert_eq!(manhattan_distance((10, 3), (4, 9)), 12);
    assert_eq!(manhattan_distance((4, 9), (10, 3)), 12);
    assert_eq!(manhattan_distance((0, 0), (255, 255)), 510);
    assert_eq!(manhattan_distance((255, 0), (0, 255)), 510);
}

#[test]
fn selection_picks_nearest() {
    let s = snapshot(&[(0, (0, 0)), (1, (5, 5)), (2, (100, 100))]);
    assert_eq!(select_closest(&s, (4, 4), &vec![]), Some(1));
    assert_eq!(select_closest(&s, (90, 95), &vec![]), Some(2));
}

#[test]
fn selection_breaks_ties_by_smallest_id() {
    let s = snapshot(&[(3, (2, 0)), (1, (0, 2)), (4, (1, 1))]);
    assert_eq!(select_closest(&s, (0, 0), &vec![]), Some(1));
    assert_eq!(select_closest(&s, (0, 0), &vec![1]), Some(3));
}

#[test]
fn selection_skips_declined_and_reports_none() {
    let s = snapshot(&[(0, (0, 0)), (1, (5, 5))]);
    assert_eq!(select_closest(&s, (4, 4), &vec![1]), Some(0));
    assert_eq!(select_closest(&s, (4, 4), &vec![1, 0]), None);
    assert_eq!(select_closest(&IdMap::new(), (4, 4), &vec![]), None);
    assert!(contains_id(&vec![3, 7], 7));
    assert!(!contains_id(&vec![3, 7], 4));
}

#[test]
fn id_map_insert_replace_remove() {
    let mut m: IdMap<u16> = IdMap::new();
    m.insert(4, 40);
    m.insert(2, 20);
    m.insert(4, 41);
    assert_eq!(m.len(), 2);
    assert_eq!(m.get(4), Some(&41));
    assert!(m.contains_key(2));
    assert_eq!(m.key_of(20), Some(2));
    assert_eq!(m.key_of(40), None);
    assert_eq!(m.remove(2), Some(20));
    assert_eq!(m.remove(2), None);
    assert!(!m.contains_key(2));
    assert_eq!(m.len(), 1);
}

#[test]
fn framing_appends_terminator() {
    assert_eq!(frame_line(b"{\"a\":1}"), b"{\"a\":1}\n".to_vec());
    assert_eq!(frame_line(b""), vec![NEWLINE]);
}

#[test]
fn line_buffer_splits_and_keeps_partial_line() {
    let mut buf = LineBuffer::new();
    let lines = buf.push_bytes(b"one\ntwo\nthr");
    assert_eq!(lines, vec![b"one".to_vec(), b"two".to_vec()]);
    let lines = buf.push_bytes(b"ee\n");
    assert_eq!(lines, vec![b"three".to_vec()]);
    let lines = buf.push_bytes(b"");
    assert!(lines.is_empty());
    let lines = buf.push_bytes(b"\n\n");
    assert_eq!(lines, vec![Vec::<u8>::new(), Vec::new()]);
}

#[test]
fn payments_accept_even_cards_only() {
    assert_eq!(Payments::validate_card(2), ValidationStatus::Success);
    assert_eq!(Payments::validate_card(0), ValidationStatus::Success);
    assert_eq!(Payments::validate_card(7), ValidationStatus::Failure);
    assert_eq!(Payments::validate_card(u64::MAX), ValidationStatus::Failure);
    assert_eq!(Payments::new(8123).port(), 8123);
}

#[test]
fn passenger_decisions() {
    let p = Passenger::new(5, (1, 2), (3, 4));
    let refused = TripResponse { status: false, reason: None, passenger_id: 5, driver_id: 0 };
    let ok = TripResponse { status: true, ..refused };
    assert_eq!(p.handle_trip_response(HandleTripResponse { res: ok, try_again: false }), PassengerStep::Wait);
    assert_eq!(
        p.handle_trip_response(HandleTripResponse { res: refused, try_again: true }),
        PassengerStep::Retry(TripRequest { start: (1, 2), end: (3, 4) })
    );
    assert_eq!(p.handle_trip_response(HandleTripResponse { res: refused, try_again: false }), PassengerStep::GiveUp);
    assert!(matches!(p.trip_request(), DriverMsg::TripRequest(TripRequest { start: (1, 2), end: (3, 4) })));
    match p.connect_msg() {
        DriverMsg::Connect(c) => {
            assert_eq!(c.from, ConnectionType::Passenger);
            assert_eq!(c.id, 5);
            assert_eq!(c.coordinator_id, None);
        }
        _ => panic!("not a connect"),
    }
}

#[test]
fn passenger_scan_follows_hint_or_next() {
    assert_eq!(next_scan_start(1, ConnectRes { status: true, leader_id: None }), None);
    assert_eq!(next_scan_start(1, ConnectRes { status: false, leader_id: None }), Some(2));
    assert_eq!(next_scan_start(1, ConnectRes { status: false, leader_id: Some(4) }), Some(4));
    assert_eq!(next_scan_start(4, ConnectRes { status: false, leader_id: None }), None);
}

#[test]
fn new_coordinator_is_idempotent_once_converged() {
    let mut d = Driver::new(1, 0, 0);
    let first = d.handle_new_coordinator(3);
    assert_eq!(only_right(&first), vec!["right \"NewCoordinator\""]);
    assert_eq!(d.coordinator_id(), Some(3));
    let again = d.handle_new_coordinator(3);
    assert_eq!(only_right(&again), vec!["right \"NewCoordinator\""]);
    assert_eq!(d.coordinator_id(), Some(3));
    let mut c = Driver::new(3, 0, 0);
    assert!(c.handle_new_coordinator(3).is_empty());
    assert!(c.is_coordinator());
}

#[test]
fn join_with_smaller_right_declares_coordinator() {
    let mut d = Driver::new(3, 0, 0);
    let actions = d.handle_right_connected(Some(1));
    assert_eq!(d.coordinator_id(), Some(3));
    assert_eq!(d.right_id(), Some(1));
    match &actions[..] {
        [Action::SendToRight(DriverMsg::Connect(c))] => {
            assert_eq!(c.from, ConnectionType::Driver);
            assert_eq!(c.id, 3);
            assert_eq!(c.coordinator_id, Some(3));
        }
        _ => panic!("expected one Connect"),
    }
    let mut lone = Driver::new(2, 0, 0);
    lone.handle_right_connected(None);
    let actions = lone.handle_right_connected(Some(4));
    assert_eq!(lone.coordinator_id(), Some(4));
    assert_eq!(only_right(&actions), vec!["right \"Connect\""]);
}

#[test]
fn driver_connection_replaces_left_and_announces() {
    let mut d = Driver::new(2, 0, 0);
    let actions = d.handle_driver_connection(1, None);
    assert_eq!(only_right(&actions), vec!["connect-right"]);
    assert_eq!(d.left_id(), Some(1));
    d.handle_right_connected(Some(1));
    let actions = d.handle_driver_connection(0, Some(2));
    assert_eq!(
        only_right(&actions),
        vec!["right \"NewCoordinator\"", "disconnect-left", "right \"DriverConnected\""]
    );
    assert_eq!(d.left_id(), Some(0));
    assert_eq!(d.coordinator_id(), Some(2));
    assert_eq!(only_right(&d.handle_right_lost()), vec!["connect-right"]);
}

#[test]
fn busy_driver_declines_offer() {
    let mut d = Driver::new(1, 3, 3);
    d.handle_new_coordinator(0);
    let offer = OfferToDriver { driver_id: 1, origin: (0, 0), destination: (1, 1), passenger_id: 9 };
    let actions = d.handle_offer_with(offer, true);
    assert_eq!(only_right(&actions), vec!["right \"TripResponse\"", "trip 9"]);
    assert_eq!(d.status(), DriverStatus::Busy);
    for _ in 0..20 {
        let actions = d.handle_offer(offer);
        match &actions[..] {
            [Action::SendToRight(DriverMsg::TripResponse(r))] => {
                assert!(!r.status);
                assert_eq!(r.driver_id, 1);
            }
            _ => panic!("a busy driver must only decline"),
        }
    }
    let other = OfferToDriver { driver_id: 4, ..offer };
    assert_eq!(only_right(&d.handle_offer(other)), vec!["right \"OfferToDriver\""]);
}

#[test]
fn coordinator_records_declines_and_gathers_again() {
    let mut c = Driver::new(2, 9, 9);
    c.handle_right_connected(Some(0));
    c.handle_new_coordinator(2);
    c.store_trip(7, (1, 1), (2, 2));
    let decline = TripResponse { status: false, reason: None, passenger_id: 7, driver_id: 1 };
    let actions = c.handle_trip_response(decline);
    assert_eq!(only_right(&actions), vec!["right \"CoordinatesResponse\""]);
    assert!(c.has_declined(7, 1));
    assert!(!c.has_declined(7, 0));
    // A repeated request forgets earlier declines.
    c.store_trip(7, (1, 1), (3, 3));
    assert!(!c.has_declined(7, 1));
    assert_eq!(c.pending_trip(7), Some(((1, 1), (3, 3))));
    c.handle_trip_response(decline);
    assert!(c.has_declined(7, 1));
    let accept = TripResponse { status: true, reason: None, passenger_id: 7, driver_id: 0 };
    let actions = c.handle_trip_response(accept);
    assert!(actions.is_empty());
    assert_eq!(c.held_messages(7), 1);
    assert_eq!(c.in_flight_passenger(0), Some(7));
    assert_eq!(c.pending_trip(7), None);
    assert!(!c.has_declined(7, 1));
}

#[test]
fn non_coordinator_forwards_and_adds_itself() {
    let mut d = Driver::new(1, 5, 6);
    d.handle_right_connected(Some(2));
    d.handle_new_coordinator(2);
    let resp = CoordinatesResponse { drivers_coordinates: snapshot(&[(0, (0, 0))]), passenger_id: 3 };
    let actions = d.handle_coordinates_response(resp);
    match &actions[..] {
        [Action::SendToRight(DriverMsg::CoordinatesResponse(r))] => {
            assert_eq!(r.passenger_id, 3);
            assert_eq!(r.drivers_coordinates.len(), 2);
            assert_eq!(r.drivers_coordinates.get(1), Some(&(5, 6)));
        }
        _ => panic!("expected the gather to move on"),
    }
    let ended = d.handle_send_trip_ended(SendTripEnded { passenger_id: 3 });
    assert_eq!(only_right(&ended), vec!["right \"SendTripEnded\""]);
    let joined = d.handle_driver_connected(DriverConnected { driver_id: 0 });
    assert_eq!(only_right(&joined), vec!["right \"DriverConnected\""]);
    let unresolved = d.handle_unresolved_trip(UnresolvedTrip { passenger_id: 3, driver_id: 1 });
    assert_eq!(only_right(&unresolved), vec!["self \"SendTripEnded\""]);
    let unresolved = d.handle_unresolved_trip(UnresolvedTrip { passenger_id: 3, driver_id: 4 });
    assert_eq!(only_right(&unresolved), vec!["right \"UnresolvedTrip\""]);
    assert!(d.handle_driver_msg(DriverMsg::NewCoordinator(NewCoordinator { id: 2 })).is_empty() == false);
}

#[test]
fn coordinator_asks_rejoined_driver_to_close_its_trip() {
    let mut c = Driver::new(2, 9, 9);
    c.handle_right_connected(None);
    c.add_passenger(5);
    c.handle_trip_response(TripResponse { status: true, reason: None, passenger_id: 5, driver_id: 1 });
    let actions = c.handle_driver_connected(DriverConnected { driver_id: 1 });
    match &actions[..] {
        [Action::SendToRight(DriverMsg::UnresolvedTrip(u))] => {
            assert_eq!(u.passenger_id, 5);
            assert_eq!(u.driver_id, 1);
        }
        _ => panic!("expected an UnresolvedTrip"),
    }
    assert!(c.handle_driver_connected(DriverConnected { driver_id: 0 }).is_empty());
    let ended = c.handle_send_trip_ended(SendTripEnded { passenger_id: 5 });
    assert!(matches!(&ended[..], [Action::SendToPassenger { passenger_id: 5, msg: PassengerMsg::TripEnded }]));
    assert!(c.handle_send_trip_ended(SendTripEnded { passenger_id: 5 }).is_empty());
}

#[test]
fn passenger_gateway_only_on_coordinator() {
    let mut d = Driver::new(0, 1, 1);
    assert!(!d.connect_reply().status);
    d.handle_new_coordinator(1);
    assert!(!d.connect_reply().status);
    d.handle_new_coordinator(0);
    assert!(d.connect_reply().status);
    assert_eq!(d.connect_reply().leader_id, None);
    d.passenger_send_failed(3, PassengerMsg::TripStarted);
    d.passenger_send_failed(3, PassengerMsg::TripEnded);
    let actions = d.add_passenger(3);
    assert!(matches!(
        &actions[..],
        [
            Action::SendToPassenger { passenger_id: 3, msg: PassengerMsg::TripStarted },
            Action::SendToPassenger { passenger_id: 3, msg: PassengerMsg::TripEnded }
        ]
    ));
    assert!(d.is_passenger_connected(3));
    d.remove_passenger(3);
    assert!(!d.is_passenger_connected(3));
    assert_eq!(d.coordinates(), (1, 1));
    assert_eq!(d.id(), 0);
}
