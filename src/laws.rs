//! Properties of the protocol that involve several steps or several nodes.
use vstd::prelude::*;

use crate::driver::{Action, DriverStatus, DriverView};
use crate::geometry::Position;
use crate::messages::{DeclineReason, DriverMsg, OfferToDriver, PassengerMsg, TripResponse};
use crate::selection::{eligible, is_closest};

verus! {

/// No two nodes of `ring` share an id.
pub open spec fn distinct_ids(ring: Seq<DriverView>) -> bool {
    forall|i: int, j: int|
        0 <= i < ring.len() && 0 <= j < ring.len() && i != j ==> #[trigger] ring[i].id
            != #[trigger] ring[j].id
}

/// The nodes of `ring` after each handled `NewCoordinator { c }`.
pub open spec fn announced(ring: Seq<DriverView>, c: u16) -> Seq<DriverView> {
    ring.map_values(|s: DriverView| s.with_coordinator(c))
}

/// Once the announcement of `c`, a member of the ring, has been handled by
/// every node, every node follows `c` and exactly one node, `c` itself,
/// considers itself coordinator. The announcement is passed on by every node
/// but `c`, so it goes round the ring once and stops.
pub proof fn lemma_announcement_converges(ring: Seq<DriverView>, c: u16)
    requires
        distinct_ids(ring),
        exists|k: int| 0 <= k < ring.len() && ring[k].id == c,
    ensures
        forall|i: int|
            0 <= i < ring.len() ==> (#[trigger] announced(ring, c)[i]).coordinator_id == Some(c),
        exists|i: int| 0 <= i < ring.len() && (#[trigger] announced(ring, c)[i]).is_coordinator(),
        forall|i: int, j: int|
            0 <= i < ring.len() && 0 <= j < ring.len() && (#[trigger] announced(
                ring,
                c,
            )[i]).is_coordinator() && (#[trigger] announced(ring, c)[j]).is_coordinator() ==> i
                == j,
        forall|i: int|
            0 <= i < ring.len() ==> ((#[trigger] ring[i].new_coordinator_actions(c)).len() == 0
                <==> ring[i].id == c),
{
    let k = choose|k: int| 0 <= k < ring.len() && ring[k].id == c;
    assert(announced(ring, c)[k].is_coordinator());
    assert forall|i: int|
        0 <= i < ring.len() implies ((#[trigger] ring[i].new_coordinator_actions(c)).len() == 0
        <==> ring[i].id == c) by {
        if ring[i].id != c {
            assert(ring[i].new_coordinator_actions(c).len() == 1);
        }
    }
}

/// The position to the right of `pos` in a ring of `n` nodes.
pub open spec fn next_pos(pos: int, n: int) -> int {
    if pos + 1 >= n {
        0
    } else {
        pos + 1
    }
}

/// Number of rightward hops from `from` to `to` in a ring of `n` nodes.
pub open spec fn hops(from: int, to: int, n: int) -> int {
    if to >= from {
        to - from
    } else {
        to - from + n
    }
}

/// The nodes of `ring` (each passing messages to the next position) after an
/// announcement `NewCoordinator { c }` arrives at position `pos` and travels
/// at most `fuel` hops: each node it reaches adopts `c`, and passes it on
/// exactly when `handle_new_coordinator` does, that is, unless it is `c`.
pub open spec fn relay(ring: Seq<DriverView>, c: u16, pos: int, fuel: nat) -> Seq<DriverView>
    decreases fuel,
{
    if fuel == 0 || !(0 <= pos < ring.len()) {
        ring
    } else {
        let updated = ring.update(pos, ring[pos].with_coordinator(c));
        if ring[pos].new_coordinator_actions(c).len() == 0 {
            updated
        } else {
            relay(updated, c, next_pos(pos, ring.len() as int), (fuel - 1) as nat)
        }
    }
}

proof fn lemma_relay_reaches(ring: Seq<DriverView>, c: u16, k: int, pos: int, fuel: nat)
    requires
        0 <= k < ring.len(),
        0 <= pos < ring.len(),
        ring[k].id == c,
        forall|p: int| 0 <= p < ring.len() && (#[trigger] ring[p]).id == c ==> p == k,
        fuel > hops(pos, k, ring.len() as int),
    ensures
        relay(ring, c, pos, fuel).len() == ring.len(),
        forall|p: int|
            0 <= p < ring.len() ==> #[trigger] relay(ring, c, pos, fuel)[p] == if hops(
                pos,
                p,
                ring.len() as int,
            ) <= hops(pos, k, ring.len() as int) {
                ring[p].with_coordinator(c)
            } else {
                ring[p]
            },
    decreases hops(pos, k, ring.len() as int),
{
    let n = ring.len() as int;
    let updated = ring.update(pos, ring[pos].with_coordinator(c));
    if pos == k {
        assert(ring[pos].new_coordinator_actions(c).len() == 0);
        assert(relay(ring, c, pos, fuel) == updated);
    } else {
        assert(ring[pos].id != c);
        assert(ring[pos].new_coordinator_actions(c).len() == 1);
        let next = next_pos(pos, n);
        assert forall|p: int| 0 <= p < n && (#[trigger] updated[p]).id == c implies p == k by {
            assert(updated[p].id == ring[p].id);
        }
        lemma_relay_reaches(updated, c, k, next, (fuel - 1) as nat);
        assert(relay(ring, c, pos, fuel) == relay(updated, c, next, (fuel - 1) as nat));
        assert forall|p: int| 0 <= p < n implies #[trigger] relay(ring, c, pos, fuel)[p] == if hops(
            pos,
            p,
            n,
        ) <= hops(pos, k, n) {
            ring[p].with_coordinator(c)
        } else {
            ring[p]
        } by {
            if p == pos {
                assert(hops(next, p, n) == n - 1);
            } else {
                assert(hops(next, p, n) == hops(pos, p, n) - 1);
            }
        }
    }
}

/// An announcement of `c` that enters the ring at the right neighbour of
/// `c` travels at most as many hops as the ring has nodes, and leaves every
/// node following `c`: the same nodes as when every node handled it.
pub proof fn lemma_announcement_goes_round(ring: Seq<DriverView>, c: u16, k: int)
    requires
        distinct_ids(ring),
        0 <= k < ring.len(),
        ring[k].id == c,
    ensures
        relay(ring, c, next_pos(k, ring.len() as int), ring.len() as nat) == announced(ring, c),
{
    let n = ring.len() as int;
    let start = next_pos(k, n);
    assert forall|p: int| 0 <= p < n && (#[trigger] ring[p]).id == c implies p == k by {
        if p != k {
            assert(ring[p].id != ring[k].id);
        }
    }
    lemma_relay_reaches(ring, c, k, start, n as nat);
    assert forall|p: int| 0 <= p < n implies hops(start, p, n) <= hops(start, k, n) by {}
    assert(relay(ring, c, start, n as nat) =~= announced(ring, c));
}

/// Once every node follows `c`, handling `NewCoordinator { c }` again leaves
/// every node as it was.
pub proof fn lemma_reannouncement_is_noop(ring: Seq<DriverView>, c: u16)
    requires
        forall|i: int| 0 <= i < ring.len() ==> (#[trigger] ring[i]).coordinator_id == Some(c),
    ensures
        announced(ring, c) == ring,
{
    assert(announced(ring, c) =~= ring);
}

/// Selection never offers a trip to a driver that declined it: the driver an
/// offer names is not in the passenger's decline list.
pub proof fn lemma_offer_avoids_declined(
    s: DriverView,
    pid: u16,
    post: DriverView,
    actions: Seq<Action>,
)
    requires
        s.select_outcome(pid, post, actions),
    ensures
        forall|i: int|
            0 <= i < actions.len() ==> match #[trigger] actions[i] {
                Action::SendToRight(DriverMsg::OfferToDriver(o)) => !s.declined_of(
                    pid,
                ).contains(o.driver_id) && o.passenger_id == pid,
                Action::Deliver(DriverMsg::OfferToDriver(o)) => !s.declined_of(pid).contains(
                    o.driver_id,
                ) && o.passenger_id == pid,
                _ => true,
            },
{
}

/// A busy driver never takes a second trip: whatever its coin, it answers
/// with a refusal, stays busy and starts nothing.
pub proof fn lemma_busy_driver_declines(
    s: DriverView,
    offer: OfferToDriver,
    accept_draw: bool,
    post: DriverView,
    actions: Seq<Action>,
)
    requires
        s.status == DriverStatus::Busy,
        s.offer_outcome(offer, accept_draw, post, actions),
    ensures
        post == s,
        forall|i: int| 0 <= i < actions.len() ==> !(#[trigger] actions[i] is StartTrip),
        offer.driver_id == s.id ==> actions == seq![
            s.toward_coordinator(
                DriverMsg::TripResponse(
                    TripResponse {
                        status: false,
                        reason: None,
                        passenger_id: offer.passenger_id,
                        driver_id: s.id,
                    },
                ),
            ),
        ],
{
    if offer.driver_id == s.id {
        assert(actions =~= seq![
            s.toward_coordinator(
                DriverMsg::TripResponse(
                    TripResponse {
                        status: false,
                        reason: None,
                        passenger_id: offer.passenger_id,
                        driver_id: s.id,
                    },
                ),
            ),
        ]);
    }
}

/// The nearest eligible driver is unique: the tie on distance goes to the
/// smallest id.
pub proof fn lemma_closest_is_unique(
    snapshot: Map<u16, Position>,
    declined: Seq<u16>,
    origin: Position,
    a: u16,
    b: u16,
)
    requires
        is_closest(snapshot, declined, origin, a),
        is_closest(snapshot, declined, origin, b),
    ensures
        a == b,
{
    assert(eligible(snapshot, declined, b));
    assert(eligible(snapshot, declined, a));
}

/// When no driver is available and nobody declined yet, the passenger is
/// told that all drivers are busy, and the trip is closed.
pub proof fn lemma_all_busy_answer(s: DriverView, pid: u16, post: DriverView, actions: Seq<Action>)
    requires
        s.select_outcome(pid, post, actions),
        s.snapshot == Some(Map::<u16, Position>::empty()),
        s.pending_trips.contains_key(pid),
        s.declined_of(pid).len() == 0,
    ensures
        s.refusal(pid) == PassengerMsg::TripResponse(
            TripResponse {
                status: false,
                reason: Some(DeclineReason::DriversBusy),
                passenger_id: pid,
                driver_id: s.id,
            },
        ),
        post == s.trip_closed(pid).after_passenger_send(pid, s.refusal(pid)),
        actions == s.trip_closed(pid).passenger_send_actions(pid, s.refusal(pid)),
        !post.pending_trips.contains_key(pid),
{
}

/// When every driver of the snapshot already declined, the passenger is told
/// that the trip was not accepted, and the trip is closed.
pub proof fn lemma_all_declined_answer(
    s: DriverView,
    pid: u16,
    post: DriverView,
    actions: Seq<Action>,
)
    requires
        s.select_outcome(pid, post, actions),
        s.snapshot.is_some(),
        forall|e: u16| #[trigger]
            s.snapshot.unwrap().contains_key(e) ==> s.declined_of(pid).contains(e),
        s.pending_trips.contains_key(pid),
        s.declined_of(pid).len() > 0,
    ensures
        s.refusal(pid) == PassengerMsg::TripResponse(
            TripResponse {
                status: false,
                reason: Some(DeclineReason::NotAccepted),
                passenger_id: pid,
                driver_id: s.id,
            },
        ),
        post == s.trip_closed(pid).after_passenger_send(pid, s.refusal(pid)),
        actions == s.trip_closed(pid).passenger_send_actions(pid, s.refusal(pid)),
        !post.pending_trips.contains_key(pid),
{
    assert(!exists|e: u16| eligible(s.snapshot.unwrap(), s.declined_of(pid), e));
}

/// The end of a trip reaches its passenger at most once: when at most one
/// driver has the passenger's trip in flight, a second report of its end,
/// after the first was handled, produces no action.
pub proof fn lemma_trip_end_reported_once(
    s: DriverView,
    pid: u16,
    mid: DriverView,
    first: Seq<Action>,
    last: DriverView,
    second: Seq<Action>,
)
    requires
        s.acts_as_coordinator(),
        forall|d1: u16, d2: u16|
            #![trigger s.in_flight[d1], s.in_flight[d2]]
            s.in_flight.contains_key(d1) && s.in_flight.contains_key(d2) && s.in_flight[d1] == pid
                && s.in_flight[d2] == pid ==> d1 == d2,
        s.trip_ended_outcome(pid, mid, first),
        mid.trip_ended_outcome(pid, last, second),
    ensures
        second == Seq::<Action>::empty(),
{
    if exists|d: u16| #[trigger] s.in_flight.contains_key(d) && s.in_flight[d] == pid {
        let d = choose|d: u16|
            {
                let closed = DriverView {
                    pending_trips: s.pending_trips.remove(pid),
                    in_flight: s.in_flight.remove(d),
                    ..s
                };
                &&& #[trigger] s.in_flight.contains_key(d)
                &&& s.in_flight[d] == pid
                &&& mid == closed.after_passenger_send(pid, PassengerMsg::TripEnded)
                &&& first == closed.passenger_send_actions(pid, PassengerMsg::TripEnded)
            };
        assert(mid.in_flight == s.in_flight.remove(d));
        assert forall|d2: u16| #[trigger] mid.in_flight.contains_key(d2) implies mid.in_flight[d2]
            != pid by {
            assert(s.in_flight.contains_key(d2) && s.in_flight[d2] == mid.in_flight[d2]);
            if s.in_flight[d2] == pid {
                assert(s.in_flight[d] == pid);
            }
        }
    }
}

/// Once the coordinator forwarded a driver's acceptance of passenger `pid`'s
/// trip, no refusal can follow for it: the trip is no longer pending, so a
/// later selection for `pid` does nothing.
pub proof fn lemma_no_refusal_after_acceptance(
    s: DriverView,
    resp: TripResponse,
    mid: DriverView,
    first: Seq<Action>,
    last: DriverView,
    second: Seq<Action>,
)
    requires
        s.acts_as_coordinator(),
        resp.status,
        s.trip_response_outcome(resp, mid, first),
        mid.select_outcome(resp.passenger_id, last, second),
    ensures
        !mid.pending_trips.contains_key(resp.passenger_id),
        mid.in_flight.contains_key(resp.driver_id),
        mid.in_flight[resp.driver_id] == resp.passenger_id,
        last == mid,
        second == Seq::<Action>::empty(),
{
}

/// A driver alone in the ring, and busy, answers a new trip request with
/// "drivers busy": its gather holds no entry, so selection finds nobody and
/// nobody declined.
pub proof fn lemma_lone_busy_driver_answers_busy(
    s: DriverView,
    pid: u16,
    first: Seq<Action>,
    post: DriverView,
    second: Seq<Action>,
)
    requires
        s.is_coordinator(),
        s.right_id.is_none(),
        s.status == DriverStatus::Busy,
        s.pending_trips.contains_key(pid),
        s.declined_of(pid).len() == 0,
        s.starts_gather(pid, first),
        match first[0] {
            Action::Deliver(DriverMsg::CoordinatesResponse(g)) => s.gather_outcome(
                pid,
                g.drivers_coordinates@,
                post,
                second,
            ),
            _ => false,
        },
    ensures
        ({
            let gathered = DriverView { snapshot: Some(Map::<u16, Position>::empty()), ..s };
            &&& gathered.refusal(pid) == PassengerMsg::TripResponse(
                TripResponse {
                    status: false,
                    reason: Some(DeclineReason::DriversBusy),
                    passenger_id: pid,
                    driver_id: s.id,
                },
            )
            &&& post == gathered.trip_closed(pid).after_passenger_send(pid, gathered.refusal(pid))
            &&& second == gathered.trip_closed(pid).passenger_send_actions(
                pid,
                gathered.refusal(pid),
            )
        }),
{
    assert(s.gathered(Map::empty()) == Map::<u16, Position>::empty());
    let gathered = DriverView { snapshot: Some(Map::<u16, Position>::empty()), ..s };
    lemma_all_busy_answer(gathered, pid, post, second);
}

} // verus!
