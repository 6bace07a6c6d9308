//! Choosing the driver to offer a trip to.
use vstd::prelude::*;

use crate::geometry::{manhattan, manhattan_distance, Position};
use crate::id_map::{entries_match, IdMap};

verus! {

/// Driver `d` may receive the offer: it is in the snapshot and has not
/// declined this passenger.
pub open spec fn eligible(snapshot: Map<u16, Position>, declined: Seq<u16>, d: u16) -> bool {
    snapshot.contains_key(d) && !declined.contains(d)
}

/// Driver `a` comes no later than driver `b`: strictly nearer to `origin`, or
/// as near with an id that is not larger.
pub open spec fn precedes(snapshot: Map<u16, Position>, origin: Position, a: u16, b: u16) -> bool {
    manhattan(snapshot[a], origin) < manhattan(snapshot[b], origin) || (manhattan(
        snapshot[a],
        origin,
    ) == manhattan(snapshot[b], origin) && a <= b)
}

/// `d` is the eligible driver nearest to `origin`, ties going to the smallest id.
pub open spec fn is_closest(
    snapshot: Map<u16, Position>,
    declined: Seq<u16>,
    origin: Position,
    d: u16,
) -> bool {
    &&& eligible(snapshot, declined, d)
    &&& forall|e: u16| #[trigger]
        eligible(snapshot, declined, e) ==> precedes(snapshot, origin, d, e)
}

/// Whether `ids` holds `x`.
pub fn contains_id(ids: &Vec<u16>, x: u16) -> (r: bool)
    ensures
        r == ids@.contains(x),
{
    let mut i: usize = 0;
    while i < ids.len()
        invariant
            i <= ids@.len(),
            forall|j: int| 0 <= j < i ==> ids@[j] != x,
        decreases ids@.len() - i,
    {
        if ids[i] == x {
            assert(ids@[i as int] == x);
            return true;
        }
        i = i + 1;
    }
    false
}

/// Picks, among the drivers of the snapshot that are not in `declined`, the
/// one nearest to `origin` by Manhattan distance; ties go to the smallest id.
/// `None` when no driver is eligible.
pub fn select_closest(drivers: &IdMap<Position>, origin: Position, declined: &Vec<u16>) -> (r:
    Option<u16>)
    requires
        drivers.wf(),
    ensures
        match r {
            Some(d) => is_closest(drivers@, declined@, origin, d),
            None => forall|e: u16| !eligible(drivers@, declined@, e),
        },
{
    proof {
        drivers.lemma_entries();
    }
    let ghost s = drivers.entry_seq();
    let ghost m = drivers@;
    let mut best: Option<(u16, u16)> = None;
    let mut i: usize = 0;
    while i < drivers.len()
        invariant
            i <= s.len(),
            s == drivers.entry_seq(),
            m == drivers@,
            entries_match(s, m),
            match best {
                Some((d, dist)) => {
                    &&& eligible(m, declined@, d)
                    &&& dist as int == manhattan(m[d], origin)
                    &&& forall|j: int|
                        0 <= j < i && eligible(m, declined@, #[trigger] s[j].0) ==> precedes(
                            m,
                            origin,
                            d,
                            s[j].0,
                        )
                },
                None => forall|j: int| 0 <= j < i ==> !eligible(m, declined@, #[trigger] s[j].0),
            },
        decreases s.len() - i,
    {
        let id = drivers.key_at(i);
        let pos = *drivers.value_at(i);
        proof {
            assert(m.contains_key(s[i as int].0) && m[s[i as int].0] == s[i as int].1);
        }
        if !contains_id(declined, id) {
            let dist = manhattan_distance(pos, origin);
            match best {
                Some((b, bdist)) => {
                    if dist < bdist || (dist == bdist && id < b) {
                        best = Some((id, dist));
                    }
                },
                None => {
                    best = Some((id, dist));
                },
            }
        }
        i = i + 1;
    }
    match best {
        Some((d, _)) => {
            assert forall|e: u16| #[trigger] eligible(m, declined@, e) implies precedes(
                m,
                origin,
                d,
                e,
            ) by {
                let j = choose|j: int| 0 <= j < s.len() && s[j].0 == e;
                assert(eligible(m, declined@, s[j].0));
            }
            Some(d)
        },
        None => {
            assert forall|e: u16| !eligible(m, declined@, e) by {
                if m.contains_key(e) {
                    let j = choose|j: int| 0 <= j < s.len() && s[j].0 == e;
                    assert(!eligible(m, declined@, s[j].0));
                }
            }
            None
        },
    }
}

} // verus!
