//! Grid positions and the Manhattan metric.
use vstd::prelude::*;

verus! {

/// A point on the 8-bit grid, as `(x, y)`.
pub type Position = (u8, u8);

/// Absolute difference of two grid coordinates.
pub open spec fn coord_diff(a: u8, b: u8) -> int {
    if a >= b {
        a - b
    } else {
        b - a
    }
}

/// Manhattan distance `|x1 - x2| + |y1 - y2|`.
pub open spec fn manhattan(a: Position, b: Position) -> int {
    coord_diff(a.0, b.0) + coord_diff(a.1, b.1)
}

/// Manhattan distance between two grid points. It is at most 510, so it
/// always fits in a `u16`.
pub fn manhattan_distance(a: Position, b: Position) -> (r: u16)
    ensures
        r as int == manhattan(a, b),
{
    let dx: u16 = if a.0 >= b.0 {
        (a.0 - b.0) as u16
    } else {
        (b.0 - a.0) as u16
    };
    let dy: u16 = if a.1 >= b.1 {
        (a.1 - b.1) as u16
    } else {
        (b.1 - a.1) as u16
    };
    dx + dy
}

} // verus!
