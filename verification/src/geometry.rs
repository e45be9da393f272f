//! Points, the window's margins and the circle test that decides a contact.

use vstd::prelude::*;
use crate::arith::lemma_square_strictly_monotone;

verus! {

/// A position in the window, in length steps.
#[derive(Clone, Copy, Debug, PartialEq, Eq, Structural)]
pub struct Point {
    pub x: i64,
    pub y: i64,
}

/// `v` brought into `[lo, hi]`: raised to `lo` first, then lowered to `hi`,
/// so that an empty interval yields `hi`.
pub open spec fn clamp_axis(v: int, lo: int, hi: int) -> int {
    if v > hi || lo > hi {
        hi
    } else if v < lo {
        lo
    } else {
        v
    }
}

/// Whether `v` lies outside `[lo, hi]`.
pub open spec fn outside(v: int, lo: int, hi: int) -> bool {
    v < lo || v > hi
}

/// The point `p` with each coordinate clamped so that a disc of radius
/// `half` around it stays inside a window of the given size.
pub open spec fn confined(p: Point, half: int, width: int, height: int) -> Point {
    Point {
        x: clamp_axis(p.x as int, half, width - half) as i64,
        y: clamp_axis(p.y as int, half, height - half) as i64,
    }
}

/// Whether a disc of radius `half` around `p` fits the window.
pub open spec fn inside_margins(p: Point, half: int, width: int, height: int) -> bool {
    &&& half <= p.x <= width - half
    &&& half <= p.y <= height - half
}

/// The square of the distance between two points.
pub open spec fn distance_squared(a: Point, b: Point) -> int {
    (a.x - b.x) * (a.x - b.x) + (a.y - b.y) * (a.y - b.y)
}

/// Whether two centres are at most `reach` apart. The boundary counts.
pub open spec fn touches(a: Point, b: Point, reach: int) -> bool {
    0 <= reach && distance_squared(a, b) <= reach * reach
}

/// Clamps one coordinate into `[lo, hi]`.
pub fn clamp_coordinate(v: i64, lo: i64, hi: i64) -> (r: i64)
    ensures
        r == clamp_axis(v as int, lo as int, hi as int),
{
    let mut r: i64 = v;
    if r < lo {
        r = lo;
    }
    if r > hi {
        r = hi;
    }
    r
}

/// Clamps a point so that a disc of radius `half` around it stays inside
/// the window.
pub fn confine_point(p: Point, half: i64, width: i64, height: i64) -> (r: Point)
    requires
        0 <= half,
        0 < width,
        0 < height,
    ensures
        r == confined(p, half as int, width as int, height as int),
{
    Point {
        x: clamp_coordinate(p.x, half, width - half),
        y: clamp_coordinate(p.y, half, height - half),
    }
}

/// The distance between two coordinates.
fn gap(a: i64, b: i64) -> (d: u128)
    ensures
        d == if a >= b { a - b } else { b - a },
{
    if a >= b {
        (a as i128 - b as i128) as u128
    } else {
        (b as i128 - a as i128) as u128
    }
}

/// Decides whether two centres are at most `reach` apart, comparing squares
/// so that no root is taken.
pub fn within_reach(a: Point, b: Point, reach: i64) -> (r: bool)
    ensures
        r == touches(a, b, reach as int),
{
    if reach < 0 {
        return false;
    }
    let dx: u128 = gap(a.x, b.x);
    let dy: u128 = gap(a.y, b.y);
    let limit: u128 = reach as u128;
    proof {
        assert((a.x - b.x) * (a.x - b.x) == dx * dx) by (nonlinear_arith)
            requires
                dx == a.x - b.x || dx == b.x - a.x,
        ;
        assert((a.y - b.y) * (a.y - b.y) == dy * dy) by (nonlinear_arith)
            requires
                dy == a.y - b.y || dy == b.y - a.y,
        ;
        assert(0 <= dx * dx && 0 <= dy * dy) by (nonlinear_arith);
        assert(limit * limit <= 0x4000_0000_0000_0000_0000_0000_0000_0000) by (nonlinear_arith)
            requires
                limit <= 0x8000_0000_0000_0000,
        ;
    }
    if dx > limit {
        proof {
            lemma_square_strictly_monotone(limit as int, dx as int);
        }
        return false;
    }
    if dy > limit {
        proof {
            lemma_square_strictly_monotone(limit as int, dy as int);
        }
        return false;
    }
    proof {
        crate::arith::lemma_square_monotone(dx as int, limit as int);
        crate::arith::lemma_square_monotone(dy as int, limit as int);
    }
    dx * dx + dy * dy <= limit * limit
}

} // verus!
