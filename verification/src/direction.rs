//! Directions of length one in fixed point, and the motion along them.

use vstd::prelude::*;
use crate::arith::{floor_sqrt, lemma_square_monotone, lemma_square_strictly_monotone, saturate, saturated};
use crate::geometry::Point;
use crate::rules::UNIT;

verus! {

/// Whether `(x, y)` has length one, as far as rounding each component down
/// to a whole step allows.
pub open spec fn is_unit(x: int, y: int) -> bool {
    &&& -UNIT <= x <= UNIT
    &&& -UNIT <= y <= UNIT
    &&& UNIT * UNIT - 4 * UNIT - 2 < x * x + y * y <= UNIT * UNIT
}

/// Whether `d` is `a * UNIT / sqrt(n)` rounded down.
pub open spec fn is_unit_share(d: int, a: int, n: int) -> bool {
    0 <= d && d * d * n <= a * a * (UNIT * UNIT) < (d + 1) * (d + 1) * n
}

/// `a * UNIT / sqrt(n)` rounded down, for a positive `n`.
pub open spec fn unit_share(a: int, n: int) -> int {
    choose|d: int| is_unit_share(d, a, n)
}

/// `m` with the sign of `x`.
pub open spec fn with_sign_of(x: int, m: int) -> int {
    if x < 0 {
        -m
    } else {
        m
    }
}

/// The absolute value of `x`.
pub open spec fn magnitude(x: int) -> int {
    if x < 0 {
        -x
    } else {
        x
    }
}

/// The vector `(x, y)` scaled to length one, each component rounded toward
/// zero. Meant for a vector that is not zero.
pub open spec fn heading(x: int, y: int) -> (int, int) {
    let n = x * x + y * y;
    (with_sign_of(x, unit_share(magnitude(x), n)), with_sign_of(y, unit_share(magnitude(y), n)))
}

/// The way made along one axis in `dt` nanoseconds at `speed` units per
/// second, for a direction component `c`: their product over `UNIT`,
/// rounded toward zero.
pub open spec fn travel(c: int, speed: int, dt: int) -> int {
    if c < 0 {
        -(((-c) * (speed * dt)) / (UNIT as int))
    } else {
        (c * (speed * dt)) / (UNIT as int)
    }
}

/// The point reached from `p` along `d`, each coordinate stopping at the
/// ends of the range of `i64`.
pub open spec fn advanced(p: Point, d: (int, int), speed: int, dt: int) -> Point {
    Point {
        x: saturated(p.x + travel(d.0, speed, dt)) as i64,
        y: saturated(p.y + travel(d.1, speed, dt)) as i64,
    }
}

/// Multiplying by a natural number keeps the order.
proof fn lemma_scale_order(a: int, b: int, n: int)
    by (nonlinear_arith)
    requires
        a <= b,
        0 <= n,
    ensures
        a * n <= b * n,
{
}

/// Only one number is the rounded share of `a` in a positive `n`.
pub proof fn lemma_unit_share_unique(d1: int, d2: int, a: int, n: int)
    requires
        0 < n,
        is_unit_share(d1, a, n),
        is_unit_share(d2, a, n),
    ensures
        d1 == d2,
{
    if d1 < d2 {
        lemma_square_monotone(d1 + 1, d2);
        lemma_scale_order((d1 + 1) * (d1 + 1), d2 * d2, n);
    } else if d2 < d1 {
        lemma_square_monotone(d2 + 1, d1);
        lemma_scale_order((d2 + 1) * (d2 + 1), d1 * d1, n);
    }
}

/// A number that is the rounded share is the one that `unit_share` names.
pub proof fn lemma_unit_share(d: int, a: int, n: int)
    requires
        0 < n,
        is_unit_share(d, a, n),
    ensures
        unit_share(a, n) == d,
{
    lemma_unit_share_unique(d, unit_share(a, n), a, n);
}

/// Searches upward from `k` for the rounded share of `a` in `n`.
proof fn lemma_share_from(k: int, a: int, n: int) -> (d: int)
    requires
        0 < n,
        0 <= k,
        k * k * n <= a * a * (UNIT * UNIT),
    ensures
        is_unit_share(d, a, n),
    decreases a * a * (UNIT * UNIT) - k,
{
    if (k + 1) * (k + 1) * n > a * a * (UNIT * UNIT) {
        k
    } else {
        assert(k + 1 <= (k + 1) * (k + 1) * n) by (nonlinear_arith)
            requires
                0 <= k,
                0 < n,
        ;
        lemma_share_from(k + 1, a, n)
    }
}

/// Every vector but the zero vector has a heading of length one.
pub proof fn lemma_heading_is_unit(x: int, y: int)
    requires
        x != 0 || y != 0,
    ensures
        is_unit(heading(x, y).0, heading(x, y).1),
{
    let ax = magnitude(x);
    let ay = magnitude(y);
    let n = x * x + y * y;
    assert(ax * ax == x * x && ay * ay == y * y && 0 < n) by (nonlinear_arith)
        requires
            ax == x || ax == -x,
            ay == y || ay == -y,
            x != 0 || y != 0,
            n == x * x + y * y,
    ;
    assert(0 * 0 * n <= ax * ax * (UNIT * UNIT) && 0 * 0 * n <= ay * ay * (UNIT * UNIT))
        by (nonlinear_arith);
    let dx = lemma_share_from(0, ax, n);
    let dy = lemma_share_from(0, ay, n);
    lemma_unit_share(dx, ax, n);
    lemma_unit_share(dy, ay, n);
    lemma_share_at_most_unit(dx, ax, n);
    lemma_share_at_most_unit(dy, ay, n);
    lemma_shares_are_unit(dx, dy, ax, ay);
}

/// The rounded share of a part in a whole is at most `UNIT`.
proof fn lemma_share_at_most_unit(d: int, a: int, n: int)
    requires
        0 < n,
        a * a <= n,
        is_unit_share(d, a, n),
    ensures
        d <= UNIT,
{
    if d > UNIT {
        lemma_square_strictly_monotone(UNIT as int, d);
        assert(false) by (nonlinear_arith)
            requires
                UNIT * UNIT < d * d,
                d * d * n <= a * a * (UNIT * UNIT),
                a * a <= n,
                0 < n,
        ;
    }
}

/// A vector along one axis has the heading of that axis, at full length.
pub proof fn lemma_heading_along_axis(x: int, y: int)
    requires
        (x == 0) != (y == 0),
    ensures
        heading(x, y) == (
            if x < 0 { -(UNIT as int) } else if x > 0 { UNIT as int } else { 0int },
            if y < 0 { -(UNIT as int) } else if y > 0 { UNIT as int } else { 0int },
        ),
{
    let n = x * x + y * y;
    let a = if x == 0 { magnitude(y) } else { magnitude(x) };
    assert(n == a * a && 0 < n) by (nonlinear_arith)
        requires
            n == x * x + y * y,
            (x == 0 && (a == y || a == -y) && y != 0) || (y == 0 && (a == x || a == -x) && x != 0),
    ;
    assert(is_unit_share(UNIT as int, a, n)) by (nonlinear_arith)
        requires
            n == a * a,
            0 < n,
    ;
    assert(is_unit_share(0, 0, n)) by (nonlinear_arith)
        requires
            0 < n,
    ;
    lemma_unit_share(UNIT as int, a, n);
    lemma_unit_share(0, 0, n);
}

/// The largest component that a direction along a diagonal has: `UNIT` over
/// the square root of two, rounded down.
pub const DIAGONAL: i64 = 707_106_781;

/// A vector with two components of size one has the heading of its
/// diagonal: both components of size `DIAGONAL`.
pub proof fn lemma_heading_along_diagonal(x: int, y: int)
    requires
        x == 1 || x == -1,
        y == 1 || y == -1,
    ensures
        heading(x, y) == (with_sign_of(x, DIAGONAL as int), with_sign_of(y, DIAGONAL as int)),
        is_unit(heading(x, y).0, heading(x, y).1),
{
    assert(x * x + y * y == 2) by (nonlinear_arith)
        requires
            x == 1 || x == -1,
            y == 1 || y == -1,
    ;
    let d: int = DIAGONAL as int;
    assert(d * d == 499_999_999_736_181_961) by (nonlinear_arith)
        requires
            d == 707_106_781,
    ;
    assert((d + 1) * (d + 1) == 500_000_001_150_395_524) by (nonlinear_arith)
        requires
            d == 707_106_781,
    ;
    assert(UNIT * UNIT == 1_000_000_000_000_000_000);
    assert(is_unit_share(d, 1, 2));
    lemma_unit_share(DIAGONAL as int, 1, 2);
}

/// Computes the absolute value of a component.
fn magnitude_of(x: i32) -> (m: u128)
    ensures
        m == magnitude(x as int),
        m <= 0x8000_0000,
{
    if x < 0 {
        (-(x as i64)) as u128
    } else {
        x as u128
    }
}

/// Computes `a * UNIT / sqrt(n)` rounded down.
fn share(a: u128, n: u128) -> (d: u64)
    requires
        a <= 0x8000_0000,
        0 < n,
        a * a <= n,
    ensures
        is_unit_share(d as int, a as int, n as int),
        d <= UNIT,
{
    let one: u128 = 1_000_000_000_000_000_000;
    assert(one == UNIT * UNIT);
    proof {
        lemma_square_monotone(a as int, 0x8000_0000);
    }
    let square: u128 = a * a;
    let scaled: u128 = square * one;
    let q: u128 = scaled / n;
    let d: u64 = floor_sqrt(q);
    proof {
        let di = d as int;
        let qi = q as int;
        let ni = n as int;
        assert(qi * ni <= scaled < (qi + 1) * ni) by (nonlinear_arith)
            requires
                qi == scaled as int / ni,
                0 < ni,
        ;
        lemma_scale_order(di * di, qi, ni);
        lemma_scale_order(qi + 1, (di + 1) * (di + 1), ni);
        assert(a * a * (UNIT * UNIT) == scaled);
        assert(qi <= one) by (nonlinear_arith)
            requires
                qi * ni <= square * one,
                square <= ni,
                0 < ni,
                0 <= qi,
                0 < one,
        ;
        if di > UNIT {
            lemma_square_strictly_monotone(UNIT as int, di);
        }
    }
    d
}

/// Two parts of a whole `n`, each scaled by `s`, bound the sum of what
/// they bound from above.
proof fn lemma_sum_at_most(a: int, b: int, p: int, q: int, n: int, s: int)
    by (nonlinear_arith)
    requires
        a * n <= p * s,
        b * n <= q * s,
        n == p + q,
        0 < n,
    ensures
        a + b <= s,
{
}

/// Two parts of a whole `n`, each scaled by `s`, bound the sum of what
/// they bound from below.
proof fn lemma_sum_above(a: int, b: int, p: int, q: int, n: int, s: int)
    by (nonlinear_arith)
    requires
        p * s < a * n,
        q * s < b * n,
        n == p + q,
        0 < n,
    ensures
        s < a + b,
{
}

/// The rounded shares of the two components of a vector form a vector of
/// length one up to rounding.
pub proof fn lemma_shares_are_unit(dx: int, dy: int, ax: int, ay: int)
    requires
        0 < ax * ax + ay * ay,
        is_unit_share(dx, ax, ax * ax + ay * ay),
        is_unit_share(dy, ay, ax * ax + ay * ay),
        dx <= UNIT,
        dy <= UNIT,
    ensures
        is_unit(dx, dy),
        is_unit(-dx, dy),
        is_unit(dx, -dy),
        is_unit(-dx, -dy),
{
    let n = ax * ax + ay * ay;
    let s = UNIT * UNIT;
    lemma_sum_at_most(dx * dx, dy * dy, ax * ax, ay * ay, n, s);
    lemma_sum_above((dx + 1) * (dx + 1), (dy + 1) * (dy + 1), ax * ax, ay * ay, n, s);
    assert((dx + 1) * (dx + 1) == dx * dx + 2 * dx + 1) by (nonlinear_arith);
    assert((dy + 1) * (dy + 1) == dy * dy + 2 * dy + 1) by (nonlinear_arith);
    assert((-dx) * (-dx) == dx * dx) by (nonlinear_arith);
    assert((-dy) * (-dy) == dy * dy) by (nonlinear_arith);
}

/// A direction: a vector of length one, its components counted in steps of
/// one part in `UNIT` and rounded toward zero.
#[derive(Clone, Copy, Debug, PartialEq, Eq)]
pub struct Direction {
    x: i64,
    y: i64,
}

impl View for Direction {
    type V = (int, int);

    closed spec fn view(&self) -> (int, int) {
        (self.x as int, self.y as int)
    }
}

impl Direction {
    /// What holds of every direction: its length is one up to rounding.
    #[verifier::type_invariant]
    pub open spec fn has_unit_length(self) -> bool {
        is_unit(self@.0, self@.1)
    }

    /// The direction in which `(x, y)` points, or `None` for the zero
    /// vector, which points nowhere.
    pub fn from_vector(x: i32, y: i32) -> (r: Option<Direction>)
        ensures
            r is None <==> x == 0 && y == 0,
            r matches Some(d) ==> d@ == heading(x as int, y as int) && is_unit(d@.0, d@.1),
    {
        if x == 0 && y == 0 {
            return None;
        }
        let ax: u128 = magnitude_of(x);
        let ay: u128 = magnitude_of(y);
        proof {
            lemma_square_monotone(ax as int, 0x8000_0000);
            lemma_square_monotone(ay as int, 0x8000_0000);
            lemma_square_monotone(0, ax as int);
            lemma_square_monotone(0, ay as int);
            if ax > 0 {
                lemma_square_strictly_monotone(0, ax as int);
            } else {
                lemma_square_strictly_monotone(0, ay as int);
            }
        }
        let n: u128 = ax * ax + ay * ay;
        let dx: u64 = share(ax, n);
        let dy: u64 = share(ay, n);
        proof {
            assert(ax * ax == x * x) by (nonlinear_arith)
                requires
                    ax == x || ax == -x,
            ;
            assert(ay * ay == y * y) by (nonlinear_arith)
                requires
                    ay == y || ay == -y,
            ;
            lemma_unit_share(dx as int, ax as int, n as int);
            lemma_unit_share(dy as int, ay as int, n as int);
            lemma_shares_are_unit(dx as int, dy as int, ax as int, ay as int);
        }
        let sx: i64 = if x < 0 { -(dx as i64) } else { dx as i64 };
        let sy: i64 = if y < 0 { -(dy as i64) } else { dy as i64 };
        Some(Direction { x: sx, y: sy })
    }

    /// The component along the x axis.
    pub fn x(&self) -> (r: i64)
        ensures
            r == self@.0,
            is_unit(self@.0, self@.1),
    {
        proof {
            use_type_invariant(self);
        }
        self.x
    }

    /// The component along the y axis.
    pub fn y(&self) -> (r: i64)
        ensures
            r == self@.1,
            is_unit(self@.0, self@.1),
    {
        proof {
            use_type_invariant(self);
        }
        self.y
    }

    /// Reverses the component along the x axis.
    pub fn flip_x(&mut self)
        ensures
            final(self)@ == (-old(self)@.0, old(self)@.1),
            is_unit(final(self)@.0, final(self)@.1),
    {
        proof {
            use_type_invariant(&*self);
            assert((-self.x) * (-self.x) == self.x * self.x) by (nonlinear_arith);
        }
        self.x = -self.x;
    }

    /// Reverses the component along the y axis.
    pub fn flip_y(&mut self)
        ensures
            final(self)@ == (old(self)@.0, -old(self)@.1),
            is_unit(final(self)@.0, final(self)@.1),
    {
        proof {
            use_type_invariant(&*self);
            assert((-self.y) * (-self.y) == self.y * self.y) by (nonlinear_arith);
        }
        self.y = -self.y;
    }

    /// The point reached from `p` after `dt` nanoseconds at `speed` units
    /// per second.
    pub fn advance(&self, p: Point, speed: u32, dt: u64) -> (r: Point)
        ensures
            r == advanced(p, self@, speed as int, dt as int),
    {
        proof {
            use_type_invariant(self);
        }
        Point {
            x: saturate(p.x as i128 + way(self.x, speed, dt)),
            y: saturate(p.y as i128 + way(self.y, speed, dt)),
        }
    }
}

/// Computes the way made along one axis.
fn way(c: i64, speed: u32, dt: u64) -> (r: i128)
    requires
        -UNIT <= c <= UNIT,
    ensures
        r == travel(c as int, speed as int, dt as int),
        -0x1_0000_0000_0000_0000_0000_0000 <= r <= 0x1_0000_0000_0000_0000_0000_0000,
{
    assert(0 <= speed * dt <= 0x1_0000_0000_0000_0000_0000_0000) by (nonlinear_arith)
        requires
            0 <= speed <= 0xffff_ffff,
            0 <= dt <= 0xffff_ffff_ffff_ffff,
    ;
    let rate: i128 = speed as i128 * dt as i128;
    let m: i128 = if c < 0 { -(c as i128) } else { c as i128 };
    assert(0 <= m * rate <= 1_000_000_000 * 0x1_0000_0000_0000_0000_0000_0000) by (nonlinear_arith)
        requires
            0 <= m <= 1_000_000_000,
            0 <= rate <= 0x1_0000_0000_0000_0000_0000_0000,
    ;
    let q: i128 = (m * rate) / (UNIT as i128);
    assert(0 <= q <= rate) by (nonlinear_arith)
        requires
            q == (m * rate) / 1_000_000_000,
            0 <= m <= 1_000_000_000,
            0 <= rate,
    ;
    if c < 0 {
        -q
    } else {
        q
    }
}

} // verus!
