//! Fixed-point arithmetic for the simulation.
//!
//! World quantities (positions, speeds, thresholds, axis inputs) are carried
//! as `i64` milli-units: one world unit is `MILLI` (1000). Durations are
//! milliseconds. Everything here is integer arithmetic, so the same inputs
//! give bit-identical results on every machine, which the reconciliation
//! protocol depends on.

use vstd::prelude::*;

verus! {

/// One world unit in milli-units.
pub const MILLI: i64 = 1000;

/// Largest coordinate magnitude the world admits, in milli-units.
/// The simulation step saturates at this bound instead of overflowing.
pub const MAX_COORD: i64 = 1_000_000_000;

/// Largest magnitude an intent's axis component may carry, in milli-units.
pub const MAX_AXIS: i64 = 1_000_000;

/// Largest base speed, in milli-units per second.
pub const MAX_SPEED: i64 = 1_000_000;

/// Largest simulation delta-time, in milliseconds.
pub const MAX_DT: i64 = 1_000_000;

/// A full rotation, in milli-degrees.
pub const FULL_TURN: i64 = 360_000;

/// Half a rotation, in milli-degrees.
pub const HALF_TURN: i64 = 180_000;

/// A 2D vector in milli-units.
#[derive(Clone, Copy, Debug, PartialEq, Eq, Structural)]
pub struct Vec2Milli {
    pub x: i64,
    pub y: i64,
}

pub open spec fn abs_i(v: int) -> int {
    if v >= 0 {
        v
    } else {
        -v
    }
}

pub open spec fn in_coord_range(v: int) -> bool {
    -MAX_COORD <= v <= MAX_COORD
}

impl Vec2Milli {
    /// Both components are within the world's coordinate bound.
    pub open spec fn valid_coords(self) -> bool {
        in_coord_range(self.x as int) && in_coord_range(self.y as int)
    }

    /// Both components are within the axis-input bound.
    pub open spec fn valid_axis(self) -> bool {
        abs_i(self.x as int) <= MAX_AXIS && abs_i(self.y as int) <= MAX_AXIS
    }

    pub open spec fn is_zero(self) -> bool {
        self.x == 0 && self.y == 0
    }

    pub fn new(x: i64, y: i64) -> (r: Self)
        ensures
            r.x == x,
            r.y == y,
    {
        Vec2Milli { x, y }
    }

    pub fn zero() -> (r: Self)
        ensures
            r.is_zero(),
    {
        Vec2Milli { x: 0, y: 0 }
    }
}

/// `r` is the integer square root of `n`: the greatest `r` with `r * r <= n`.
pub open spec fn is_sqrt_floor(n: int, r: int) -> bool {
    0 <= r && r * r <= n && n < (r + 1) * (r + 1)
}

/// The integer square root as a function, for use in other specifications.
pub open spec fn sqrt_floor(n: int) -> int {
    choose|r: int| is_sqrt_floor(n, r)
}

/// The integer square root is unique.
pub proof fn lemma_sqrt_floor_unique(n: int, r1: int, r2: int)
    requires
        is_sqrt_floor(n, r1),
        is_sqrt_floor(n, r2),
    ensures
        r1 == r2,
{
    assert(r1 == r2) by (nonlinear_arith)
        requires
            0 <= r1,
            r1 * r1 <= n,
            n < (r1 + 1) * (r1 + 1),
            0 <= r2,
            r2 * r2 <= n,
            n < (r2 + 1) * (r2 + 1),
    ;
}

/// The integer square root is monotone in its argument.
pub proof fn lemma_sqrt_floor_monotone(n1: int, n2: int, r1: int, r2: int)
    requires
        is_sqrt_floor(n1, r1),
        is_sqrt_floor(n2, r2),
        n1 <= n2,
    ensures
        r1 <= r2,
{
    assert(r1 <= r2) by (nonlinear_arith)
        requires
            0 <= r1,
            r1 * r1 <= n1,
            0 <= r2,
            n2 < (r2 + 1) * (r2 + 1),
            n1 <= n2,
    ;
}

/// Integer square root by bisection.
pub fn isqrt(n: u64) -> (r: u64)
    ensures
        is_sqrt_floor(n as int, r as int),
        r as int == sqrt_floor(n as int),
{
    let mut lo: u64 = 0;
    let mut hi: u64 = 4294967296;
    proof {
        assert((4294967296 as int) * (4294967296 as int) > n as int);
    }
    while lo + 1 < hi
        invariant
            lo < hi <= 4294967296,
            (lo as int) * (lo as int) <= n as int,
            (n as int) < (hi as int) * (hi as int),
        decreases hi - lo,
    {
        let mid = lo + (hi - lo) / 2;
        assert(lo < mid < hi);
        assert((mid as int) * (mid as int) < 0x1_0000_0000_0000_0000) by (nonlinear_arith)
            requires
                mid < 4294967296,
        ;
        let sq = mid * mid;
        if sq <= n {
            lo = mid;
        } else {
            hi = mid;
        }
    }
    proof {
        assert(hi == lo + 1);
        assert(is_sqrt_floor(n as int, lo as int));
        lemma_sqrt_floor_unique(n as int, lo as int, sqrt_floor(n as int));
    }
    lo
}

/// Magnitude of an `i64`, as a `u64`.
pub fn abs_u64(v: i64) -> (r: u64)
    requires
        v > i64::MIN,
    ensures
        r as int == abs_i(v as int),
{
    if v >= 0 {
        v as u64
    } else {
        (-v) as u64
    }
}

/// `d * num / den`, rounded toward zero. `num` is nonnegative and `den`
/// positive, so the sign of the result is the sign of `d`.
pub open spec fn scale_div(d: int, num: int, den: int) -> int {
    if d >= 0 {
        (d * num) / den
    } else {
        -(((-d) * num) / den)
    }
}

/// Fixed-point scaling: `d * num / den` rounded toward zero.
pub fn scale_div_i64(d: i64, num: u64, den: u64) -> (r: i64)
    requires
        den > 0,
        d > i64::MIN,
        abs_i(d as int) * (num as int) <= i64::MAX,
    ensures
        r as int == scale_div(d as int, num as int, den as int),
{
    let mag = abs_u64(d);
    proof {
        assert((mag as int) * (num as int) <= i64::MAX);
        assert(((mag as int) * (num as int)) / (den as int) <= (mag as int) * (num as int)) by (nonlinear_arith)
            requires
                den as int >= 1,
                (mag as int) * (num as int) >= 0,
        ;
    }
    let q = mag * num / den;
    if d >= 0 {
        q as i64
    } else {
        -(q as i64)
    }
}

/// Scaling a quantity by `num / den` cannot exceed `num` in magnitude when
/// the quantity itself is bounded by `den`, and it keeps the sign of `d`.
pub proof fn lemma_scale_div_le(d: int, num: int, den: int)
    requires
        den > 0,
        num >= 0,
        abs_i(d) <= den,
    ensures
        abs_i(scale_div(d, num, den)) <= num,
        d >= 0 ==> scale_div(d, num, den) >= 0,
        d <= 0 ==> scale_div(d, num, den) <= 0,
{
    let a = abs_i(d);
    assert(0 <= a * num) by (nonlinear_arith)
        requires
            a >= 0,
            num >= 0,
    ;
    vstd::arithmetic::mul::lemma_mul_inequality(a, den, num);
    vstd::arithmetic::div_mod::lemma_div_is_ordered(a * num, den * num, den);
    vstd::arithmetic::div_mod::lemma_div_multiples_vanish(num, den);
    vstd::arithmetic::div_mod::lemma_div_is_ordered(0, a * num, den);
    vstd::arithmetic::div_mod::lemma_div_basics(den);
    if d < 0 {
        assert(-d == a);
        assert(scale_div(d, num, den) == -((a * num) / den));
    } else {
        assert(a == d);
        if d == 0 {
            assert(a * num == 0) by (nonlinear_arith)
                requires
                    a == 0,
            ;
            assert(scale_div(d, num, den) == (0int) / den);
        }
    }
}

/// Scaling a quantity by the fraction `t / den` (with `t` at most `den`)
/// cannot grow it: the result stays between zero and the quantity.
pub proof fn lemma_scale_div_bounded(d: int, t: int, den: int)
    requires
        den > 0,
        0 <= t <= den,
    ensures
        abs_i(scale_div(d, t, den)) <= abs_i(d),
        d >= 0 ==> 0 <= scale_div(d, t, den) <= d,
        d <= 0 ==> d <= scale_div(d, t, den) <= 0,
{
    let a = abs_i(d);
    vstd::arithmetic::mul::lemma_mul_inequality(t, den, a);
    vstd::arithmetic::mul::lemma_mul_is_commutative(a, t);
    vstd::arithmetic::mul::lemma_mul_is_commutative(a, den);
    vstd::arithmetic::div_mod::lemma_div_is_ordered(a * t, a * den, den);
    vstd::arithmetic::div_mod::lemma_div_multiples_vanish(a, den);
    assert(0 <= a * t) by (nonlinear_arith)
        requires
            a >= 0,
            t >= 0,
    ;
    vstd::arithmetic::div_mod::lemma_div_is_ordered(0, a * t, den);
    vstd::arithmetic::div_mod::lemma_div_basics(den);
    if d < 0 {
        assert(-d == a);
        assert(scale_div(d, t, den) == -((a * t) / den));
    }
}

/// The squared euclidean distance between two points, in squared milli-units.
pub open spec fn dist_sq(a: Vec2Milli, b: Vec2Milli) -> int {
    (a.x - b.x) * (a.x - b.x) + (a.y - b.y) * (a.y - b.y)
}

/// Squared distance between two in-range points. Comparing squared distances
/// against a squared threshold avoids any square root while deciding exactly
/// the same predicate.
pub fn distance_sq(a: &Vec2Milli, b: &Vec2Milli) -> (r: i64)
    requires
        a.valid_coords(),
        b.valid_coords(),
    ensures
        r as int == dist_sq(*a, *b),
        r >= 0,
{
    let dx = a.x - b.x;
    let dy = a.y - b.y;
    proof {
        assert((dx as int) * (dx as int) <= 4_000_000_000_000_000_000
            && (dx as int) * (dx as int) >= 0) by (nonlinear_arith)
            requires
                abs_i(dx as int) <= 2_000_000_000,
        ;
        assert((dy as int) * (dy as int) <= 4_000_000_000_000_000_000
            && (dy as int) * (dy as int) >= 0) by (nonlinear_arith)
            requires
                abs_i(dy as int) <= 2_000_000_000,
        ;
    }
    dx * dx + dy * dy
}

/// Clamp a coordinate into the world's bound.
pub open spec fn clamp_coord(v: int) -> int {
    if v > MAX_COORD {
        MAX_COORD as int
    } else if v < -(MAX_COORD as int) {
        -(MAX_COORD as int)
    } else {
        v
    }
}

pub fn clamp_coord_i64(v: i64) -> (r: i64)
    ensures
        r as int == clamp_coord(v as int),
        in_coord_range(r as int),
{
    if v > MAX_COORD {
        MAX_COORD
    } else if v < -MAX_COORD {
        -MAX_COORD
    } else {
        v
    }
}

} // verus!
