//! The 2D point value type and its fixed-point coordinate model.

use vstd::prelude::*;

verus! {

/// Number of micro-units in one length unit. Coordinates, distances and
/// thresholds are all `i64` counts of micro-units.
pub const SCALE: i64 = 1_000_000;

/// Largest coordinate magnitude the library works on. Keeping coordinates in
/// this range lets every intermediate product fit in `i128`.
pub const MAX_COORD: i64 = 1_000_000_000_000;

/// A 2D point with fixed-point coordinates in micro-units.
#[derive(Clone, Copy, Debug, PartialEq, Eq, Structural, Hash)]
pub struct P {
    pub x: i64,
    pub y: i64,
}

/// A coordinate the library accepts: bounded so products fit in `i128`.
pub open spec fn valid_coord(v: i64) -> bool {
    -MAX_COORD <= v <= MAX_COORD
}

/// Floor of the square root, by binary search on the answer.
fn isqrt(n: u128) -> (r: u128)
    requires
        n <= 8_000_000_000_000_000_000_000_000,
    ensures
        r * r <= n < (r + 1) * (r + 1),
        r < 4_000_000_000_000,
{
    let mut lo: u128 = 0;
    let mut hi: u128 = 4_000_000_000_000;
    while lo + 1 < hi
        invariant
            lo < hi <= 4_000_000_000_000,
            lo * lo <= n,
            n < hi * hi,
        decreases hi - lo,
    {
        let mid: u128 = lo + (hi - lo) / 2;
        proof {
            assert(mid * mid <= 16_000_000_000_000_000_000_000_000) by (nonlinear_arith)
                requires
                    0 <= mid <= 4_000_000_000_000,
            ;
        }
        if mid * mid <= n {
            lo = mid;
        } else {
            hi = mid;
        }
    }
    lo
}

/// Division that truncates toward zero, as the executable `/` does; defined
/// for positive divisors.
pub open spec fn div_tz(x: int, d: int) -> int
    recommends
        d > 0,
{
    if x >= 0 {
        x / d
    } else {
        -((-x) / d)
    }
}

/// For a positive divisor, truncating division of a product by its own
/// factor gives the other factor back exactly.
pub proof fn lemma_div_tz_mul_cancel(v: int, d: int)
    requires
        d > 0,
    ensures
        div_tz(v * d, d) == v,
{
    if v >= 0 {
        vstd::arithmetic::div_mod::lemma_div_multiples_vanish(v, d);
        assert(v * d == d * v) by (nonlinear_arith);
    } else {
        vstd::arithmetic::div_mod::lemma_div_multiples_vanish(-v, d);
        assert(-(v * d) == d * (-v)) by (nonlinear_arith);
    }
}

/// Truncating division by a positive divisor keeps the quotient within any
/// bound the dividend respects after scaling: `|x| <= d * m` gives
/// `|x / d| <= m`.
pub proof fn lemma_div_tz_bound(x: int, d: int, m: int)
    requires
        d > 0,
        0 <= m,
        -(d * m) <= x <= d * m,
    ensures
        -m <= div_tz(x, d) <= m,
{
    if x >= 0 {
        vstd::arithmetic::div_mod::lemma_div_pos_is_pos(x, d);
        vstd::arithmetic::div_mod::lemma_div_is_ordered(x, d * m, d);
        vstd::arithmetic::div_mod::lemma_div_multiples_vanish(m, d);
        assert(d * m == m * d) by (nonlinear_arith);
    } else {
        vstd::arithmetic::div_mod::lemma_div_pos_is_pos(-x, d);
        vstd::arithmetic::div_mod::lemma_div_is_ordered(-x, d * m, d);
        vstd::arithmetic::div_mod::lemma_div_multiples_vanish(m, d);
        assert(d * m == m * d) by (nonlinear_arith);
    }
}

/// Truncating division on `i128`, for a positive divisor.
pub fn div_i128(x: i128, d: i128) -> (r: i128)
    requires
        0 < d,
    ensures
        r == div_tz(x as int, d as int),
{
    proof {
        if x >= 0 {
            vstd::arithmetic::div_mod::lemma_div_pos_is_pos(x as int, d as int);
            vstd::arithmetic::div_mod::lemma_div_nonincreasing(x as int, d as int);
        } else {
            vstd::arithmetic::div_mod::lemma_div_pos_is_pos(-(x as int), d as int);
            vstd::arithmetic::div_mod::lemma_div_nonincreasing(-(x as int), d as int);
        }
    }
    match x.checked_div(d) {
        Some(q) => q,
        None => 0,
    }
}

/// Every point of the sequence is within the supported coordinate range.
pub open spec fn all_valid(s: Seq<P>) -> bool {
    forall|i: int| 0 <= i < s.len() ==> (#[trigger] s[i]).valid()
}

/// The squared Euclidean distance between two points, exactly.
pub open spec fn spec_dist_sq(a: P, b: P) -> int {
    (b.x - a.x) * (b.x - a.x) + (b.y - a.y) * (b.y - a.y)
}

impl P {
    /// Both coordinates within the supported range.
    pub open spec fn valid(self) -> bool {
        valid_coord(self.x) && valid_coord(self.y)
    }

    pub fn new(x: i64, y: i64) -> (r: P)
        ensures
            r == (P { x, y }),
    {
        P { x, y }
    }

    /// Vector addition.
    pub fn add(self, rhs: P) -> (r: P)
        requires
            self.valid(),
            rhs.valid(),
        ensures
            r.x == self.x + rhs.x,
            r.y == self.y + rhs.y,
    {
        P { x: self.x + rhs.x, y: self.y + rhs.y }
    }

    /// Scalar multiplication by a fixed-point factor `k` (`SCALE` micro-units
    /// stand for 1), each coordinate truncating toward zero.
    pub fn scale(self, k: i64) -> (r: P)
        requires
            self.valid(),
            -1_000_000_000_000 <= k <= 1_000_000_000_000,
        ensures
            r.x == div_tz(self.x * k, SCALE as int),
            r.y == div_tz(self.y * k, SCALE as int),
    {
        let kk: i128 = k as i128;
        let px: i128 = self.x as i128;
        let py: i128 = self.y as i128;
        proof {
            assert(-1_000_000_000_000_000_000_000_000 <= px * kk <= 1_000_000_000_000_000_000_000_000
                && -1_000_000_000_000_000_000_000_000 <= py * kk
                <= 1_000_000_000_000_000_000_000_000) by (nonlinear_arith)
                requires
                    -1_000_000_000_000 <= px <= 1_000_000_000_000,
                    -1_000_000_000_000 <= py <= 1_000_000_000_000,
                    -1_000_000_000_000 <= kk <= 1_000_000_000_000,
            ;
            lemma_div_tz_bound(px * kk, 1_000_000int, 1_000_000_000_000_000_000int);
            lemma_div_tz_bound(py * kk, 1_000_000int, 1_000_000_000_000_000_000int);
        }
        let x = div_i128(px * kk, 1_000_000);
        let y = div_i128(py * kk, 1_000_000);
        P { x: x as i64, y: y as i64 }
    }

    /// The Euclidean distance to `other` in micro-units, rounded down: the
    /// result is the floor of the square root of the exact squared distance.
    pub fn distance(&self, other: &P) -> (r: i64)
        requires
            self.valid(),
            other.valid(),
        ensures
            0 <= r,
            r * r <= spec_dist_sq(*self, *other) < (r + 1) * (r + 1),
    {
        let d = self.dist_sq(other);
        let s = isqrt(d as u128);
        s as i64
    }

    /// The squared Euclidean distance to `other`, exactly.
    pub fn dist_sq(&self, other: &P) -> (r: i128)
        requires
            self.valid(),
            other.valid(),
        ensures
            r == spec_dist_sq(*self, *other),
            0 <= r <= 8_000_000_000_000_000_000_000_000,
    {
        let dx: i128 = (other.x as i128) - (self.x as i128);
        let dy: i128 = (other.y as i128) - (self.y as i128);
        proof {
            assert(0 <= dx * dx <= 4_000_000_000_000_000_000_000_000 && 0 <= dy * dy
                <= 4_000_000_000_000_000_000_000_000) by (nonlinear_arith)
                requires
                    -2_000_000_000_000 <= dx <= 2_000_000_000_000,
                    -2_000_000_000_000 <= dy <= 2_000_000_000_000,
            ;
        }
        dx * dx + dy * dy
    }
}

} // verus!
