//! Fixed-sample Bezier evaluation in the standard Bernstein basis.
//!
//! The parameter `t` runs over `[0, SCALE]` micro-units (so `SCALE` stands
//! for 1). Each coordinate is the exact integer Bernstein combination,
//! divided once by the appropriate power of `SCALE` with truncation toward
//! zero.

use vstd::prelude::*;

use crate::error::PathError;
use crate::point::{
    div_i128, div_tz, lemma_div_tz_bound, lemma_div_tz_mul_cancel, valid_coord, P, SCALE,
};

verus! {

/// The degree-2 Bernstein combination of one coordinate, before the final
/// division by `SCALE * SCALE`.
pub open spec fn quad_num(a: int, b: int, c: int, t: int) -> int {
    (SCALE - t) * (SCALE - t) * a + 2 * ((SCALE - t) * t) * b + t * t * c
}

/// One coordinate of the quadratic evaluator's result.
pub open spec fn spec_quad_coord(a: int, b: int, c: int, t: int) -> int {
    div_tz(quad_num(a, b, c, t), SCALE * SCALE)
}

/// The degree-3 Bernstein combination of one coordinate, before the final
/// division by `SCALE * SCALE * SCALE`.
pub open spec fn cubic_num(a: int, b: int, c: int, d: int, t: int) -> int {
    (SCALE - t) * (SCALE - t) * (SCALE - t) * a + 3 * ((SCALE - t) * (SCALE - t) * t) * b + 3 * (
    (SCALE - t) * (t * t)) * c + t * t * t * d
}

/// One coordinate of the cubic evaluator's result.
pub open spec fn spec_cubic_coord(a: int, b: int, c: int, d: int, t: int) -> int {
    div_tz(cubic_num(a, b, c, d, t), SCALE * SCALE * SCALE)
}

/// A Bernstein weight times a coordinate, exactly, in `i128`.
fn wmul(w: i128, v: i64) -> (r: i128)
    requires
        0 <= w <= 4_000_000_000_000_000_000,
        valid_coord(v),
    ensures
        r == w * v,
        -4_000_000_000_000_000_000_000_000_000_000 <= r
            <= 4_000_000_000_000_000_000_000_000_000_000,
{
    proof {
        assert(-4_000_000_000_000_000_000_000_000_000_000 <= w * v
            <= 4_000_000_000_000_000_000_000_000_000_000) by (nonlinear_arith)
            requires
                0 <= w <= 4_000_000_000_000_000_000,
                -1_000_000_000_000 <= v <= 1_000_000_000_000,
        ;
    }
    w * (v as i128)
}

/// One coordinate of the quadratic Bezier value.
fn quad_coord(a: i64, b: i64, c: i64, t: i64) -> (r: i64)
    requires
        0 <= t <= SCALE,
        valid_coord(a),
        valid_coord(b),
        valid_coord(c),
    ensures
        r == spec_quad_coord(a as int, b as int, c as int, t as int),
        valid_coord(r),
{
    let s: i128 = SCALE as i128;
    let tt: i128 = t as i128;
    let u: i128 = s - tt;
    proof {
        assert(0 <= u * u <= 1_000_000_000_000 && 0 <= u * tt <= 1_000_000_000_000 && 0 <= tt * tt
            <= 1_000_000_000_000) by (nonlinear_arith)
            requires
                0 <= u <= 1_000_000,
                0 <= tt <= 1_000_000,
        ;
    }
    let w0: i128 = u * u;
    let w1: i128 = 2 * (u * tt);
    let w2: i128 = tt * tt;
    let n: i128 = wmul(w0, a) + wmul(w1, b) + wmul(w2, c);
    proof {
        assert(w0 + w1 + w2 == 1_000_000_000_000int) by (nonlinear_arith)
            requires
                w0 == u * u,
                w1 == 2 * (u * tt),
                w2 == tt * tt,
                u + tt == 1_000_000int,
        ;
        assert(-1_000_000_000_000_000_000_000_000 <= w0 * a + w1 * b + w2 * c
            <= 1_000_000_000_000_000_000_000_000) by (nonlinear_arith)
            requires
                0 <= w0,
                0 <= w1,
                0 <= w2,
                w0 + w1 + w2 == 1_000_000_000_000int,
                -1_000_000_000_000 <= a <= 1_000_000_000_000,
                -1_000_000_000_000 <= b <= 1_000_000_000_000,
                -1_000_000_000_000 <= c <= 1_000_000_000_000,
        ;
        lemma_div_tz_bound(n as int, 1_000_000_000_000int, 1_000_000_000_000int);
        assert(n == quad_num(a as int, b as int, c as int, t as int));
    }
    let q: i128 = div_i128(n, 1_000_000_000_000);
    q as i64
}

/// One coordinate of the cubic Bezier value.
fn cubic_coord(a: i64, b: i64, c: i64, d: i64, t: i64) -> (r: i64)
    requires
        0 <= t <= SCALE,
        valid_coord(a),
        valid_coord(b),
        valid_coord(c),
        valid_coord(d),
    ensures
        r == spec_cubic_coord(a as int, b as int, c as int, d as int, t as int),
        valid_coord(r),
{
    let s: i128 = SCALE as i128;
    let tt: i128 = t as i128;
    let u: i128 = s - tt;
    proof {
        assert(0 <= u * u <= 1_000_000_000_000 && 0 <= u * tt <= 1_000_000_000_000 && 0 <= tt * tt
            <= 1_000_000_000_000) by (nonlinear_arith)
            requires
                0 <= u <= 1_000_000,
                0 <= tt <= 1_000_000,
        ;
        assert(0 <= (u * u) * u <= 1_000_000_000_000_000_000 && 0 <= (u * u) * tt
            <= 1_000_000_000_000_000_000 && 0 <= u * (tt * tt) <= 1_000_000_000_000_000_000 && 0 <= (
        tt * tt) * tt <= 1_000_000_000_000_000_000) by (nonlinear_arith)
            requires
                0 <= u <= 1_000_000,
                0 <= tt <= 1_000_000,
        ;
    }
    let w0: i128 = (u * u) * u;
    let w1: i128 = 3 * ((u * u) * tt);
    let w2: i128 = 3 * (u * (tt * tt));
    let w3: i128 = (tt * tt) * tt;
    let n: i128 = wmul(w0, a) + wmul(w1, b) + wmul(w2, c) + wmul(w3, d);
    proof {
        assert(w0 + w1 + w2 + w3 == 1_000_000_000_000_000_000int) by (nonlinear_arith)
            requires
                w0 == (u * u) * u,
                w1 == 3 * ((u * u) * tt),
                w2 == 3 * (u * (tt * tt)),
                w3 == (tt * tt) * tt,
                u + tt == 1_000_000int,
        ;
        assert(-1_000_000_000_000_000_000_000_000_000_000 <= w0 * a + w1 * b + w2 * c + w3 * d
            <= 1_000_000_000_000_000_000_000_000_000_000) by (nonlinear_arith)
            requires
                0 <= w0,
                0 <= w1,
                0 <= w2,
                0 <= w3,
                w0 + w1 + w2 + w3 == 1_000_000_000_000_000_000int,
                -1_000_000_000_000 <= a <= 1_000_000_000_000,
                -1_000_000_000_000 <= b <= 1_000_000_000_000,
                -1_000_000_000_000 <= c <= 1_000_000_000_000,
                -1_000_000_000_000 <= d <= 1_000_000_000_000,
        ;
        lemma_div_tz_bound(n as int, 1_000_000_000_000_000_000int, 1_000_000_000_000int);
        assert(n == cubic_num(a as int, b as int, c as int, d as int, t as int));
    }
    let q: i128 = div_i128(n, 1_000_000_000_000_000_000);
    q as i64
}

/// Quadratic Bezier evaluation at parameter `t` in `[0, SCALE]` micro-units.
/// A parameter outside that range is rejected, not a panic.
pub fn quad(p0: P, p1: P, p2: P, t: i64) -> (r: Result<P, PathError>)
    requires
        p0.valid(),
        p1.valid(),
        p2.valid(),
    ensures
        r is Ok <==> 0 <= t <= SCALE,
        (r matches Ok(q) ==> q.x == spec_quad_coord(p0.x as int, p1.x as int, p2.x as int, t as int)
            && q.y == spec_quad_coord(p0.y as int, p1.y as int, p2.y as int, t as int)
            && q.valid()),
        (r matches Err(e) ==> e == PathError::OutOfRange),
{
    if t < 0 || t > SCALE {
        return Err(PathError::OutOfRange);
    }
    let x = quad_coord(p0.x, p1.x, p2.x, t);
    let y = quad_coord(p0.y, p1.y, p2.y, t);
    Ok(P { x, y })
}

/// Cubic Bezier evaluation at parameter `t` in `[0, SCALE]` micro-units.
/// A parameter outside that range is rejected, not a panic.
pub fn cubic(p0: P, p1: P, p2: P, p3: P, t: i64) -> (r: Result<P, PathError>)
    requires
        p0.valid(),
        p1.valid(),
        p2.valid(),
        p3.valid(),
    ensures
        r is Ok <==> 0 <= t <= SCALE,
        (r matches Ok(q) ==> q.x == spec_cubic_coord(
            p0.x as int,
            p1.x as int,
            p2.x as int,
            p3.x as int,
            t as int,
        ) && q.y == spec_cubic_coord(p0.y as int, p1.y as int, p2.y as int, p3.y as int, t as int)
            && q.valid()),
        (r matches Err(e) ==> e == PathError::OutOfRange),
{
    if t < 0 || t > SCALE {
        return Err(PathError::OutOfRange);
    }
    let x = cubic_coord(p0.x, p1.x, p2.x, p3.x, t);
    let y = cubic_coord(p0.y, p1.y, p2.y, p3.y, t);
    Ok(P { x, y })
}

/// The quadratic evaluator is exact at the endpoints: at parameter 0 it
/// returns the first control point, at parameter `SCALE` the last.
pub proof fn lemma_quad_endpoint_exactness(p0: P, p1: P, p2: P)
    ensures
        spec_quad_coord(p0.x as int, p1.x as int, p2.x as int, 0) == p0.x,
        spec_quad_coord(p0.y as int, p1.y as int, p2.y as int, 0) == p0.y,
        spec_quad_coord(p0.x as int, p1.x as int, p2.x as int, SCALE as int) == p2.x,
        spec_quad_coord(p0.y as int, p1.y as int, p2.y as int, SCALE as int) == p2.y,
{
    lemma_div_tz_mul_cancel(p0.x as int, 1_000_000_000_000int);
    lemma_div_tz_mul_cancel(p0.y as int, 1_000_000_000_000int);
    lemma_div_tz_mul_cancel(p2.x as int, 1_000_000_000_000int);
    lemma_div_tz_mul_cancel(p2.y as int, 1_000_000_000_000int);
    assert(quad_num(p0.x as int, p1.x as int, p2.x as int, 0) == (p0.x as int)
        * 1_000_000_000_000int) by (nonlinear_arith);
    assert(quad_num(p0.y as int, p1.y as int, p2.y as int, 0) == (p0.y as int)
        * 1_000_000_000_000int) by (nonlinear_arith);
    assert(quad_num(p0.x as int, p1.x as int, p2.x as int, SCALE as int) == (p2.x as int)
        * 1_000_000_000_000int) by (nonlinear_arith);
    assert(quad_num(p0.y as int, p1.y as int, p2.y as int, SCALE as int) == (p2.y as int)
        * 1_000_000_000_000int) by (nonlinear_arith);
}

/// The cubic evaluator is exact at the endpoints: at parameter 0 it returns
/// the first control point, at parameter `SCALE` the last.
pub proof fn lemma_cubic_endpoint_exactness(p0: P, p1: P, p2: P, p3: P)
    ensures
        spec_cubic_coord(p0.x as int, p1.x as int, p2.x as int, p3.x as int, 0) == p0.x,
        spec_cubic_coord(p0.y as int, p1.y as int, p2.y as int, p3.y as int, 0) == p0.y,
        spec_cubic_coord(p0.x as int, p1.x as int, p2.x as int, p3.x as int, SCALE as int) == p3.x,
        spec_cubic_coord(p0.y as int, p1.y as int, p2.y as int, p3.y as int, SCALE as int) == p3.y,
{
    lemma_div_tz_mul_cancel(p0.x as int, 1_000_000_000_000_000_000int);
    lemma_div_tz_mul_cancel(p0.y as int, 1_000_000_000_000_000_000int);
    lemma_div_tz_mul_cancel(p3.x as int, 1_000_000_000_000_000_000int);
    lemma_div_tz_mul_cancel(p3.y as int, 1_000_000_000_000_000_000int);
    assert(cubic_num(p0.x as int, p1.x as int, p2.x as int, p3.x as int, 0) == (p0.x as int)
        * 1_000_000_000_000_000_000int) by (nonlinear_arith);
    assert(cubic_num(p0.y as int, p1.y as int, p2.y as int, p3.y as int, 0) == (p0.y as int)
        * 1_000_000_000_000_000_000int) by (nonlinear_arith);
    assert(cubic_num(p0.x as int, p1.x as int, p2.x as int, p3.x as int, SCALE as int) == (
    p3.x as int) * 1_000_000_000_000_000_000int) by (nonlinear_arith);
    assert(cubic_num(p0.y as int, p1.y as int, p2.y as int, p3.y as int, SCALE as int) == (
    p3.y as int) * 1_000_000_000_000_000_000int) by (nonlinear_arith);
}

} // verus!
