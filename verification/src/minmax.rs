//! The threshold search: sweep a grid of candidate threshold pairs, record
//! each pair whose reduction stays within the point budget, and pick the
//! pair minimizing `a_floor + d_floor` (ties broken by encounter order: the
//! first minimal candidate wins).
//!
//! The winning policy nudges both thresholds one step above the found pair,
//! so the pipeline never runs at the exact feasibility edge. The margin added
//! to `d_floor` deliberately reuses `a_step`, not `d_step`.

use vstd::prelude::*;

use crate::config::{AircraftConfig, Optimizer, MAX_PARAM};
use crate::path::optimizer::{lemma_reduce_len, optimize, spec_reduce};
use crate::point::{all_valid, P};

verus! {

/// Non-negative part of an integer; the search loop's termination measures.
pub open spec fn clamp0(v: int) -> int {
    if v >= 0 {
        v
    } else {
        0
    }
}

/// Whether grid point `(af, df)` is feasible: reducing under the policy one
/// step above it keeps the sequence within the budget.
pub open spec fn spec_feasible(
    pts: Seq<P>,
    max_points: int,
    a_step: i64,
    d_step: i64,
    af: i64,
    df: i64,
) -> bool {
    spec_reduce(
        (Optimizer::ADFloor { a_floor: (af + a_step) as i64, d_floor: (df + d_step) as i64 }),
        pts,
    ).len() <= max_points
}

/// One sweep of the search from grid point `(af, df)` with the best
/// candidate found so far. The inner variable `df` steps by `d_step` until
/// it passes `d_ceil`, which advances `af` by `a_step` and resets `df`; the
/// sweep stops once `af` passes `a_ceil`. Every visited pair is evaluated,
/// including the very first, before any bound is checked.
pub open spec fn spec_minmax_loop(
    pts: Seq<P>,
    max_points: int,
    a_ceil: i64,
    a_step: i64,
    d_ceil: i64,
    d_step: i64,
    af: i64,
    df: i64,
    best: Option<(i64, i64)>,
) -> Option<(i64, i64)>
    decreases clamp0(a_ceil + a_step - af), clamp0(d_ceil + d_step - df),
{
    if a_step <= 0 || d_step <= 0 || af < 0 || df < 0 || a_ceil > MAX_PARAM || d_ceil
        > MAX_PARAM {
        best
    } else {
        let replace = spec_feasible(pts, max_points, a_step, d_step, af, df) && (match best {
            None => true,
            Some(b) => af + df < b.0 + b.1,
        });
        let best1 = if replace {
            Some((af, df))
        } else {
            best
        };
        if df + d_step > d_ceil {
            if af + a_step > a_ceil {
                best1
            } else {
                spec_minmax_loop(
                    pts,
                    max_points,
                    a_ceil,
                    a_step,
                    d_ceil,
                    d_step,
                    (af + a_step) as i64,
                    0,
                    best1,
                )
            }
        } else {
            if af > a_ceil {
                best1
            } else {
                spec_minmax_loop(
                    pts,
                    max_points,
                    a_ceil,
                    a_step,
                    d_ceil,
                    d_step,
                    af,
                    (df + d_step) as i64,
                    best1,
                )
            }
        }
    }
}

/// The whole search, from the origin with no candidate yet.
pub open spec fn spec_minmax(
    pts: Seq<P>,
    max_points: int,
    a_ceil: i64,
    a_step: i64,
    d_ceil: i64,
    d_step: i64,
) -> Option<(i64, i64)> {
    spec_minmax_loop(pts, max_points, a_ceil, a_step, d_ceil, d_step, 0, 0, None)
}

/// Once the origin pair is the best candidate, no later grid point can
/// replace it: every candidate's threshold sum is non-negative.
proof fn lemma_loop_keeps_zero(
    pts: Seq<P>,
    max_points: int,
    a_ceil: i64,
    a_step: i64,
    d_ceil: i64,
    d_step: i64,
    af: i64,
    df: i64,
)
    requires
        0 < a_step <= MAX_PARAM,
        0 < d_step <= MAX_PARAM,
        -MAX_PARAM <= a_ceil <= MAX_PARAM,
        -MAX_PARAM <= d_ceil <= MAX_PARAM,
        0 <= af,
        0 <= df,
    ensures
        spec_minmax_loop(
            pts,
            max_points,
            a_ceil,
            a_step,
            d_ceil,
            d_step,
            af,
            df,
            Some((0i64, 0i64)),
        ) == Some((0i64, 0i64)),
    decreases clamp0(a_ceil + a_step - af), clamp0(d_ceil + d_step - df),
{
    if df + d_step > d_ceil {
        if af + a_step > a_ceil {
        } else {
            lemma_loop_keeps_zero(
                pts,
                max_points,
                a_ceil,
                a_step,
                d_ceil,
                d_step,
                (af + a_step) as i64,
                0,
            );
        }
    } else {
        if af > a_ceil {
        } else {
            lemma_loop_keeps_zero(
                pts,
                max_points,
                a_ceil,
                a_step,
                d_ceil,
                d_step,
                af,
                (df + d_step) as i64,
            );
        }
    }
}

/// Threshold search feasibility: with a budget at least the raw sequence's
/// length, the origin pair is feasible (no reduction can exceed the input's
/// length), so the search reports exactly `(0, 0)`.
pub proof fn lemma_search_feasibility(
    pts: Seq<P>,
    max_points: int,
    a_ceil: i64,
    a_step: i64,
    d_ceil: i64,
    d_step: i64,
)
    requires
        0 < a_step <= MAX_PARAM,
        0 < d_step <= MAX_PARAM,
        -MAX_PARAM <= a_ceil <= MAX_PARAM,
        -MAX_PARAM <= d_ceil <= MAX_PARAM,
        pts.len() <= max_points,
    ensures
        spec_minmax(pts, max_points, a_ceil, a_step, d_ceil, d_step) == Some((0i64, 0i64)),
{
    lemma_reduce_len((Optimizer::ADFloor { a_floor: a_step, d_floor: d_step }), pts);
    assert(spec_feasible(pts, max_points, a_step, d_step, 0, 0));
    if 0 + d_step > d_ceil {
        if 0 + a_step > a_ceil {
        } else {
            lemma_loop_keeps_zero(pts, max_points, a_ceil, a_step, d_ceil, d_step, a_step, 0);
        }
    } else {
        if 0 > a_ceil {
        } else {
            lemma_loop_keeps_zero(pts, max_points, a_ceil, a_step, d_ceil, d_step, 0, d_step);
        }
    }
}

/// Sweep the threshold grid for one entity. Returns the winning pair and
/// tightens the entity's policy one step above it; an entity whose policy is
/// not of the angle/distance-floor family is left untouched, and so is one
/// for which no candidate was feasible.
pub fn minmax(
    cfg: &mut AircraftConfig,
    pts: &Vec<P>,
    a_ceil: i64,
    a_step: i64,
    d_ceil: i64,
    d_step: i64,
    max_points: usize,
) -> (r: Option<(i64, i64)>)
    requires
        0 < a_step <= MAX_PARAM,
        0 < d_step <= MAX_PARAM,
        -MAX_PARAM <= a_ceil,
        -MAX_PARAM <= d_ceil,
        a_ceil + a_step <= MAX_PARAM,
        d_ceil + d_step <= MAX_PARAM,
        d_ceil + a_step <= MAX_PARAM,
        all_valid(pts@),
    ensures
        (!(old(cfg).optimizer is ADFloor) ==> r is None && *final(cfg) == *old(cfg)),
        (old(cfg).optimizer is ADFloor ==> r == spec_minmax(
            pts@,
            max_points as int,
            a_ceil,
            a_step,
            d_ceil,
            d_step,
        )),
        (r is None ==> *final(cfg) == *old(cfg)),
        (r matches Some(v) ==> 0 <= v.0 && 0 <= v.1 && final(cfg).f == old(cfg).f
            && final(cfg).attr == old(cfg).attr && final(cfg).w == old(cfg).w && final(cfg).l
            == old(cfg).l && final(cfg).optimizer == (Optimizer::ADFloor {
            a_floor: (v.0 + a_step) as i64,
            d_floor: (v.1 + a_step) as i64,
        }) && final(cfg).optimizer.valid()),
{
    match cfg.optimizer {
        Optimizer::ADFloor { .. } => {},
        _ => {
            return None;
        },
    }
    let mut af: i64 = 0;
    let mut df: i64 = 0;
    let mut best: Option<(i64, i64)> = None;
    loop
        invariant_except_break
            0 <= af,
            0 <= df,
            af == 0 || af <= a_ceil,
            df == 0 || df <= d_ceil,
            spec_minmax_loop(
                pts@,
                max_points as int,
                a_ceil,
                a_step,
                d_ceil,
                d_step,
                af,
                df,
                best,
            ) == spec_minmax(pts@, max_points as int, a_ceil, a_step, d_ceil, d_step),
        invariant
            0 < a_step <= MAX_PARAM,
            0 < d_step <= MAX_PARAM,
            -MAX_PARAM <= a_ceil,
            -MAX_PARAM <= d_ceil,
            a_ceil + a_step <= MAX_PARAM,
            d_ceil + d_step <= MAX_PARAM,
            d_ceil + a_step <= MAX_PARAM,
            all_valid(pts@),
            (best matches Some(b) ==> 0 <= b.0 && 0 <= b.1 && (b.0 == 0 || b.0 <= a_ceil) && (b.1
                == 0 || b.1 <= d_ceil)),
        ensures
            best == spec_minmax(pts@, max_points as int, a_ceil, a_step, d_ceil, d_step),
            (best matches Some(b) ==> 0 <= b.0 && 0 <= b.1 && (b.0 == 0 || b.0 <= a_ceil) && (b.1
                == 0 || b.1 <= d_ceil)),
        decreases clamp0(a_ceil + a_step - af), clamp0(d_ceil + d_step - df),
    {
        let ghost af0 = af;
        let ghost df0 = df;
        let ghost best0 = best;
        let pol = Optimizer::ADFloor { a_floor: af + a_step, d_floor: df + d_step };
        let reduced = optimize(&pol, pts.clone());
        if reduced.len() <= max_points {
            let replace = match best {
                None => true,
                Some(b) => af + df < b.0 + b.1,
            };
            if replace {
                best = Some((af, df));
            }
        }
        df = df + d_step;
        if df > d_ceil {
            af = af + a_step;
            df = 0;
        }
        if af > a_ceil {
            break;
        }
    }
    match best {
        None => None,
        Some(v) => {
            cfg.optimizer = Optimizer::ADFloor { a_floor: v.0 + a_step, d_floor: v.1 + a_step };
            Some(v)
        },
    }
}

} // verus!
