//! The reduction dispatcher: consecutive-duplicate removal, the accept/reject
//! geometry predicates, and the left-to-right reduction scan shared by the
//! strategies.
//!
//! The scan walks the deduplicated sequence once. The first and the last
//! point are always kept; every other point is kept exactly when the policy's
//! predicate says it marks a meaningful direction change between the last
//! *accepted* point and the next *raw pending* point (the lookahead is the
//! literal next unconsumed point, not the next point the scan will keep).
//!
//! Angles are compared through their tangents: a step's slope angle lies in
//! `(-pi/2, pi/2]`, a vertical step counts as `+pi/2` when it goes up and
//! `-pi/2` when it goes down, and a zero-length step has no direction, so it
//! never marks a direction change. For two finite slopes `s1`, `s2` and a
//! threshold angle `a` with tangent `T`, `|atan(s2) - atan(s1)| > a` holds
//! exactly when `1 + s1*s2 <= 0` (the turn is at least a right angle) or
//! `|s2 - s1| > T * (1 + s1*s2)`; clearing denominators turns both into exact
//! integer comparisons.

use vstd::prelude::*;

pub mod ad_floor;
pub mod three_pt_average;

use crate::config::{Optimizer, MAX_PARAM};
use crate::point::{all_valid, spec_dist_sq, P, SCALE};

verus! {

// ---------------------------------------------------------------------------
// Consecutive-duplicate removal
// ---------------------------------------------------------------------------
/// The sequence with every point that equals its immediate predecessor
/// removed.
pub open spec fn spec_dedup(s: Seq<P>) -> Seq<P>
    decreases s.len(),
{
    if s.len() <= 1 {
        s
    } else if s.last() == s[s.len() - 2] {
        spec_dedup(s.drop_last())
    } else {
        spec_dedup(s.drop_last()).push(s.last())
    }
}

/// No point equals its immediate predecessor.
pub open spec fn no_consecutive_duplicates(s: Seq<P>) -> bool {
    forall|i: int| 1 <= i < s.len() ==> #[trigger] s[i] != s[i - 1]
}

/// Deduplication keeps the first and the last point and never grows the
/// sequence.
pub proof fn lemma_dedup_basics(s: Seq<P>)
    requires
        s.len() > 0,
    ensures
        1 <= spec_dedup(s).len() <= s.len(),
        spec_dedup(s).first() == s.first(),
        spec_dedup(s).last() == s.last(),
    decreases s.len(),
{
    if s.len() <= 1 {
    } else {
        lemma_dedup_basics(s.drop_last());
        assert(s.drop_last().first() == s.first());
        assert(s.drop_last().last() == s[s.len() - 2]);
    }
}

/// Deduplication only drops points: every point of the sequence stays within
/// the supported range.
proof fn lemma_dedup_valid(s: Seq<P>)
    requires
        all_valid(s),
    ensures
        all_valid(spec_dedup(s)),
    decreases s.len(),
{
    if s.len() <= 1 {
    } else {
        assert(all_valid(s.drop_last())) by {
            assert(forall|i: int| 0 <= i < s.len() - 1 ==> s.drop_last()[i] == s[i]);
        }
        lemma_dedup_valid(s.drop_last());
        if s.last() != s[s.len() - 2] {
            let d = spec_dedup(s.drop_last());
            let d1 = d.push(s.last());
            assert forall|i: int| 0 <= i < d1.len() implies (#[trigger] d1[i]).valid() by {
                if i < d.len() {
                    assert(d1[i] == d[i]);
                } else {
                    assert(d1[i] == s.last());
                }
            }
        }
    }
}

/// The deduplicated sequence has no consecutive duplicates left.
proof fn lemma_dedup_no_duplicates(s: Seq<P>)
    ensures
        no_consecutive_duplicates(spec_dedup(s)),
    decreases s.len(),
{
    if s.len() <= 1 {
    } else {
        lemma_dedup_no_duplicates(s.drop_last());
        if s.last() != s[s.len() - 2] {
            lemma_dedup_basics(s.drop_last());
            let d = spec_dedup(s.drop_last());
            let d1 = d.push(s.last());
            assert(s.drop_last().last() == s[s.len() - 2]);
            assert forall|i: int| 1 <= i < d1.len() implies #[trigger] d1[i] != d1[i - 1] by {
                if i < d.len() {
                    assert(d1[i] == d[i] && d1[i - 1] == d[i - 1]);
                } else {
                    assert(d1[i] == s.last() && d1[i - 1] == d.last());
                }
            }
        }
    }
}

/// On a sequence without consecutive duplicates, deduplication changes
/// nothing.
proof fn lemma_dedup_identity(s: Seq<P>)
    requires
        no_consecutive_duplicates(s),
    ensures
        spec_dedup(s) == s,
    decreases s.len(),
{
    if s.len() <= 1 {
    } else {
        assert(s.last() != s[s.len() - 2]);
        assert(no_consecutive_duplicates(s.drop_last())) by {
            assert(forall|i: int| 0 <= i < s.len() - 1 ==> s.drop_last()[i] == s[i]);
        }
        lemma_dedup_identity(s.drop_last());
        assert(spec_dedup(s) =~= s);
    }
}

/// Deduplication is idempotent: running it on its own output changes
/// nothing further.
pub proof fn lemma_dedup_idempotent(s: Seq<P>)
    ensures
        spec_dedup(spec_dedup(s)) == spec_dedup(s),
{
    lemma_dedup_no_duplicates(s);
    lemma_dedup_identity(spec_dedup(s));
}

/// Remove every point that is bit-identical to its immediate predecessor.
pub fn dedup_points(pts: &Vec<P>) -> (r: Vec<P>)
    ensures
        r@ == spec_dedup(pts@),
{
    let mut out: Vec<P> = Vec::new();
    let mut i: usize = 0;
    while i < pts.len()
        invariant
            i <= pts@.len(),
            out@ == spec_dedup(pts@.take(i as int)),
            i > 0 ==> out@.len() >= 1 && out@.last() == pts@[i - 1],
            i == 0 ==> out@.len() == 0,
        decreases pts@.len() - i,
    {
        let ghost prefix = pts@.take(i as int);
        let ghost t1 = pts@.take(i as int + 1);
        proof {
            assert(t1.drop_last() =~= prefix);
            assert(t1.last() == pts@[i as int]);
        }
        let ghost out0 = out@;
        let p = pts[i];
        if out.len() == 0 {
            out.push(p);
            proof {
                assert(t1.len() == 1);
                assert(out@ =~= t1);
            }
        } else {
            let lastv = out[out.len() - 1];
            if lastv == p {
                proof {
                    assert(t1[t1.len() - 2] == pts@[i - 1]);
                    assert(spec_dedup(t1) == spec_dedup(prefix));
                }
            } else {
                out.push(p);
                proof {
                    assert(t1[t1.len() - 2] == pts@[i - 1]);
                    assert(spec_dedup(t1) == spec_dedup(prefix).push(t1.last()));
                }
            }
        }
        i = i + 1;
    }
    proof {
        assert(pts@.take(pts@.len() as int) =~= pts@);
    }
    out
}

// ---------------------------------------------------------------------------
// The accept/reject geometry predicates
// ---------------------------------------------------------------------------
/// Numerator of the normalized slope of the step from `p` to `q`: the sign
/// of the slope is carried here, the denominator below is `|dx|`. A zero
/// denominator with nonzero numerator is a vertical step; numerator and
/// denominator both zero is a zero-length step.
pub open spec fn step_num(p: P, q: P) -> int {
    if q.x - p.x >= 0 {
        q.y - p.y
    } else {
        -(q.y - p.y)
    }
}

/// Denominator of the normalized slope of the step from `p` to `q`.
pub open spec fn step_den(p: P, q: P) -> int {
    if q.x - p.x >= 0 {
        q.x - p.x
    } else {
        -(q.x - p.x)
    }
}

/// Whether `b` lies strictly closer to `a` than `d_floor`, by comparing
/// squared distances exactly.
pub open spec fn spec_too_close(a: P, b: P, d_floor: int) -> bool {
    spec_dist_sq(a, b) < d_floor * d_floor
}

/// Whether the slope angles of the steps `prev -> cur` and `cur -> next`
/// differ by more than the threshold angle whose tangent is
/// `a_floor / SCALE`.
///
/// Slope angles lie in `(-pi/2, pi/2]`; vertical steps count as `pi/2` going
/// up and `-pi/2` going down; a zero-length step has no angle and never
/// exceeds the threshold. All comparisons are the tangent comparisons of the
/// module doc, with denominators cleared.
pub open spec fn spec_angle_exceeds(prev: P, cur: P, next: P, a_floor: int) -> bool {
    let n1 = step_num(prev, cur);
    let d1 = step_den(prev, cur);
    let n2 = step_num(cur, next);
    let d2 = step_den(cur, next);
    if (n1 == 0 && d1 == 0) || (n2 == 0 && d2 == 0) {
        false
    } else if d1 == 0 && d2 == 0 {
        (n1 > 0) != (n2 > 0)
    } else if d1 == 0 {
        if n1 > 0 {
            n2 * a_floor < d2 * SCALE
        } else {
            (-n2) * a_floor < d2 * SCALE
        }
    } else if d2 == 0 {
        if n2 > 0 {
            n1 * a_floor < d1 * SCALE
        } else {
            (-n1) * a_floor < d1 * SCALE
        }
    } else {
        let cross = n2 * d1 - n1 * d2;
        let dot = d1 * d2 + n1 * n2;
        dot <= 0 || (if cross >= 0 {
            cross
        } else {
            -cross
        }) * SCALE > a_floor * dot
    }
}

/// Whether the policy keeps candidate `cur` between the last accepted point
/// `prev` and the next pending point `next`.
pub open spec fn spec_keep(pol: Optimizer, prev: P, cur: P, next: P) -> bool {
    match pol {
        Optimizer::ADFloor { a_floor, d_floor } => !spec_too_close(cur, prev, d_floor as int)
            && !spec_too_close(cur, next, d_floor as int) && spec_angle_exceeds(
            prev,
            cur,
            next,
            a_floor as int,
        ),
        Optimizer::ThreePointAverage { dt } => spec_angle_exceeds(prev, cur, next, dt as int),
    }
}

fn too_close(a: &P, b: &P, d_floor: i64) -> (r: bool)
    requires
        a.valid(),
        b.valid(),
        0 <= d_floor <= MAX_PARAM,
    ensures
        r == spec_too_close(*a, *b, d_floor as int),
{
    let dsq = a.dist_sq(b);
    let df = d_floor as i128;
    proof {
        assert(0 <= df * df <= 1_000_000_000_000_000_000_000_000) by (nonlinear_arith)
            requires
                0 <= df <= 1_000_000_000_000,
        ;
    }
    dsq < df * df
}

fn angle_exceeds(prev: &P, cur: &P, next: &P, a_floor: i64) -> (r: bool)
    requires
        prev.valid(),
        cur.valid(),
        next.valid(),
        0 <= a_floor <= MAX_PARAM,
    ensures
        r == spec_angle_exceeds(*prev, *cur, *next, a_floor as int),
{
    let dx1: i128 = (cur.x as i128) - (prev.x as i128);
    let dy1: i128 = (cur.y as i128) - (prev.y as i128);
    let dx2: i128 = (next.x as i128) - (cur.x as i128);
    let dy2: i128 = (next.y as i128) - (cur.y as i128);
    let (n1, d1): (i128, i128) = if dx1 >= 0 {
        (dy1, dx1)
    } else {
        (-dy1, -dx1)
    };
    let (n2, d2): (i128, i128) = if dx2 >= 0 {
        (dy2, dx2)
    } else {
        (-dy2, -dx2)
    };
    let af: i128 = a_floor as i128;
    if (n1 == 0 && d1 == 0) || (n2 == 0 && d2 == 0) {
        return false;
    }
    proof {
        assert(-2_000_000_000_000_000_000_000_000 <= n2 * af <= 2_000_000_000_000_000_000_000_000
            && -2_000_000_000_000_000_000_000_000 <= n1 * af <= 2_000_000_000_000_000_000_000_000
            && -2_000_000_000_000_000_000_000_000 <= (-n2) * af
            <= 2_000_000_000_000_000_000_000_000 && -2_000_000_000_000_000_000_000_000 <= (-n1)
            * af <= 2_000_000_000_000_000_000_000_000) by (nonlinear_arith)
            requires
                -2_000_000_000_000 <= n1 <= 2_000_000_000_000,
                -2_000_000_000_000 <= n2 <= 2_000_000_000_000,
                0 <= af <= 1_000_000_000_000,
        ;
    }
    if d1 == 0 && d2 == 0 {
        (n1 > 0) != (n2 > 0)
    } else if d1 == 0 {
        if n1 > 0 {
            n2 * af < d2 * 1_000_000
        } else {
            (-n2) * af < d2 * 1_000_000
        }
    } else if d2 == 0 {
        if n2 > 0 {
            n1 * af < d1 * 1_000_000
        } else {
            (-n1) * af < d1 * 1_000_000
        }
    } else {
        proof {
            assert(-4_000_000_000_000_000_000_000_000 <= n2 * d1
                <= 4_000_000_000_000_000_000_000_000 && -4_000_000_000_000_000_000_000_000 <= n1
                * d2 <= 4_000_000_000_000_000_000_000_000 && -4_000_000_000_000_000_000_000_000
                <= d1 * d2 <= 4_000_000_000_000_000_000_000_000
                && -4_000_000_000_000_000_000_000_000 <= n1 * n2
                <= 4_000_000_000_000_000_000_000_000) by (nonlinear_arith)
                requires
                    -2_000_000_000_000 <= n1 <= 2_000_000_000_000,
                    -2_000_000_000_000 <= d1 <= 2_000_000_000_000,
                    -2_000_000_000_000 <= n2 <= 2_000_000_000_000,
                    -2_000_000_000_000 <= d2 <= 2_000_000_000_000,
            ;
            assert(-8_000_000_000_000_000_000_000_000_000_000_000_000 <= af * (d1 * d2 + n1 * n2)
                <= 8_000_000_000_000_000_000_000_000_000_000_000_000) by (nonlinear_arith)
                requires
                    0 <= af <= 1_000_000_000_000,
                    -8_000_000_000_000_000_000_000_000 <= d1 * d2 + n1 * n2
                        <= 8_000_000_000_000_000_000_000_000,
            ;
        }
        let cross: i128 = n2 * d1 - n1 * d2;
        let dot: i128 = d1 * d2 + n1 * n2;
        let across: i128 = if cross >= 0 {
            cross
        } else {
            -cross
        };
        dot <= 0 || across * 1_000_000 > af * dot
    }
}

fn keep_point(pol: &Optimizer, prev: &P, cur: &P, next: &P) -> (r: bool)
    requires
        pol.valid(),
        prev.valid(),
        cur.valid(),
        next.valid(),
    ensures
        r == spec_keep(*pol, *prev, *cur, *next),
{
    match pol {
        Optimizer::ADFloor { a_floor, d_floor } => {
            if too_close(cur, prev, *d_floor) {
                false
            } else if too_close(cur, next, *d_floor) {
                false
            } else {
                angle_exceeds(prev, cur, next, *a_floor)
            }
        },
        Optimizer::ThreePointAverage { dt } => angle_exceeds(prev, cur, next, *dt),
    }
}

// ---------------------------------------------------------------------------
// The reduction scan
// ---------------------------------------------------------------------------
/// The left-to-right scan: `acc` is what has been accepted so far, `pending`
/// what is still unconsumed. The first point is always accepted, so is the
/// last; in between, the policy decides.
pub open spec fn spec_scan(acc: Seq<P>, pending: Seq<P>, pol: Optimizer) -> Seq<P>
    decreases pending.len(),
{
    if pending.len() == 0 {
        acc
    } else {
        let cur = pending.first();
        let rest = pending.drop_first();
        if acc.len() == 0 {
            spec_scan(seq![cur], rest, pol)
        } else if rest.len() == 0 {
            acc.push(cur)
        } else if spec_keep(pol, acc.last(), cur, rest.first()) {
            spec_scan(acc.push(cur), rest, pol)
        } else {
            spec_scan(acc, rest, pol)
        }
    }
}

/// What the dispatcher returns: deduplicate, then scan.
pub open spec fn spec_reduce(pol: Optimizer, pts: Seq<P>) -> Seq<P> {
    spec_scan(Seq::<P>::empty(), spec_dedup(pts), pol)
}

/// The scan never disturbs what is already accepted: `acc` stays a prefix of
/// the result.
proof fn lemma_scan_prefix(acc: Seq<P>, pending: Seq<P>, pol: Optimizer)
    requires
        acc.len() > 0,
    ensures
        spec_scan(acc, pending, pol).len() >= acc.len(),
        forall|j: int| 0 <= j < acc.len() ==> #[trigger] spec_scan(acc, pending, pol)[j] == acc[j],
    decreases pending.len(),
{
    let r = spec_scan(acc, pending, pol);
    if pending.len() == 0 {
    } else {
        let cur = pending.first();
        let rest = pending.drop_first();
        if rest.len() == 0 {
            assert(r == acc.push(cur));
            assert(forall|j: int| 0 <= j < acc.len() ==> acc.push(cur)[j] == acc[j]);
        } else if spec_keep(pol, acc.last(), cur, rest.first()) {
            lemma_scan_prefix(acc.push(cur), rest, pol);
            assert(r == spec_scan(acc.push(cur), rest, pol));
            assert forall|j: int| 0 <= j < acc.len() implies #[trigger] r[j] == acc[j] by {
                assert(r[j] == acc.push(cur)[j]);
            }
        } else {
            lemma_scan_prefix(acc, rest, pol);
        }
    }
}

/// The scan's result ends with the last pending point (or the last accepted
/// point once nothing is pending), and is never empty.
proof fn lemma_scan_last(acc: Seq<P>, pending: Seq<P>, pol: Optimizer)
    requires
        acc.len() + pending.len() > 0,
    ensures
        spec_scan(acc, pending, pol).len() >= 1,
        pending.len() > 0 ==> spec_scan(acc, pending, pol).last() == pending.last(),
        pending.len() == 0 ==> spec_scan(acc, pending, pol).last() == acc.last(),
    decreases pending.len(),
{
    if pending.len() == 0 {
    } else {
        let cur = pending.first();
        let rest = pending.drop_first();
        assert(rest.len() > 0 ==> rest.last() == pending.last());
        if acc.len() == 0 {
            lemma_scan_last(seq![cur], rest, pol);
            if rest.len() == 0 {
                assert(pending.last() == cur);
            }
        } else if rest.len() == 0 {
            assert(pending.last() == cur);
        } else if spec_keep(pol, acc.last(), cur, rest.first()) {
            lemma_scan_last(acc.push(cur), rest, pol);
        } else {
            lemma_scan_last(acc, rest, pol);
        }
    }
}

/// The scan accepts at most one point per pending point.
proof fn lemma_scan_len(acc: Seq<P>, pending: Seq<P>, pol: Optimizer)
    ensures
        spec_scan(acc, pending, pol).len() <= acc.len() + pending.len(),
    decreases pending.len(),
{
    if pending.len() == 0 {
    } else {
        let cur = pending.first();
        let rest = pending.drop_first();
        if acc.len() == 0 {
            lemma_scan_len(seq![cur], rest, pol);
        } else if rest.len() == 0 {
        } else if spec_keep(pol, acc.last(), cur, rest.first()) {
            lemma_scan_len(acc.push(cur), rest, pol);
        } else {
            lemma_scan_len(acc, rest, pol);
        }
    }
}

/// Endpoint preservation: for any non-empty input and any policy, the
/// reduced sequence is non-empty, starts with the first point of the
/// (deduplicated) input and ends with its last point.
pub proof fn lemma_endpoint_preservation(pol: Optimizer, pts: Seq<P>)
    requires
        pts.len() > 0,
    ensures
        spec_reduce(pol, pts).len() >= 1,
        spec_reduce(pol, pts).first() == spec_dedup(pts).first(),
        spec_reduce(pol, pts).last() == spec_dedup(pts).last(),
        spec_reduce(pol, pts).first() == pts.first(),
        spec_reduce(pol, pts).last() == pts.last(),
{
    lemma_dedup_basics(pts);
    let d = spec_dedup(pts);
    let cur = d.first();
    let rest = d.drop_first();
    assert(spec_scan(Seq::<P>::empty(), d, pol) == spec_scan(seq![cur], rest, pol));
    lemma_scan_prefix(seq![cur], rest, pol);
    lemma_scan_last(seq![cur], rest, pol);
    if rest.len() > 0 {
        assert(rest.last() == d.last());
    }
}

/// The reduced sequence never has more points than the input, and a
/// non-empty input keeps at least one point.
pub proof fn lemma_reduce_len(pol: Optimizer, pts: Seq<P>)
    ensures
        spec_reduce(pol, pts).len() <= pts.len(),
        pts.len() > 0 ==> spec_reduce(pol, pts).len() >= 1,
{
    if pts.len() > 0 {
        lemma_dedup_basics(pts);
        lemma_endpoint_preservation(pol, pts);
    }
    lemma_scan_len(Seq::<P>::empty(), spec_dedup(pts), pol);
}

/// Run the scan over an already-deduplicated sequence.
pub(crate) fn scan_points(pol: &Optimizer, pts: &Vec<P>) -> (r: Vec<P>)
    requires
        pol.valid(),
        all_valid(pts@),
    ensures
        r@ == spec_scan(Seq::<P>::empty(), pts@, *pol),
{
    let mut acc: Vec<P> = Vec::new();
    let mut i: usize = 0;
    proof {
        assert(pts@.skip(0) =~= pts@);
    }
    while i < pts.len()
        invariant
            i <= pts@.len(),
            pol.valid(),
            all_valid(pts@),
            all_valid(acc@),
            spec_scan(acc@, pts@.skip(i as int), *pol) == spec_scan(
                Seq::<P>::empty(),
                pts@,
                *pol,
            ),
        decreases pts@.len() - i,
    {
        let ghost pending = pts@.skip(i as int);
        let ghost rest = pts@.skip(i as int + 1);
        let ghost acc0 = acc@;
        proof {
            assert(pending.drop_first() =~= rest);
            assert(pending.first() == pts@[i as int]);
        }
        let cur = pts[i];
        if acc.len() == 0 {
            acc.push(cur);
            proof {
                assert(acc@ =~= seq![cur]);
            }
        } else if i + 1 == pts.len() {
            acc.push(cur);
            proof {
                assert(rest.len() == 0);
                assert(spec_scan(acc0, pending, *pol) == acc0.push(cur));
                assert(spec_scan(acc@, rest, *pol) == acc@);
            }
        } else {
            proof {
                assert(rest.first() == pts@[i + 1]);
            }
            let prev = acc[acc.len() - 1];
            let next = pts[i + 1];
            if keep_point(pol, &prev, &cur, &next) {
                acc.push(cur);
                proof {
                    assert(acc@ == acc0.push(cur));
                }
            }
        }
        i = i + 1;
    }
    proof {
        assert(pts@.skip(pts@.len() as int) =~= Seq::<P>::empty());
    }
    acc
}

/// The reduction dispatcher: remove consecutive duplicates, then route to
/// the strategy the policy selects. Always returns a sequence of between 1
/// (for non-empty input) and the input's length points.
pub fn optimize(optimizer: &Optimizer, pts: Vec<P>) -> (r: Vec<P>)
    requires
        optimizer.valid(),
        all_valid(pts@),
    ensures
        r@ == spec_reduce(*optimizer, pts@),
        r@.len() <= pts@.len(),
        pts@.len() > 0 ==> r@.len() >= 1,
{
    proof {
        lemma_dedup_valid(pts@);
        lemma_reduce_len(*optimizer, pts@);
    }
    let deduped = dedup_points(&pts);
    match optimizer {
        Optimizer::ADFloor { a_floor, d_floor } => ad_floor::optimize(*a_floor, *d_floor, deduped),
        Optimizer::ThreePointAverage { dt } => three_pt_average::optimize(*dt, deduped),
    }
}

} // verus!
