//! The curve flattener: turn a sequence of drawing instructions into a flat
//! ordered point sequence.
//!
//! Each curved segment is represented by exactly three points: its two
//! endpoints plus one interior sample at the curve midpoint. There is no
//! curvature-adaptive subdivision; that is a deliberate simplicity tradeoff.
//! Once the full sequence is built, every Y coordinate is sign-flipped to
//! convert from a downward-Y source coordinate system to an upward-Y one.

use vstd::prelude::*;

use crate::bezier::{cubic, quad, spec_cubic_coord, spec_quad_coord};
use crate::point::{all_valid, P};

verus! {

/// The Bezier parameter of the single interior sample: the curve midpoint.
pub const HALF_T: i64 = 500_000;

/// One drawing instruction of a source vector path.
#[derive(Clone, Copy, Debug, PartialEq, Eq, Structural)]
pub enum Segment {
    MoveTo(P),
    LineTo(P),
    QuadTo(P, P),
    CubicTo(P, P, P),
    Close,
}

impl Segment {
    /// Every point the segment mentions is within the supported range.
    pub open spec fn valid(self) -> bool {
        match self {
            Segment::MoveTo(p) => p.valid(),
            Segment::LineTo(p) => p.valid(),
            Segment::QuadTo(c, e) => c.valid() && e.valid(),
            Segment::CubicTo(c1, c2, e) => c1.valid() && c2.valid() && e.valid(),
            Segment::Close => true,
        }
    }
}

/// Every segment of the sequence is within the supported range.
pub open spec fn all_segments_valid(s: Seq<Segment>) -> bool {
    forall|i: int| 0 <= i < s.len() ==> (#[trigger] s[i]).valid()
}

/// The midpoint sample of a quadratic curve from `p0` with control `c`
/// to `e`.
pub open spec fn spec_quad_mid(p0: P, c: P, e: P) -> P {
    P {
        x: spec_quad_coord(p0.x as int, c.x as int, e.x as int, HALF_T as int) as i64,
        y: spec_quad_coord(p0.y as int, c.y as int, e.y as int, HALF_T as int) as i64,
    }
}

/// The midpoint sample of a cubic curve from `p0` with controls `c1`, `c2`
/// to `e`.
pub open spec fn spec_cubic_mid(p0: P, c1: P, c2: P, e: P) -> P {
    P {
        x: spec_cubic_coord(p0.x as int, c1.x as int, c2.x as int, e.x as int, HALF_T as int)
            as i64,
        y: spec_cubic_coord(p0.y as int, c1.y as int, c2.y as int, e.y as int, HALF_T as int)
            as i64,
    }
}

/// What one segment does to the flattening state: the current position, the
/// recorded first point, and the points emitted so far.
pub open spec fn spec_flatten_step(pos: P, first: Option<P>, pts: Seq<P>, seg: Segment) -> (
    P,
    Option<P>,
    Seq<P>,
) {
    match seg {
        Segment::MoveTo(p) => (
            p,
            if first is None {
                Some(p)
            } else {
                first
            },
            pts,
        ),
        Segment::LineTo(p) => (
            p,
            if first is None {
                Some(pos)
            } else {
                first
            },
            pts.push(pos).push(p),
        ),
        Segment::QuadTo(c, e) => (
            e,
            if first is None {
                Some(pos)
            } else {
                first
            },
            pts.push(pos).push(spec_quad_mid(pos, c, e)).push(e),
        ),
        Segment::CubicTo(c1, c2, e) => (
            e,
            if first is None {
                Some(pos)
            } else {
                first
            },
            pts.push(pos).push(spec_cubic_mid(pos, c1, c2, e)).push(e),
        ),
        Segment::Close => (
            pos,
            first,
            match first {
                Some(f) => pts.push(pos).push(f),
                None => pts.push(pos),
            },
        ),
    }
}

/// The flattening state after the whole segment sequence, starting at the
/// origin with no first point recorded.
pub open spec fn spec_flatten(segs: Seq<Segment>) -> (P, Option<P>, Seq<P>)
    decreases segs.len(),
{
    if segs.len() == 0 {
        (P { x: 0, y: 0 }, None::<P>, Seq::<P>::empty())
    } else {
        let s = spec_flatten(segs.drop_last());
        spec_flatten_step(s.0, s.1, s.2, segs.last())
    }
}

/// The Y flip from the source's downward-Y frame to an upward-Y frame.
pub open spec fn spec_flip_y(p: P) -> P {
    P { x: p.x, y: (-p.y) as i64 }
}

/// The full flat point sequence of a path, in traversal order, with the
/// Y axis flipped to point up.
pub open spec fn spec_points_on_path(segs: Seq<Segment>) -> Seq<P> {
    spec_flatten(segs).2.map_values(|p: P| spec_flip_y(p))
}

/// Flatten a path's segments into its flat ordered point sequence.
pub fn points_on_path(segs: &Vec<Segment>) -> (r: Vec<P>)
    requires
        all_segments_valid(segs@),
    ensures
        r@ == spec_points_on_path(segs@),
        all_valid(r@),
{
    let mut pos = P { x: 0, y: 0 };
    let mut first: Option<P> = None;
    let mut pts: Vec<P> = Vec::new();
    let mut i: usize = 0;
    proof {
        assert(segs@.take(0) =~= Seq::<Segment>::empty());
    }
    while i < segs.len()
        invariant
            i <= segs@.len(),
            all_segments_valid(segs@),
            pos == spec_flatten(segs@.take(i as int)).0,
            first == spec_flatten(segs@.take(i as int)).1,
            pts@ == spec_flatten(segs@.take(i as int)).2,
            pos.valid(),
            (first matches Some(f) ==> f.valid()),
            all_valid(pts@),
        decreases segs@.len() - i,
    {
        let ghost t1 = segs@.take(i as int + 1);
        proof {
            assert(t1.drop_last() =~= segs@.take(i as int));
            assert(t1.last() == segs@[i as int]);
        }
        let seg = segs[i];
        match seg {
            Segment::MoveTo(p) => {
                if first.is_none() {
                    first = Some(p);
                }
                pos = p;
            },
            Segment::LineTo(p) => {
                if first.is_none() {
                    first = Some(pos);
                }
                pts.push(pos);
                pts.push(p);
                pos = p;
            },
            Segment::QuadTo(c, e) => {
                if first.is_none() {
                    first = Some(pos);
                }
                pts.push(pos);
                let m = quad(pos, c, e, HALF_T).unwrap();
                pts.push(m);
                pts.push(e);
                proof {
                    assert(m == spec_quad_mid(pos, c, e));
                }
                pos = e;
            },
            Segment::CubicTo(c1, c2, e) => {
                if first.is_none() {
                    first = Some(pos);
                }
                pts.push(pos);
                let m = cubic(pos, c1, c2, e, HALF_T).unwrap();
                pts.push(m);
                pts.push(e);
                proof {
                    assert(m == spec_cubic_mid(pos, c1, c2, e));
                }
                pos = e;
            },
            Segment::Close => {
                pts.push(pos);
                match first {
                    Some(f) => pts.push(f),
                    None => (),
                }
            },
        }
        i = i + 1;
    }
    proof {
        assert(segs@.take(segs@.len() as int) =~= segs@);
    }
    let mut out: Vec<P> = Vec::new();
    let mut j: usize = 0;
    while j < pts.len()
        invariant
            j <= pts@.len(),
            all_valid(pts@),
            pts@ == spec_flatten(segs@).2,
            out@.len() == j,
            forall|k: int| 0 <= k < j ==> out@[k] == spec_flip_y(#[trigger] pts@[k]),
            all_valid(out@),
        decreases pts@.len() - j,
    {
        let p = pts[j];
        out.push(P { x: p.x, y: -p.y });
        j = j + 1;
    }
    proof {
        assert(out@ =~= spec_points_on_path(segs@));
    }
    out
}

} // verus!
