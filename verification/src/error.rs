//! The failure conditions the core can report.

use vstd::prelude::*;

verus! {

/// Everything that can go wrong while turning a path into a reduced point
/// file. Each failure is local to the entity being processed.
#[derive(Clone, Copy, Debug, PartialEq, Eq, Structural)]
pub enum PathError {
    /// A Bezier evaluator was called with a parameter outside `[0, SCALE]`.
    OutOfRange,
    /// Scaling to world coordinates left the supported coordinate range.
    CoordinateOverflow,
    /// The reduced sequence is longer than the point budget allows.
    TooManyPoints { achieved: usize, limit: usize },
    /// The document tree holds no path with a stroke.
    NoPath,
    /// The document tree holds an image node, which is not supported.
    ImageUnsupported,
    /// The document tree holds a text node, which is not supported.
    TextUnsupported,
}

impl PathError {
    /// A short human-readable description of the failure.
    pub fn message(&self) -> (r: &'static str)
        ensures
            r@.len() > 0,
    {
        let r = match self {
            PathError::OutOfRange => "bezier parameter out of bounds",
            PathError::CoordinateOverflow => "coordinate outside the supported range",
            PathError::TooManyPoints { .. } => "too many points after optimization, try increasing the a-floor or simplifying your SVG",
            PathError::NoPath => "no path element with a solid stroke could be found",
            PathError::ImageUnsupported => "images are not supported, please use a single vector path svg",
            PathError::TextUnsupported => "text is not supported, please use a single vector path svg",
        };
        proof {
            reveal_strlit("bezier parameter out of bounds");
            reveal_strlit("coordinate outside the supported range");
            reveal_strlit("too many points after optimization, try increasing the a-floor or simplifying your SVG");
            reveal_strlit("no path element with a solid stroke could be found");
            reveal_strlit("images are not supported, please use a single vector path svg");
            reveal_strlit("text is not supported, please use a single vector path svg");
        }
        r
    }
}

} // verus!
