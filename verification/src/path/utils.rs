//! Locating the drawable path in a document tree.
//!
//! The search walks the children in document order: the first group node
//! encountered is entered and its result returned outright, a path node with
//! a stroke is the answer, a stroke-less path is skipped, and an image or
//! text node fails the search.

use vstd::prelude::*;

use crate::error::PathError;
use crate::path::points::Segment;

verus! {

/// One node of a source document tree.
pub enum SvgNode {
    Group(SvgGroup),
    Path(SvgPath),
    Image,
    Text,
}

/// A group node's children, in document order.
pub struct SvgGroup {
    pub children: Vec<SvgNode>,
}

/// A path node: whether it carries a stroke, and its drawing instructions.
pub struct SvgPath {
    pub has_stroke: bool,
    pub segments: Vec<Segment>,
}

/// The search over a child list: the first group is entered outright, the
/// first stroked path wins, stroke-less paths are skipped, images and text
/// fail.
pub open spec fn spec_find_path(nodes: Seq<SvgNode>) -> Result<SvgPath, PathError>
    decreases nodes,
    via spec_find_path_decreases
{
    if nodes.len() == 0 {
        Err(PathError::NoPath)
    } else {
        match nodes[0] {
            SvgNode::Group(g) => spec_find_path(g.children@),
            SvgNode::Path(p) => if p.has_stroke {
                Ok(p)
            } else {
                spec_find_path(nodes.drop_first())
            },
            SvgNode::Image => Err(PathError::ImageUnsupported),
            SvgNode::Text => Err(PathError::TextUnsupported),
        }
    }
}

#[via_fn]
proof fn spec_find_path_decreases(nodes: Seq<SvgNode>) {
    broadcast use vstd::seq::axiom_seq_index_decreases;
    broadcast use vstd::seq::axiom_seq_subrange_decreases;
    broadcast use vstd::std_specs::vec::axiom_vec_decreases_to_view;

    if nodes.len() > 0 {
        match nodes[0] {
            SvgNode::Group(g) => {
                assert(decreases_to!(nodes => nodes[0]));
                assert(decreases_to!(nodes[0] => g));
                assert(decreases_to!(g => g.children));
                assert(decreases_to!(g.children => g.children@));
            },
            SvgNode::Path(p) => {
                if !p.has_stroke {
                    assert(nodes.drop_first().len() < nodes.len());
                }
            },
            _ => {},
        }
    }
}

/// Find the path element the document draws, as `spec_find_path` describes.
pub fn find_path(nodes: &Vec<SvgNode>) -> (r: Result<&SvgPath, PathError>)
    ensures
        (r matches Ok(p) ==> spec_find_path(nodes@) == Ok::<SvgPath, PathError>(*p)),
        (r matches Err(e) ==> spec_find_path(nodes@) == Err::<SvgPath, PathError>(e)),
    decreases nodes@,
{
    let mut i: usize = 0;
    proof {
        assert(nodes@.skip(0) =~= nodes@);
    }
    while i < nodes.len()
        invariant
            i <= nodes@.len(),
            spec_find_path(nodes@.skip(i as int)) == spec_find_path(nodes@),
        decreases nodes@.len() - i,
    {
        let ghost pending = nodes@.skip(i as int);
        proof {
            assert(pending.first() == nodes@[i as int]);
        }
        match &nodes[i] {
            SvgNode::Group(g) => {
                proof {
                    broadcast use vstd::seq::axiom_seq_index_decreases;
                    broadcast use vstd::std_specs::vec::axiom_vec_decreases_to_view;

                    assert(decreases_to!(nodes@ => nodes@[i as int]));
                    assert(decreases_to!(nodes@[i as int] => *g));
                    assert(decreases_to!(*g => g.children));
                    assert(decreases_to!(g.children => g.children@));
                }
                return find_path(&g.children);
            },
            SvgNode::Path(p) => {
                if p.has_stroke {
                    return Ok(p);
                }
            },
            SvgNode::Image => {
                return Err(PathError::ImageUnsupported);
            },
            SvgNode::Text => {
                return Err(PathError::TextUnsupported);
            },
        }
        proof {
            assert(pending.drop_first() =~= nodes@.skip(i as int + 1));
        }
        i = i + 1;
    }
    Err(PathError::NoPath)
}

} // verus!
