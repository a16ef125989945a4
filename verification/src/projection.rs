//! The plane of the texture points that a mesh gets where its text gave none.
//!
//! Such a mesh is textured by laying it flat: each vertex gets as its texture
//! point two of its three coordinates, scaled to the box round the mesh. The
//! two are those along which the box is widest. The extents of the box are
//! compared outside; what the comparisons mean for the choice stands here.

use vstd::prelude::*;
use crate::rotation::Axis;

verus! {

/// The two axes that give a vertex its texture point, the first and the
/// second coordinate of it, from three comparisons of the extents of the box:
/// `x_over_y` says that it is wider along x than along y, `z_over_y` that it
/// is wider along z than along y, `z_over_x` that it is wider along z than
/// along x. The axis that is left out is one along which the box is not wider
/// than along either of the other two.
pub open spec fn widest_pair(x_over_y: bool, z_over_y: bool, z_over_x: bool) -> (Axis, Axis) {
    if x_over_y {
        if z_over_y {
            (Axis::X, Axis::Z)
        } else {
            (Axis::X, Axis::Y)
        }
    } else {
        if z_over_x {
            (Axis::Z, Axis::Y)
        } else {
            (Axis::X, Axis::Y)
        }
    }
}

/// Chooses the two axes that give a vertex its texture point.
pub fn projection_axes(x_over_y: bool, z_over_y: bool, z_over_x: bool) -> (pair: (Axis, Axis))
    ensures
        pair == widest_pair(x_over_y, z_over_y, z_over_x),
        pair.0 != pair.1,
{
    if x_over_y {
        if z_over_y {
            (Axis::X, Axis::Z)
        } else {
            (Axis::X, Axis::Y)
        }
    } else {
        if z_over_x {
            (Axis::Z, Axis::Y)
        } else {
            (Axis::X, Axis::Y)
        }
    }
}

/// Where the three comparisons come from one order of the extents, the axis
/// that is left out is a least one: the box is at least as wide along each of
/// the two chosen axes as along the third.
pub proof fn lemma_widest_pair_drops_least(x: int, y: int, z: int)
    ensures
        ({
            let pair = widest_pair(x > y, z > y, z > x);
            &&& pair == (Axis::X, Axis::Z) ==> y <= x && y <= z
            &&& pair == (Axis::X, Axis::Y) ==> z <= x && z <= y
            &&& pair == (Axis::Z, Axis::Y) ==> x <= z && x <= y
        }),
{
}

} // verus!
