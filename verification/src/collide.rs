//! The region classification behind circle-against-box collision.

use vstd::prelude::*;

verus! {

/// The column (0, 1 or 2) of a point against a box: left of it, within its
/// width, or right of it. A point only counts as right of the box once it is
/// past the left edge.
pub open spec fn column(past_left: bool, past_right: bool) -> int {
    if past_left {
        if past_right {
            2
        } else {
            1
        }
    } else {
        0
    }
}

/// Which of the nine regions around an axis-aligned box a circle's centre
/// lies in, numbered row by row from the top left (0) to the bottom right
/// (8), the box itself being region 4.
///
/// `past_left` says the centre is right of the box's left edge and
/// `past_right` that it is at or beyond the right edge; `past_top` and
/// `past_bottom` say the same of the top and bottom edges. The region picks
/// which test of the centre against the box's corner or edge decides the
/// collision.
pub fn region_index(past_left: bool, past_right: bool, past_top: bool, past_bottom: bool) -> (region: usize)
    ensures
        region == column(past_left, past_right) + 3 * column(past_top, past_bottom),
{
    let mut region: usize = 0;
    if past_left {
        region += 1;
        if past_right {
            region += 1;
        }
    }
    if past_top {
        region += 3;
        if past_bottom {
            region += 3;
        }
    }
    region
}

/// Every region is one of the nine entries of the region table, and the
/// centre region is picked exactly when the centre is within the box on
/// both axes.
pub proof fn law_region_in_table(past_left: bool, past_right: bool, past_top: bool, past_bottom: bool)
    ensures
        0 <= column(past_left, past_right) + 3 * column(past_top, past_bottom) < 9,
        (column(past_left, past_right) + 3 * column(past_top, past_bottom) == 4) <==> (past_left
            && !past_right && past_top && !past_bottom),
{
}

} // verus!
