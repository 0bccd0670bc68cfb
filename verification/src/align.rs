//! Alignment of a box within a larger box, along one axis.

use vstd::prelude::*;

use crate::geometry::sat_sub;

verus! {

/// Where a box of a given extent sits within a larger extent.
#[derive(Clone, Copy, PartialEq, Eq, Structural, Debug)]
pub enum Align {
    /// Flush with the leading edge.
    Start,
    /// Centered.
    Center,
    /// Flush with the trailing edge.
    End,
}

/// How far the leading edge of a box of extent `size` moves when aligned
/// within an extent of `space`: zero for `Start`, half the leftover room
/// for `Center`, all of it for `End`. Leftover room is floored at zero, so
/// a box larger than its space never moves backwards.
pub open spec fn align_shift(align: Align, space: u32, size: u32) -> u32 {
    match align {
        Align::Start => 0,
        Align::Center => sat_sub(space, size) / 2,
        Align::End => sat_sub(space, size),
    }
}

/// Exec counterpart of [`align_shift`].
pub fn shift_for(align: Align, space: u32, size: u32) -> (r: u32)
    ensures
        r == align_shift(align, space, size),
{
    match align {
        Align::Start => 0,
        Align::Center => crate::geometry::sub_sat(space, size) / 2,
        Align::End => crate::geometry::sub_sat(space, size),
    }
}

} // verus!
