//! Sizing policy of an element along one axis.

use vstd::prelude::*;

verus! {

/// How an element wants to be sized along one axis.
#[derive(Clone, Copy, PartialEq, Eq, Structural, Debug)]
pub enum Length {
    /// Claim all the leftover space, with weight 1.
    Fill,
    /// Claim a share of the leftover space proportional to this weight.
    FillPortion(u16),
    /// Size to content.
    Shrink,
    /// Exactly this many pixels, as far as the constraints allow.
    Units(u16),
}

impl Length {
    /// The fill weight of the policy: zero means "size to content", a
    /// nonzero weight claims a proportional share of leftover space.
    pub open spec fn spec_fill_factor(self) -> u16 {
        match self {
            Length::Fill => 1,
            Length::FillPortion(factor) => factor,
            Length::Shrink => 0,
            Length::Units(_) => 0,
        }
    }

    /// Exec counterpart of [`Length::spec_fill_factor`].
    pub fn fill_factor(&self) -> (r: u16)
        ensures
            r == self.spec_fill_factor(),
    {
        match self {
            Length::Fill => 1,
            Length::FillPortion(factor) => *factor,
            Length::Shrink => 0,
            Length::Units(_) => 0,
        }
    }
}

} // verus!
