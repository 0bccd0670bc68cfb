//! Box constraints handed down during layout: a finite minimum size and a
//! possibly-infinite maximum size.

use vstd::prelude::*;

use crate::geometry::{sat_sub, spec_max, Bound, MaxSize, Size};
use crate::length::Length;

verus! {

/// A min/max box constraint. All operations are total; well-formedness
/// (minimum within maximum) is preserved by every transform and never
/// assumed.
#[derive(Clone, Copy, PartialEq, Eq, Structural, Debug)]
pub struct Limits {
    pub min: Size,
    pub max: MaxSize,
}

impl Limits {
    /// The minimum fits under the maximum in both dimensions.
    pub open spec fn wf(self) -> bool {
        self.max.width.admits(self.min.width) && self.max.height.admits(self.min.height)
    }

    /// Builds a constraint from a minimum and a maximum size.
    pub fn new(min: Size, max: MaxSize) -> (l: Limits)
        ensures
            l.min == min,
            l.max == max,
    {
        Limits { min, max }
    }

    /// The unconstrained limits: minimum zero, no maximum.
    pub fn none() -> (l: Limits)
        ensures
            l == (Limits { min: Size::zero(), max: MaxSize::unbounded() }),
    {
        Limits {
            min: Size { width: 0, height: 0 },
            max: MaxSize { width: Bound::Infinite, height: Bound::Infinite },
        }
    }

    /// The minimum size.
    pub fn min(&self) -> (s: Size)
        ensures
            s == self.min,
    {
        self.min
    }

    /// The maximum size.
    pub fn max(&self) -> (m: MaxSize)
        ensures
            m == self.max,
    {
        self.max
    }

    /// Reserves `padding` pixels on all four sides: both bounds shrink by
    /// twice the padding, the maximum floored at the new minimum so the
    /// constraint never inverts.
    pub open spec fn spec_pad(self, padding: u16) -> Limits {
        self.spec_shrink((2 * padding as u32) as u32, (2 * padding as u32) as u32)
    }

    /// Exec counterpart of [`Limits::spec_pad`].
    pub fn pad(self, padding: u16) -> (l: Limits)
        ensures
            l == self.spec_pad(padding),
            l.wf(),
    {
        self.shrink(2 * padding as u32, 2 * padding as u32)
    }

    /// Shrinks both bounds by the given amounts, flooring the minimum at
    /// zero and the maximum at the new minimum.
    pub open spec fn spec_shrink(self, dw: u32, dh: u32) -> Limits {
        let min = Size { width: sat_sub(self.min.width, dw), height: sat_sub(self.min.height, dh) };
        let max = MaxSize {
            width: self.max.width.spec_shrink(dw).spec_raise(min.width),
            height: self.max.height.spec_shrink(dh).spec_raise(min.height),
        };
        Limits { min, max }
    }

    /// Exec counterpart of [`Limits::spec_shrink`].
    pub fn shrink(self, dw: u32, dh: u32) -> (l: Limits)
        ensures
            l == self.spec_shrink(dw, dh),
            l.wf(),
    {
        let min = Size {
            width: crate::geometry::sub_sat(self.min.width, dw),
            height: crate::geometry::sub_sat(self.min.height, dh),
        };
        let max = MaxSize {
            width: self.max.width.shrink(dw).raise(min.width),
            height: self.max.height.shrink(dh).raise(min.height),
        };
        Limits { min, max }
    }

    /// Drops the minimum to zero, keeping the maximum: children are never
    /// forced to fill unless they opt in through their fill weight.
    pub open spec fn spec_loose(self) -> Limits {
        Limits { min: Size { width: 0, height: 0 }, max: self.max }
    }

    /// Exec counterpart of [`Limits::spec_loose`].
    pub fn loose(self) -> (l: Limits)
        ensures
            l == self.spec_loose(),
            l.wf(),
    {
        Limits { min: Size { width: 0, height: 0 }, max: self.max }
    }

    /// Intersects the maximum width with an explicit bound, floored at the
    /// minimum width.
    pub open spec fn spec_max_width(self, max_width: u32) -> Limits {
        let w = spec_max(self.max.width.spec_cap(max_width), self.min.width);
        Limits { min: self.min, max: MaxSize { width: Bound::Finite(w), height: self.max.height } }
    }

    /// Exec counterpart of [`Limits::spec_max_width`].
    pub fn max_width(self, max_width: u32) -> (l: Limits)
        ensures
            l == self.spec_max_width(max_width),
    {
        let w = crate::geometry::max_len(self.max.width.cap(max_width), self.min.width);
        Limits { min: self.min, max: MaxSize { width: Bound::Finite(w), height: self.max.height } }
    }

    /// Intersects the maximum height with an explicit bound, floored at the
    /// minimum height.
    pub open spec fn spec_max_height(self, max_height: u32) -> Limits {
        let h = spec_max(self.max.height.spec_cap(max_height), self.min.height);
        Limits { min: self.min, max: MaxSize { width: self.max.width, height: Bound::Finite(h) } }
    }

    /// Exec counterpart of [`Limits::spec_max_height`].
    pub fn max_height(self, max_height: u32) -> (l: Limits)
        ensures
            l == self.spec_max_height(max_height),
    {
        let h = crate::geometry::max_len(self.max.height.cap(max_height), self.min.height);
        Limits { min: self.min, max: MaxSize { width: self.max.width, height: Bound::Finite(h) } }
    }

    /// Applies a width policy: an exact pixel policy clamps both bounds to
    /// that value; fill and shrink policies leave the constraint unchanged
    /// (the fill weight is honored by the resolver, not here).
    pub open spec fn spec_width(self, width: Length) -> Limits {
        match width {
            Length::Units(units) => {
                let w = spec_max(self.max.width.spec_cap(units as u32), self.min.width);
                Limits {
                    min: Size { width: w, height: self.min.height },
                    max: MaxSize { width: Bound::Finite(w), height: self.max.height },
                }
            },
            _ => self,
        }
    }

    /// Exec counterpart of [`Limits::spec_width`].
    pub fn width(self, width: Length) -> (l: Limits)
        ensures
            l == self.spec_width(width),
    {
        match width {
            Length::Units(units) => {
                let w = crate::geometry::max_len(self.max.width.cap(units as u32), self.min.width);
                Limits {
                    min: Size { width: w, height: self.min.height },
                    max: MaxSize { width: Bound::Finite(w), height: self.max.height },
                }
            },
            _ => self,
        }
    }

    /// Applies a height policy, as [`Limits::width`] does for widths.
    pub open spec fn spec_height(self, height: Length) -> Limits {
        match height {
            Length::Units(units) => {
                let h = spec_max(self.max.height.spec_cap(units as u32), self.min.height);
                Limits {
                    min: Size { width: self.min.width, height: h },
                    max: MaxSize { width: self.max.width, height: Bound::Finite(h) },
                }
            },
            _ => self,
        }
    }

    /// Exec counterpart of [`Limits::spec_height`].
    pub fn height(self, height: Length) -> (l: Limits)
        ensures
            l == self.spec_height(height),
    {
        match height {
            Length::Units(units) => {
                let h = crate::geometry::max_len(self.max.height.cap(units as u32), self.min.height);
                Limits {
                    min: Size { width: self.min.width, height: h },
                    max: MaxSize { width: self.max.width, height: Bound::Finite(h) },
                }
            },
            _ => self,
        }
    }

    /// Picks the concrete size for a desired intrinsic size: each dimension
    /// is cut down to the maximum, then raised to the minimum (so on an
    /// inverted constraint the minimum wins).
    pub open spec fn spec_resolve(self, intrinsic: Size) -> Size {
        Size {
            width: spec_max(self.max.width.spec_cap(intrinsic.width), self.min.width),
            height: spec_max(self.max.height.spec_cap(intrinsic.height), self.min.height),
        }
    }

    /// Exec counterpart of [`Limits::spec_resolve`].
    pub fn resolve(self, intrinsic: Size) -> (s: Size)
        ensures
            s == self.spec_resolve(intrinsic),
            self.wf() ==> self.max.admits(s),
            self.min.width <= s.width && self.min.height <= s.height,
    {
        Size {
            width: crate::geometry::max_len(self.max.width.cap(intrinsic.width), self.min.width),
            height: crate::geometry::max_len(self.max.height.cap(intrinsic.height), self.min.height),
        }
    }
}

} // verus!
