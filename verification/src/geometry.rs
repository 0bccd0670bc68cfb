//! Geometric primitives: finite sizes and points in whole pixels, and
//! possibly-infinite upper bounds on a single dimension.

use vstd::prelude::*;

verus! {

/// Addition on pixel lengths, saturating at the pixel ceiling.
pub open spec fn sat_add(a: u32, b: u32) -> u32 {
    if a + b <= u32::MAX {
        (a + b) as u32
    } else {
        u32::MAX
    }
}

/// Subtraction on pixel lengths, floored at zero.
pub open spec fn sat_sub(a: u32, b: u32) -> u32 {
    if a >= b {
        (a - b) as u32
    } else {
        0
    }
}

/// Exec counterpart of [`sat_add`].
pub fn add_sat(a: u32, b: u32) -> (r: u32)
    ensures
        r == sat_add(a, b),
{
    if a <= u32::MAX - b {
        a + b
    } else {
        u32::MAX
    }
}

/// Exec counterpart of [`sat_sub`].
pub fn sub_sat(a: u32, b: u32) -> (r: u32)
    ensures
        r == sat_sub(a, b),
{
    if a >= b {
        a - b
    } else {
        0
    }
}

/// The larger of two pixel lengths.
pub open spec fn spec_max(a: u32, b: u32) -> u32 {
    if a >= b {
        a
    } else {
        b
    }
}

/// Exec counterpart of [`spec_max`].
pub fn max_len(a: u32, b: u32) -> (r: u32)
    ensures
        r == spec_max(a, b),
{
    if a >= b {
        a
    } else {
        b
    }
}

/// The smaller of two pixel lengths.
pub open spec fn spec_min(a: u32, b: u32) -> u32 {
    if a <= b {
        a
    } else {
        b
    }
}

/// Exec counterpart of [`spec_min`].
pub fn min_len(a: u32, b: u32) -> (r: u32)
    ensures
        r == spec_min(a, b),
{
    if a <= b {
        a
    } else {
        b
    }
}

/// A concrete, finite size.
#[derive(Clone, Copy, PartialEq, Eq, Structural, Debug)]
pub struct Size {
    pub width: u32,
    pub height: u32,
}

impl Size {
    /// The empty size.
    pub open spec fn zero() -> Size {
        Size { width: 0, height: 0 }
    }

    /// Builds a size from its two dimensions.
    pub fn new(width: u32, height: u32) -> (s: Size)
        ensures
            s.width == width,
            s.height == height,
    {
        Size { width, height }
    }

    /// Grows the size by `padding` on all four sides.
    pub open spec fn spec_pad(self, padding: u16) -> Size {
        Size {
            width: sat_add(self.width, (2 * padding as u32) as u32),
            height: sat_add(self.height, (2 * padding as u32) as u32),
        }
    }

    /// Exec counterpart of [`Size::spec_pad`].
    pub fn pad(self, padding: u16) -> (s: Size)
        ensures
            s == self.spec_pad(padding),
    {
        Size {
            width: add_sat(self.width, 2 * padding as u32),
            height: add_sat(self.height, 2 * padding as u32),
        }
    }
}

/// A position relative to an enclosing box.
#[derive(Clone, Copy, PartialEq, Eq, Structural, Debug)]
pub struct Point {
    pub x: u32,
    pub y: u32,
}

impl Point {
    /// The origin.
    pub open spec fn origin() -> Point {
        Point { x: 0, y: 0 }
    }

    /// Builds a point from its two coordinates.
    pub fn new(x: u32, y: u32) -> (p: Point)
        ensures
            p.x == x,
            p.y == y,
    {
        Point { x, y }
    }
}

/// An upper bound on one dimension: a finite pixel length, or no bound at
/// all.
#[derive(Clone, Copy, PartialEq, Eq, Structural, Debug)]
pub enum Bound {
    /// At most this many pixels.
    Finite(u32),
    /// Unlimited room.
    Infinite,
}

impl Bound {
    /// Whether the bound admits the length `v`.
    pub open spec fn admits(self, v: u32) -> bool {
        match self {
            Bound::Finite(m) => v <= m,
            Bound::Infinite => true,
        }
    }

    /// The bound shrunk by `d`, floored at zero; unlimited room stays
    /// unlimited.
    pub open spec fn spec_shrink(self, d: u32) -> Bound {
        match self {
            Bound::Finite(m) => Bound::Finite(sat_sub(m, d)),
            Bound::Infinite => Bound::Infinite,
        }
    }

    /// Exec counterpart of [`Bound::spec_shrink`].
    pub fn shrink(self, d: u32) -> (r: Bound)
        ensures
            r == self.spec_shrink(d),
    {
        match self {
            Bound::Finite(m) => Bound::Finite(sub_sat(m, d)),
            Bound::Infinite => Bound::Infinite,
        }
    }

    /// The bound raised to at least `v`.
    pub open spec fn spec_raise(self, v: u32) -> Bound {
        match self {
            Bound::Finite(m) => Bound::Finite(spec_max(m, v)),
            Bound::Infinite => Bound::Infinite,
        }
    }

    /// Exec counterpart of [`Bound::spec_raise`].
    pub fn raise(self, v: u32) -> (r: Bound)
        ensures
            r == self.spec_raise(v),
    {
        match self {
            Bound::Finite(m) => Bound::Finite(max_len(m, v)),
            Bound::Infinite => Bound::Infinite,
        }
    }

    /// The length `v` cut down to the bound; a finite result always exists.
    pub open spec fn spec_cap(self, v: u32) -> u32 {
        match self {
            Bound::Finite(m) => spec_min(v, m),
            Bound::Infinite => v,
        }
    }

    /// Exec counterpart of [`Bound::spec_cap`].
    pub fn cap(self, v: u32) -> (r: u32)
        ensures
            r == self.spec_cap(v),
    {
        match self {
            Bound::Finite(m) => min_len(v, m),
            Bound::Infinite => v,
        }
    }
}

/// A possibly-infinite upper bound on both dimensions of a size.
#[derive(Clone, Copy, PartialEq, Eq, Structural, Debug)]
pub struct MaxSize {
    pub width: Bound,
    pub height: Bound,
}

impl MaxSize {
    /// No bound in either dimension.
    pub open spec fn unbounded() -> MaxSize {
        MaxSize { width: Bound::Infinite, height: Bound::Infinite }
    }

    /// Builds a bound from its two dimensions.
    pub fn new(width: Bound, height: Bound) -> (m: MaxSize)
        ensures
            m.width == width,
            m.height == height,
    {
        MaxSize { width, height }
    }

    /// Whether the bound admits the size `s` in both dimensions.
    pub open spec fn admits(self, s: Size) -> bool {
        self.width.admits(s.width) && self.height.admits(s.height)
    }
}

} // verus!
