//! A four-tuple of per-side measures with fixed axis grouping.
use vstd::prelude::*;

use crate::size::{Length, Size, resolve1};

verus! {

/// One mixed relative/absolute length per side of a box. Left and right
/// belong to the horizontal axis, top and bottom to the vertical axis.
#[derive(Clone, Copy, PartialEq, Eq, Structural, Debug)]
pub struct Sides {
    /// Inset on the left side.
    pub left: Length,
    /// Inset on the top side.
    pub top: Length,
    /// Inset on the right side.
    pub right: Length,
    /// Inset on the bottom side.
    pub bottom: Length,
}

/// The totals of the two sides of one axis, as a length.
#[derive(Clone, Copy, PartialEq, Eq, Structural, Debug)]
pub struct AxisPair {
    /// Sum of left and right.
    pub horizontal: Length,
    /// Sum of top and bottom.
    pub vertical: Length,
}

/// The four sides resolved against a known reference size, each absolute.
#[derive(Clone, Copy, PartialEq, Eq, Structural, Debug)]
pub struct ResolvedSides {
    /// Absolute left inset.
    pub left: i64,
    /// Absolute top inset.
    pub top: i64,
    /// Absolute right inset.
    pub right: i64,
    /// Absolute bottom inset.
    pub bottom: i64,
}

impl Sides {
    /// All four lengths lie within the admitted ranges.
    pub open spec fn wf(self) -> bool {
        &&& self.left.wf()
        &&& self.top.wf()
        &&& self.right.wf()
        &&& self.bottom.wf()
    }

    /// Total relative fraction of the horizontal axis.
    pub open spec fn hrel(self) -> int {
        self.left.rel + self.right.rel
    }

    /// Total absolute offset of the horizontal axis.
    pub open spec fn habs(self) -> int {
        self.left.abs + self.right.abs
    }

    /// Total relative fraction of the vertical axis.
    pub open spec fn vrel(self) -> int {
        self.top.rel + self.bottom.rel
    }

    /// Total absolute offset of the vertical axis.
    pub open spec fn vabs(self) -> int {
        self.top.abs + self.bottom.abs
    }

    /// Whether all four lengths lie within the admitted ranges; the
    /// executable twin of [`Sides::wf`], for callers outside the proof.
    pub fn check_wf(&self) -> (r: bool)
        ensures
            r == self.wf(),
    {
        self.left.check_wf() && self.top.check_wf() && self.right.check_wf()
            && self.bottom.check_wf()
    }

    /// Create sides from the four lengths.
    pub fn new(left: Length, top: Length, right: Length, bottom: Length) -> (r: Sides)
        ensures
            r.left == left,
            r.top == top,
            r.right == right,
            r.bottom == bottom,
    {
        Sides { left, top, right, bottom }
    }

    /// The same length on all four sides.
    pub fn uniform(l: Length) -> (r: Sides)
        ensures
            r.left == l,
            r.top == l,
            r.right == l,
            r.bottom == l,
    {
        Sides { left: l, top: l, right: l, bottom: l }
    }

    /// Sum the sides by axis: horizontal is left plus right, vertical is top
    /// plus bottom, each summed component-wise as a length.
    pub fn sum_by_axis(self) -> (r: AxisPair)
        requires
            self.wf(),
        ensures
            r.horizontal.rel == self.hrel(),
            r.horizontal.abs == self.habs(),
            r.vertical.rel == self.vrel(),
            r.vertical.abs == self.vabs(),
    {
        AxisPair {
            horizontal: self.left.add(self.right),
            vertical: self.top.add(self.bottom),
        }
    }

    /// Resolve every side against a known reference size, the horizontal
    /// sides against its width and the vertical sides against its height.
    pub fn relative_to(self, size: Size) -> (r: ResolvedSides)
        requires
            self.wf(),
            size.wf(),
        ensures
            r.left == resolve1(self.left.rel as int, self.left.abs as int, size.x as int),
            r.top == resolve1(self.top.rel as int, self.top.abs as int, size.y as int),
            r.right == resolve1(self.right.rel as int, self.right.abs as int, size.x as int),
            r.bottom == resolve1(self.bottom.rel as int, self.bottom.abs as int, size.y as int),
            0 <= r.left <= size.x + self.left.abs,
            0 <= r.top <= size.y + self.top.abs,
    {
        let r = ResolvedSides {
            left: self.left.resolve(size.x),
            top: self.top.resolve(size.y),
            right: self.right.resolve(size.x),
            bottom: self.bottom.resolve(size.y),
        };
        proof {
            assert(self.left.rel * size.x / (crate::size::SCALE as int) <= size.x)
                by (nonlinear_arith)
                requires
                    0 <= self.left.rel <= crate::size::SCALE,
                    0 <= size.x,
                    crate::size::SCALE == 1000,
            ;
            assert(self.top.rel * size.y / (crate::size::SCALE as int) <= size.y)
                by (nonlinear_arith)
                requires
                    0 <= self.top.rel <= crate::size::SCALE,
                    0 <= size.y,
                    crate::size::SCALE == 1000,
            ;
        }
        r
    }
}

} // verus!
