//! Absolute sizes and mixed relative/absolute lengths.
use vstd::prelude::*;

verus! {

/// Denominator of relative fractions: a fraction is stored in thousandths,
/// so `500` stands for one half of the reference size.
pub const SCALE: i64 = 1000;

/// Largest magnitude of an absolute length unit that the algebra admits.
pub const MAX_UNITS: i64 = 1_000_000_000_000;

/// A length that is the sum of a relative part and an absolute part:
/// `rel / SCALE` of a not-yet-known reference size, plus `abs` units.
#[derive(Clone, Copy, PartialEq, Eq, Structural, Debug)]
pub struct Length {
    /// Relative fraction of the reference size, in thousandths.
    pub rel: i64,
    /// Absolute offset in units.
    pub abs: i64,
}

/// Truncating division with a defined result for a zero divisor: where the
/// exact quotient would be undefined, zero is returned instead.
pub open spec fn sdiv(n: int, d: int) -> int {
    if d == 0 {
        0
    } else if d < 0 {
        -(n / -d)
    } else {
        n / d
    }
}

/// What a length resolves to against a known reference size.
pub open spec fn resolve1(rel: int, abs: int, reference: int) -> int {
    rel * reference / (SCALE as int) + abs
}

impl Length {
    /// A length whose parts both lie within the admitted ranges.
    pub open spec fn wf(self) -> bool {
        &&& 0 <= self.rel <= SCALE
        &&& 0 <= self.abs <= MAX_UNITS
    }

    /// Whether the length lies within the admitted ranges; the executable
    /// twin of [`Length::wf`], for callers outside the proof.
    pub fn check_wf(&self) -> (r: bool)
        ensures
            r == self.wf(),
    {
        0 <= self.rel && self.rel <= SCALE && 0 <= self.abs && self.abs <= MAX_UNITS
    }

    /// The zero length.
    pub fn zero() -> (r: Length)
        ensures
            r.rel == 0,
            r.abs == 0,
            r.wf(),
    {
        Length { rel: 0, abs: 0 }
    }

    /// A purely absolute length.
    pub fn from_abs(abs: i64) -> (r: Length)
        ensures
            r.rel == 0,
            r.abs == abs,
    {
        Length { rel: 0, abs }
    }

    /// A purely relative length.
    pub fn from_rel(rel: i64) -> (r: Length)
        ensures
            r.rel == rel,
            r.abs == 0,
    {
        Length { rel, abs: 0 }
    }

    /// Compose two lengths; composition adds the parts component-wise.
    pub fn add(self, other: Length) -> (r: Length)
        requires
            self.rel + other.rel <= i64::MAX,
            self.abs + other.abs <= i64::MAX,
            i64::MIN <= self.rel + other.rel,
            i64::MIN <= self.abs + other.abs,
        ensures
            r.rel == self.rel + other.rel,
            r.abs == self.abs + other.abs,
    {
        Length { rel: self.rel + other.rel, abs: self.abs + other.abs }
    }

    /// Resolve the length against a known reference size; the relative part
    /// becomes `rel / SCALE` of the reference.
    ///
    /// The relative fraction may be an axis sum of two sides, so up to twice
    /// the full fraction is admitted.
    pub fn resolve(self, reference: i64) -> (r: i64)
        requires
            0 <= self.rel <= 2 * SCALE,
            0 <= self.abs <= 2 * MAX_UNITS,
            0 <= reference <= MAX_UNITS,
        ensures
            r == resolve1(self.rel as int, self.abs as int, reference as int),
            0 <= r <= 2 * reference + self.abs,
    {
        proof {
            assert(0 <= self.rel * reference <= 2 * SCALE * MAX_UNITS) by (nonlinear_arith)
                requires
                    0 <= self.rel <= 2 * SCALE,
                    0 <= reference <= MAX_UNITS,
            ;
            assert(0 <= self.rel * reference / (SCALE as int) <= 2 * reference)
                by (nonlinear_arith)
                requires
                    0 <= self.rel <= 2 * SCALE,
                    0 <= reference,
                    SCALE == 1000,
            ;
        }
        self.rel * reference / SCALE + self.abs
    }
}

/// Length composition is commutative in both parts.
pub proof fn lemma_length_add_commutative(a: Length, b: Length)
    ensures
        a.rel + b.rel == b.rel + a.rel,
        a.abs + b.abs == b.abs + a.abs,
{
}

/// Length composition is associative in both parts.
pub proof fn lemma_length_add_associative(a: Length, b: Length, c: Length)
    ensures
        (a.rel + b.rel) + c.rel == a.rel + (b.rel + c.rel),
        (a.abs + b.abs) + c.abs == a.abs + (b.abs + c.abs),
{
}

/// A pair of absolute extents, one per axis.
#[derive(Clone, Copy, PartialEq, Eq, Structural, Debug)]
pub struct Size {
    /// Horizontal extent in units.
    pub x: i64,
    /// Vertical extent in units.
    pub y: i64,
}

impl Size {
    /// Both extents lie within the admitted range of region and frame sizes.
    pub open spec fn wf(self) -> bool {
        &&& 0 <= self.x <= MAX_UNITS
        &&& 0 <= self.y <= MAX_UNITS
    }

    /// Create a size from its two extents.
    pub fn new(x: i64, y: i64) -> (r: Size)
        ensures
            r.x == x,
            r.y == y,
    {
        Size { x, y }
    }
}

/// A position in a frame, relative to the frame's origin.
#[derive(Clone, Copy, PartialEq, Eq, Structural, Debug)]
pub struct Point {
    /// Horizontal offset in units.
    pub x: i64,
    /// Vertical offset in units.
    pub y: i64,
}

impl Point {
    /// Create a point from its two coordinates.
    pub fn new(x: i64, y: i64) -> (r: Point)
        ensures
            r.x == x,
            r.y == y,
    {
        Point { x, y }
    }
}

/// Divide, returning zero for a zero divisor instead of failing: the grow
/// formula divides by `SCALE - rel`, which a full relative fraction makes
/// zero, and that degenerate case must yield a defined fallback value.
pub fn safe_div(n: i64, d: i64) -> (r: i64)
    requires
        0 <= n,
        i64::MIN < d,
    ensures
        r == sdiv(n as int, d as int),
{
    if d == 0 {
        0
    } else if d < 0 {
        proof {
            assert(n as int / -(d as int) <= n) by (nonlinear_arith)
                requires
                    0 <= n,
                    0 < -(d as int),
            ;
            assert(0 <= n as int / -(d as int)) by (nonlinear_arith)
                requires
                    0 <= n,
                    0 < -(d as int),
            ;
        }
        -(n / -d)
    } else {
        proof {
            assert(0 <= n as int / d as int <= n) by (nonlinear_arith)
                requires
                    0 <= n,
                    0 < d as int,
            ;
        }
        n / d
    }
}

} // verus!
