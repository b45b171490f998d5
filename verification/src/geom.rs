//! Axis-aligned bounding boxes and 2D vectors.
//!
//! An `AABB` stores its center and its full size (width and height); the
//! collision math divides the sizes by two internally.  Two boxes overlap
//! exactly when, on both axes, the distance between their centers is less
//! than the sum of their half-extents, and the displacement (penetration)
//! vector holds the per-axis overlap depth.

use vstd::prelude::*;

verus! {

/// Bound on coordinates accepted by the geometric operations; large enough
/// for any position the simulation can reach, small enough that the
/// arithmetic cannot overflow an `i64`.
pub const GEOM_LIMIT: i64 = 0x1000_0000_0000_0000;

#[derive(Clone, Copy, PartialEq, Eq, Structural, Debug)]
pub struct Vec2 {
    pub x: i64,
    pub y: i64,
}

#[derive(Clone, Copy, PartialEq, Eq, Structural, Debug)]
pub struct AABB {
    /// Center of the box.
    pub center: Vec2,
    /// Full width (`x`) and full height (`y`) of the box.
    pub size: Vec2,
}

/// Mathematical image of a `Vec2`.
pub ghost struct V2M {
    pub x: int,
    pub y: int,
}

/// Mathematical image of an `AABB`: center and full size per axis.
pub ghost struct BoxM {
    pub cx: int,
    pub cy: int,
    pub sx: int,
    pub sy: int,
}

impl View for Vec2 {
    type V = V2M;

    open spec fn view(&self) -> V2M {
        V2M { x: self.x as int, y: self.y as int }
    }
}

impl View for AABB {
    type V = BoxM;

    open spec fn view(&self) -> BoxM {
        BoxM {
            cx: self.center.x as int,
            cy: self.center.y as int,
            sx: self.size.x as int,
            sy: self.size.y as int,
        }
    }
}

/// Build a mathematical vector.
pub open spec fn v2m(x: int, y: int) -> V2M {
    V2M { x, y }
}

/// Absolute value of a mathematical integer.
pub open spec fn iabs(v: int) -> int {
    if v < 0 {
        -v
    } else {
        v
    }
}

/// Per-axis half-extent sums minus per-axis center distances: positive on
/// both axes exactly when the boxes overlap.
pub open spec fn spec_overlap_depth(a: BoxM, b: BoxM) -> V2M {
    V2M {
        x: a.sx / 2 + b.sx / 2 - iabs(a.cx - b.cx),
        y: a.sy / 2 + b.sy / 2 - iabs(a.cy - b.cy),
    }
}

/// Two boxes overlap when on both axes the center distance is strictly less
/// than the sum of the half-extents.
pub open spec fn spec_overlap(a: BoxM, b: BoxM) -> bool {
    &&& iabs(a.cx - b.cx) < a.sx / 2 + b.sx / 2
    &&& iabs(a.cy - b.cy) < a.sy / 2 + b.sy / 2
}

/// Minimum per-axis translation separating `a` from `b`: the overlap depth
/// when they overlap, nothing when they are already apart.
pub open spec fn spec_displacement(a: BoxM, b: BoxM) -> Option<V2M> {
    if spec_overlap(a, b) {
        Some(spec_overlap_depth(a, b))
    } else {
        None
    }
}

/// A box whose center coordinates and non-negative sizes all lie within
/// `lim`.
pub open spec fn box_bounded(b: BoxM, lim: int) -> bool {
    &&& iabs(b.cx) <= lim
    &&& iabs(b.cy) <= lim
    &&& 0 <= b.sx <= lim
    &&& 0 <= b.sy <= lim
}

/// The square of a value bounded by `b` is bounded by `b * b`.
pub proof fn lemma_square_bound(v: int, b: int)
    requires
        -b <= v <= b,
        0 <= b,
    ensures
        0 <= v * v <= b * b,
{
    assert(0 <= v * v <= b * b) by (nonlinear_arith)
        requires
            -b <= v <= b,
            0 <= b,
    ;
}

/// Absolute value of a bounded `i64`.
pub fn abs64(v: i64) -> (r: i64)
    requires
        v != i64::MIN,
    ensures
        r == iabs(v as int),
{
    if v < 0 {
        -v
    } else {
        v
    }
}

impl AABB {
    /// Overlap test: per-axis center distance strictly below the sum of the
    /// half-extents on both axes.
    pub fn overlap(&self, other: &AABB) -> (r: bool)
        requires
            box_bounded(self@, GEOM_LIMIT as int),
            box_bounded(other@, GEOM_LIMIT as int),
        ensures
            r == spec_overlap(self@, other@),
    {
        let dx = abs64(self.center.x - other.center.x);
        let dy = abs64(self.center.y - other.center.y);
        dx < self.size.x / 2 + other.size.x / 2 && dy < self.size.y / 2 + other.size.y / 2
    }

    /// Minimum translation vector separating `self` from `other`, or `None`
    /// when the boxes do not overlap.
    pub fn displacement(&self, other: &AABB) -> (r: Option<Vec2>)
        requires
            box_bounded(self@, GEOM_LIMIT as int),
            box_bounded(other@, GEOM_LIMIT as int),
        ensures
            (r is Some) == spec_overlap(self@, other@),
            r matches Some(v) ==> v@ == spec_overlap_depth(self@, other@),
    {
        if self.overlap(other) {
            let dx = abs64(self.center.x - other.center.x);
            let dy = abs64(self.center.y - other.center.y);
            Some(
                Vec2 {
                    x: self.size.x / 2 + other.size.x / 2 - dx,
                    y: self.size.y / 2 + other.size.y / 2 - dy,
                },
            )
        } else {
            None
        }
    }
}

impl Vec2 {
    /// Squared Euclidean length, computed exactly in 128 bits.
    pub fn length_squared(&self) -> (r: i128)
        requires
            iabs(self.x as int) <= GEOM_LIMIT as int,
            iabs(self.y as int) <= GEOM_LIMIT as int,
        ensures
            r == (self.x as int) * (self.x as int) + (self.y as int) * (self.y as int),
    {
        proof {
            lemma_square_bound(self.x as int, GEOM_LIMIT as int);
            lemma_square_bound(self.y as int, GEOM_LIMIT as int);
        }
        (self.x as i128) * (self.x as i128) + (self.y as i128) * (self.y as i128)
    }

    /// Squared Euclidean distance to `other`, computed exactly in 128 bits.
    pub fn distance_squared(&self, other: &Vec2) -> (r: i128)
        requires
            iabs(self.x as int) <= GEOM_LIMIT as int,
            iabs(self.y as int) <= GEOM_LIMIT as int,
            iabs(other.x as int) <= GEOM_LIMIT as int,
            iabs(other.y as int) <= GEOM_LIMIT as int,
        ensures
            r == (self.x - other.x) * (self.x - other.x) + (self.y - other.y) * (self.y
                - other.y),
    {
        let dx = (self.x as i128) - (other.x as i128);
        let dy = (self.y as i128) - (other.y as i128);
        proof {
            lemma_square_bound(dx as int, 2 * GEOM_LIMIT as int);
            lemma_square_bound(dy as int, 2 * GEOM_LIMIT as int);
        }
        dx * dx + dy * dy
    }
}

} // verus!
