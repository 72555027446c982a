//! Fixed-point 3D points and the squared-distance comparisons the rest
//! of the crate is built on. Comparing squared distances against squared
//! radii is equivalent to comparing true distances for non-negative
//! values, so no square root is ever needed.

use vstd::prelude::*;

verus! {

/// Bound on every coordinate and radius, in milli-units (one thousandth
/// of a world unit). Chosen so that a squared distance between two
/// in-bound points fits comfortably in `i64`.
pub const COORD_LIMIT: i64 = 100_000_000;

/// A point or direction in 3D space, in milli-units.
#[derive(Clone, Copy, PartialEq, Eq, Structural, Debug)]
pub struct Vec3 {
    pub x: i64,
    pub y: i64,
    pub z: i64,
}

/// `a * a <= b * b` whenever `|a| <= b`.
pub proof fn lemma_square_bound(a: int, b: int)
    requires
        -b <= a <= b,
    ensures
        0 <= a * a <= b * b,
{
    assert(0 <= a * a <= b * b) by (nonlinear_arith)
        requires
            -b <= a <= b,
    ;
}

impl Vec3 {
    /// Every coordinate within `COORD_LIMIT`.
    pub open spec fn in_world(self) -> bool {
        &&& -COORD_LIMIT <= self.x <= COORD_LIMIT
        &&& -COORD_LIMIT <= self.y <= COORD_LIMIT
        &&& -COORD_LIMIT <= self.z <= COORD_LIMIT
    }

    /// Squared 3D distance, in exact integer arithmetic.
    pub open spec fn spec_dist_sq(self, other: Vec3) -> int {
        let dx = self.x - other.x;
        let dy = self.y - other.y;
        let dz = self.z - other.z;
        dx * dx + dy * dy + dz * dz
    }

    /// Squared distance in the horizontal (x, z) plane.
    pub open spec fn spec_dist_sq_xz(self, other: Vec3) -> int {
        let dx = self.x - other.x;
        let dz = self.z - other.z;
        dx * dx + dz * dz
    }

    /// True when `other` lies within `radius` of `self` (3D), compared
    /// on squares.
    pub open spec fn spec_within(self, other: Vec3, radius: int) -> bool {
        self.spec_dist_sq(other) <= radius * radius
    }

    /// True when `other` lies within `radius` of `self` in the
    /// horizontal plane.
    pub open spec fn spec_within_xz(self, other: Vec3, radius: int) -> bool {
        self.spec_dist_sq_xz(other) <= radius * radius
    }

    pub fn new(x: i64, y: i64, z: i64) -> (v: Vec3)
        ensures
            v == (Vec3 { x, y, z }),
    {
        Vec3 { x, y, z }
    }

    /// Squared 3D distance to `other`.
    pub fn dist_sq(&self, other: &Vec3) -> (d: i64)
        requires
            self.in_world(),
            other.in_world(),
        ensures
            d == self.spec_dist_sq(*other),
            0 <= d,
    {
        let dx = self.x - other.x;
        let dy = self.y - other.y;
        let dz = self.z - other.z;
        proof {
            lemma_square_bound(dx as int, 2 * COORD_LIMIT as int);
            lemma_square_bound(dy as int, 2 * COORD_LIMIT as int);
            lemma_square_bound(dz as int, 2 * COORD_LIMIT as int);
        }
        dx * dx + dy * dy + dz * dz
    }

    /// Squared horizontal distance to `other`.
    pub fn dist_sq_xz(&self, other: &Vec3) -> (d: i64)
        requires
            self.in_world(),
            other.in_world(),
        ensures
            d == self.spec_dist_sq_xz(*other),
            0 <= d,
    {
        let dx = self.x - other.x;
        let dz = self.z - other.z;
        proof {
            lemma_square_bound(dx as int, 2 * COORD_LIMIT as int);
            lemma_square_bound(dz as int, 2 * COORD_LIMIT as int);
        }
        dx * dx + dz * dz
    }

    /// Whether `other` is within `radius` of `self` (3D).
    pub fn within(&self, other: &Vec3, radius: i64) -> (r: bool)
        requires
            self.in_world(),
            other.in_world(),
            0 <= radius <= COORD_LIMIT,
        ensures
            r == self.spec_within(*other, radius as int),
    {
        proof {
            lemma_square_bound(radius as int, COORD_LIMIT as int);
        }
        self.dist_sq(other) <= radius * radius
    }

    /// Whether `other` is within `radius` of `self` in the horizontal
    /// plane.
    pub fn within_xz(&self, other: &Vec3, radius: i64) -> (r: bool)
        requires
            self.in_world(),
            other.in_world(),
            0 <= radius <= COORD_LIMIT,
        ensures
            r == self.spec_within_xz(*other, radius as int),
    {
        proof {
            lemma_square_bound(radius as int, COORD_LIMIT as int);
        }
        self.dist_sq_xz(other) <= radius * radius
    }
}

} // verus!
