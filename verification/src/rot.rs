//! Rotations about the vertical axis, as scaled cosine/sine pairs.
//!
//! A `Rot` stands for the rotation whose cosine is `c / SCALE` and whose sine
//! is `s / SCALE`. The shell evaluates the pair from a yaw accumulator; the
//! core only ever applies pairs, with exact integer products. Applying a
//! rotation multiplies every component by `SCALE`, so the result of `apply`
//! is expressed at one scale finer than its argument and nothing is rounded
//! away: this is what makes the round-trip law exact.

use vstd::prelude::*;
use crate::fixed::SCALE;
use crate::vec3::{in_bounds, V3};

verus! {

/// Largest component magnitude `apply` accepts for its vector argument.
pub const ROT_IN_LIMIT: i64 = 4_000_000_000_000_000;

#[derive(Clone, Copy, PartialEq, Eq, Structural, Debug)]
pub struct Rot {
    /// `SCALE` times the cosine of the angle.
    pub c: i64,
    /// `SCALE` times the sine of the angle.
    pub s: i64,
}

/// One rotated coordinate, exact: the first entry of the image of `(x, z)`
/// under the rotation matrix `[[c, s], [-s, c]]`, scaled by `SCALE`.
pub open spec fn rot_x(c: int, s: int, x: int, z: int) -> int {
    c * x + s * z
}

/// The second rotated coordinate.
pub open spec fn rot_z(c: int, s: int, x: int, z: int) -> int {
    -s * x + c * z
}

impl Rot {
    /// Both entries within the scaled unit range.
    pub open spec fn wf(self) -> bool {
        &&& -SCALE <= self.c <= SCALE
        &&& -SCALE <= self.s <= SCALE
    }

    /// An exact unit pair: the rotation some angle maps to precisely.
    pub open spec fn unit(self) -> bool {
        self.c * self.c + self.s * self.s == SCALE * SCALE
    }

    /// The pair of the opposite angle: same cosine, negated sine.
    pub open spec fn inverse_spec(self) -> Rot {
        Rot { c: self.c, s: (-self.s) as i64 }
    }

    /// The identity rotation (yaw zero).
    pub fn identity() -> (r: Rot)
        ensures
            r == (Rot { c: SCALE, s: 0i64 }),
            r.wf(),
            r.unit(),
    {
        Rot { c: SCALE, s: 0 }
    }

    /// The rotation by the opposite angle.
    pub fn inverse(self) -> (r: Rot)
        requires
            self.wf(),
        ensures
            r == self.inverse_spec(),
            r.wf(),
            self.unit() ==> r.unit(),
    {
        proof {
            let s = self.s as int;
            assert((-s) * (-s) == s * s) by (nonlinear_arith);
        }
        Rot { c: self.c, s: -self.s }
    }

    /// Rotate `v` about the vertical axis. The result is `SCALE` times the
    /// rotated vector, kept exact (no division).
    pub fn apply(self, v: V3) -> (r: V3)
        requires
            self.wf(),
            in_bounds(v, ROT_IN_LIMIT as int),
        ensures
            r.x == rot_x(self.c as int, self.s as int, v.x as int, v.z as int),
            r.y == SCALE * v.y,
            r.z == rot_z(self.c as int, self.s as int, v.x as int, v.z as int),
            in_bounds(r, 2 * SCALE * ROT_IN_LIMIT),
    {
        proof {
            lemma_rot_bound(self.c as int, self.s as int, v.x as int, v.z as int);
        }
        let x: i64 = self.c * v.x + self.s * v.z;
        let y: i64 = SCALE * v.y;
        let z: i64 = (-self.s) * v.x + self.c * v.z;
        V3 { x, y, z }
    }
}

/// Rotation round trip: rotating coordinates by an angle and then by its
/// opposite returns the originals, scaled by the square norm of the pair;
/// for a unit pair that norm is exactly `SCALE * SCALE`, the factor the two
/// exact applications introduce. The vertical coordinate is multiplied by
/// the same factor on the way, so the whole vector comes back unchanged.
pub proof fn lemma_rotation_round_trip(c: int, s: int, x: int, z: int)
    ensures
        rot_x(c, -s, rot_x(c, s, x, z), rot_z(c, s, x, z)) == (c * c + s * s) * x,
        rot_z(c, -s, rot_x(c, s, x, z), rot_z(c, s, x, z)) == (c * c + s * s) * z,
        c * c + s * s == SCALE * SCALE ==> rot_x(c, -s, rot_x(c, s, x, z), rot_z(c, s, x, z))
            == SCALE * SCALE * x,
        c * c + s * s == SCALE * SCALE ==> rot_z(c, -s, rot_x(c, s, x, z), rot_z(c, s, x, z))
            == SCALE * SCALE * z,
{
    assert(c * (c * x + s * z) + (-s) * (-s * x + c * z) == (c * c + s * s) * x)
        by (nonlinear_arith);
    assert(-(-s) * (c * x + s * z) + c * (-s * x + c * z) == (c * c + s * s) * z)
        by (nonlinear_arith);
    if c * c + s * s == SCALE * SCALE {
        assert((c * c + s * s) * x == SCALE * SCALE * x) by (nonlinear_arith)
            requires c * c + s * s == SCALE * SCALE;
        assert((c * c + s * s) * z == SCALE * SCALE * z) by (nonlinear_arith)
            requires c * c + s * s == SCALE * SCALE;
    }
}

/// Rotated coordinates of a bounded vector stay bounded: each is a sum of
/// two products of a scaled trigonometric entry and a coordinate.
pub proof fn lemma_rot_bound(c: int, s: int, x: int, z: int)
    requires
        -SCALE <= c <= SCALE,
        -SCALE <= s <= SCALE,
        -ROT_IN_LIMIT <= x <= ROT_IN_LIMIT,
        -ROT_IN_LIMIT <= z <= ROT_IN_LIMIT,
    ensures
        -2 * SCALE * ROT_IN_LIMIT <= rot_x(c, s, x, z) <= 2 * SCALE * ROT_IN_LIMIT,
        -2 * SCALE * ROT_IN_LIMIT <= rot_z(c, s, x, z) <= 2 * SCALE * ROT_IN_LIMIT,
        -SCALE * ROT_IN_LIMIT <= c * x <= SCALE * ROT_IN_LIMIT,
        -SCALE * ROT_IN_LIMIT <= s * z <= SCALE * ROT_IN_LIMIT,
        -SCALE * ROT_IN_LIMIT <= -s * x <= SCALE * ROT_IN_LIMIT,
        -SCALE * ROT_IN_LIMIT <= c * z <= SCALE * ROT_IN_LIMIT,
{
    assert(-SCALE * ROT_IN_LIMIT <= c * x <= SCALE * ROT_IN_LIMIT) by (nonlinear_arith)
        requires -SCALE <= c <= SCALE, -ROT_IN_LIMIT <= x <= ROT_IN_LIMIT;
    assert(-SCALE * ROT_IN_LIMIT <= s * z <= SCALE * ROT_IN_LIMIT) by (nonlinear_arith)
        requires -SCALE <= s <= SCALE, -ROT_IN_LIMIT <= z <= ROT_IN_LIMIT;
    assert(-SCALE * ROT_IN_LIMIT <= -s * x <= SCALE * ROT_IN_LIMIT) by (nonlinear_arith)
        requires -SCALE <= s <= SCALE, -ROT_IN_LIMIT <= x <= ROT_IN_LIMIT;
    assert(-SCALE * ROT_IN_LIMIT <= c * z <= SCALE * ROT_IN_LIMIT) by (nonlinear_arith)
        requires -SCALE <= c <= SCALE, -ROT_IN_LIMIT <= z <= ROT_IN_LIMIT;
}

} // verus!
