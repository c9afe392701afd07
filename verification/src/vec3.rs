//! Fixed-point 3-vectors (world X, vertical Y, world Z).

use vstd::prelude::*;
use crate::fixed::{div_trunc, div_trunc_i64, SCALE};

verus! {

/// A point, direction, velocity or force in raw fixed-point units.
#[derive(Clone, Copy, PartialEq, Eq, Structural, Debug)]
pub struct V3 {
    pub x: i64,
    pub y: i64,
    pub z: i64,
}

/// Squared Euclidean length, exact.
pub open spec fn mag_sq(v: V3) -> int {
    v.x * v.x + v.y * v.y + v.z * v.z
}

/// Every component within `[-m, m]`.
pub open spec fn in_bounds(v: V3, m: int) -> bool {
    &&& -m <= v.x <= m
    &&& -m <= v.y <= m
    &&& -m <= v.z <= m
}

/// First-order interpolation of one coordinate: `a + (b - a) * f / SCALE`,
/// with the product kept exact and one truncating division at the end.
pub open spec fn lerp_coord_spec(a: int, b: int, f: int) -> int {
    a + div_trunc((b - a) * f, SCALE as int)
}

/// `r` lies (inclusively) between `a` and `b`.
pub open spec fn between_coord(a: int, r: int, b: int) -> bool {
    &&& a <= b ==> a <= r <= b
    &&& b <= a ==> b <= r <= a
}

pub open spec fn between(a: V3, r: V3, b: V3) -> bool {
    &&& between_coord(a.x as int, r.x as int, b.x as int)
    &&& between_coord(a.y as int, r.y as int, b.y as int)
    &&& between_coord(a.z as int, r.z as int, b.z as int)
}

pub open spec fn lerp_spec(a: V3, b: V3, f: int) -> V3 {
    V3 {
        x: lerp_coord_spec(a.x as int, b.x as int, f) as i64,
        y: lerp_coord_spec(a.y as int, b.y as int, f) as i64,
        z: lerp_coord_spec(a.z as int, b.z as int, f) as i64,
    }
}

impl V3 {
    pub fn new(x: i64, y: i64, z: i64) -> (r: V3)
        ensures
            r == (V3 { x, y, z }),
    {
        V3 { x, y, z }
    }
}

/// Largest coordinate magnitude `lerp` accepts: the scaled difference of two
/// such coordinates still fits an `i64`.
pub const LERP_LIMIT: i64 = 8_000_000_000;

/// Interpolate `a` toward `b` by the fraction `f / SCALE`. At `f == 0` the
/// result is exactly `a`; at `f == SCALE` it is exactly `b` (the division by
/// `SCALE` is then exact), which is what pins both ends of the chase camera.
pub fn lerp(a: V3, b: V3, f: i64) -> (r: V3)
    requires
        0 <= f <= SCALE,
        in_bounds(a, LERP_LIMIT as int),
        in_bounds(b, LERP_LIMIT as int),
    ensures
        r == lerp_spec(a, b, f as int),
        between(a, r, b),
        f == 0 ==> r == a,
        f == SCALE ==> r == b,
{
    proof {
        lemma_lerp_coord_ends(a.x as int, b.x as int);
        lemma_lerp_coord_ends(a.y as int, b.y as int);
        lemma_lerp_coord_ends(a.z as int, b.z as int);
        lemma_lerp_coord_in_range(a.x as int, b.x as int, f as int);
        lemma_lerp_coord_in_range(a.y as int, b.y as int, f as int);
        lemma_lerp_coord_in_range(a.z as int, b.z as int, f as int);
    }
    let x: i64 = lerp_coord(a.x, b.x, f);
    let y: i64 = lerp_coord(a.y, b.y, f);
    let z: i64 = lerp_coord(a.z, b.z, f);
    V3 { x, y, z }
}

fn lerp_coord(a: i64, b: i64, f: i64) -> (r: i64)
    requires
        0 <= f <= SCALE,
        -LERP_LIMIT <= a <= LERP_LIMIT,
        -LERP_LIMIT <= b <= LERP_LIMIT,
    ensures
        r == lerp_coord_spec(a as int, b as int, f as int),
{
    proof {
        lemma_lerp_coord_in_range(a as int, b as int, f as int);
    }
    let diff: i64 = b - a;
    let num: i64 = diff * f;
    let step: i64 = div_trunc_i64(num, SCALE);
    a + step
}

/// The interpolated coordinate lies between `a` and `b`, so it stays in any
/// symmetric range that holds both.
proof fn lemma_lerp_coord_in_range(a: int, b: int, f: int)
    requires
        0 <= f <= SCALE,
    ensures
        a <= b ==> a <= lerp_coord_spec(a, b, f) <= b,
        b <= a ==> b <= lerp_coord_spec(a, b, f) <= a,
        (b - a) * f <= (if b >= a { (b - a) * SCALE } else { 0 }),
        (b - a) * f >= (if b >= a { 0 } else { (b - a) * SCALE }),
{
    let d = b - a;
    assert(d >= 0 ==> 0 <= d * f <= d * SCALE) by (nonlinear_arith)
        requires 0 <= f <= SCALE;
    assert(d < 0 ==> d * SCALE <= d * f <= 0) by (nonlinear_arith)
        requires 0 <= f <= SCALE;
    crate::fixed::lemma_div_trunc_shrinks(d * f, SCALE as int);
    if d >= 0 {
        assert(div_trunc(d * f, SCALE as int) <= d) by {
            vstd::arithmetic::div_mod::lemma_div_is_ordered(d * f, d * SCALE, SCALE as int);
            vstd::arithmetic::div_mod::lemma_div_multiples_vanish(d, SCALE as int);
        }
    } else {
        assert(-(d * f) <= (-d) * SCALE) by (nonlinear_arith)
            requires d < 0, 0 <= f <= SCALE;
        assert((-(d * f)) / (SCALE as int) <= -d) by {
            vstd::arithmetic::div_mod::lemma_div_is_ordered(-(d * f), (-d) * SCALE, SCALE as int);
            vstd::arithmetic::div_mod::lemma_div_multiples_vanish(-d, SCALE as int);
        }
    }
}

/// At the two ends of the factor range the interpolation is exact.
proof fn lemma_lerp_coord_ends(a: int, b: int)
    ensures
        lerp_coord_spec(a, b, 0) == a,
        lerp_coord_spec(a, b, SCALE as int) == b,
{
    let d = b - a;
    assert(d * 0 == 0);
    assert(div_trunc(0, SCALE as int) == 0) by {
        vstd::arithmetic::div_mod::lemma_div_multiples_vanish(0, SCALE as int);
    }
    if d >= 0 {
        assert(div_trunc(d * SCALE, SCALE as int) == d) by {
            vstd::arithmetic::div_mod::lemma_div_multiples_vanish(d, SCALE as int);
        }
    } else {
        assert((-(d * SCALE)) == (-d) * SCALE) by (nonlinear_arith);
        assert(((-d) * SCALE) / (SCALE as int) == -d) by {
            vstd::arithmetic::div_mod::lemma_div_multiples_vanish(-d, SCALE as int);
        }
    }
}

} // verus!
