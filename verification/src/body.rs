//! Controlled bodies: arena slots with pose, velocities, yaw accumulator and
//! the force written for the physics step, plus per-tick damping and
//! off-track recovery.

use vstd::prelude::*;
use crate::fixed::{div_trunc, div_trunc_i64, COORD_LIMIT, SCALE};
use crate::vec3::{in_bounds, mag_sq, V3};

verus! {

/// Largest velocity component magnitude the core accepts from the shell.
pub const VEL_LIMIT: i64 = 1_000_000_000;

/// Largest yaw accumulator magnitude the input translator accepts.
pub const YAW_LIMIT: i64 = 1_000_000_000_000;

/// Numerator of the per-tick linear drag factor (denominator `FRICTION_DEN`).
pub const FRICTION_NUM: i64 = 98;

/// Numerator of the per-tick angular drag factor.
pub const ANGULAR_FRICTION_NUM: i64 = 95;

/// Common denominator of both drag factors.
pub const FRICTION_DEN: i64 = 100;

/// Vertical position below which a body counts as fallen off the track.
pub const OFF_TRACK_Y: i64 = -5 * SCALE;

/// Height at which a recovered body is placed back, above the origin.
pub const RESET_HEIGHT: i64 = 5 * SCALE;

/// A controlled ball. Its slot index is its identity and survives recovery.
/// The yaw accumulator is the authoritative facing: it is never read back
/// from the physics engine, and the body's visual rotation is defined to be
/// exactly the rotation by `yaw`, so no separate rotation field exists.
#[derive(Clone, Copy, PartialEq, Eq, Structural, Debug)]
pub struct Body {
    /// Player slot, stable across recoveries.
    pub id: usize,
    /// World position, raw units.
    pub pos: V3,
    /// Yaw accumulator, raw radians (`SCALE` raw per radian).
    pub yaw: i64,
    /// Linear velocity, raw units per second.
    pub linvel: V3,
    /// Angular velocity, raw radians per second.
    pub angvel: V3,
    /// World-space force written this tick, at scale `SCALE * SCALE`
    /// (the input translator rotates a `SCALE`-scaled local force exactly,
    /// which multiplies it by another `SCALE`).
    pub force: V3,
}

impl Body {
    /// The shell may hand back any pose and velocity within these machine
    /// bounds; everything the camera and damping arithmetic forms from them
    /// then fits an `i64`.
    pub open spec fn wf(self) -> bool {
        &&& in_bounds(self.pos, COORD_LIMIT as int)
        &&& in_bounds(self.linvel, VEL_LIMIT as int)
        &&& in_bounds(self.angvel, VEL_LIMIT as int)
        &&& -YAW_LIMIT <= self.yaw <= YAW_LIMIT
    }
}

/// The pose every recovered body is reset to.
pub fn reset_position() -> (r: V3)
    ensures
        r == (V3 { x: 0i64, y: RESET_HEIGHT, z: 0i64 }),
{
    V3 { x: 0, y: RESET_HEIGHT, z: 0 }
}

/// A freshly created body: given pose, everything else zeroed.
pub fn spawn_ball(id: usize, pos: V3) -> (b: Body)
    ensures
        b.id == id,
        b.pos == pos,
        b.yaw == 0,
        b.linvel == (V3 { x: 0i64, y: 0i64, z: 0i64 }),
        b.angvel == (V3 { x: 0i64, y: 0i64, z: 0i64 }),
        b.force == (V3 { x: 0i64, y: 0i64, z: 0i64 }),
        in_bounds(pos, COORD_LIMIT as int) ==> b.wf(),
{
    Body {
        id,
        pos,
        yaw: 0,
        linvel: V3 { x: 0, y: 0, z: 0 },
        angvel: V3 { x: 0, y: 0, z: 0 },
        force: V3 { x: 0, y: 0, z: 0 },
    }
}

/// The colors of the two player palettes, as sRGB bytes; slots past the
/// palette wrap around, like the key bindings.
pub fn ball_color(id: usize) -> (rgb: (u8, u8, u8))
    ensures
        id % 2 == 0 ==> rgb == (51u8, 204u8, 51u8),
        id % 2 == 1 ==> rgb == (255u8, 51u8, 51u8),
{
    if id % 2 == 0 {
        (51, 204, 51)
    } else {
        (255, 51, 51)
    }
}

/// One damped coordinate: `v` scaled by `num / den`, rounded toward zero.
pub open spec fn damp_coord(v: int, num: int, den: int) -> int {
    div_trunc(v * num, den)
}

/// A damped coordinate keeps its sign, never grows in magnitude, and shrinks
/// strictly whenever it is not already zero.
pub proof fn lemma_damp_coord_shrinks(v: int, num: int, den: int)
    requires
        0 <= num < den,
    ensures
        v > 0 ==> 0 <= damp_coord(v, num, den) < v,
        v == 0 ==> damp_coord(v, num, den) == 0,
        v < 0 ==> v < damp_coord(v, num, den) <= 0,
{
    if v > 0 {
        assert(0 <= v * num < den * v) by (nonlinear_arith)
            requires 0 <= num < den, v > 0;
        vstd::arithmetic::div_mod::lemma_div_pos_is_pos(v * num, den);
        vstd::arithmetic::div_mod::lemma_multiply_divide_lt(v * num, den, v);
    } else if v == 0 {
        assert(v * num == 0);
        vstd::arithmetic::div_mod::lemma_div_multiples_vanish(0, den);
    } else {
        assert(0 <= (-v) * num < den * (-v)) by (nonlinear_arith)
            requires 0 <= num < den, v < 0;
        assert(-(v * num) == (-v) * num) by (nonlinear_arith);
        vstd::arithmetic::div_mod::lemma_div_pos_is_pos((-v) * num, den);
        vstd::arithmetic::div_mod::lemma_multiply_divide_lt((-v) * num, den, -v);
    }
}

/// A vector damped componentwise by `num / den`.
pub open spec fn damp_vec(v: V3, num: int, den: int) -> V3 {
    V3 {
        x: damp_coord(v.x as int, num, den) as i64,
        y: damp_coord(v.y as int, num, den) as i64,
        z: damp_coord(v.z as int, num, den) as i64,
    }
}

/// Damping a vector never increases its squared magnitude, and strictly
/// decreases it while the vector is nonzero: with no input, a body coasts
/// to a stop.
pub proof fn lemma_damp_vec_shrinks(v: V3, num: int, den: int)
    requires
        0 <= num < den,
        in_bounds(v, VEL_LIMIT as int),
    ensures
        in_bounds(damp_vec(v, num, den), VEL_LIMIT as int),
        mag_sq(damp_vec(v, num, den)) <= mag_sq(v),
        v != (V3 { x: 0i64, y: 0i64, z: 0i64 }) ==> mag_sq(damp_vec(v, num, den)) < mag_sq(v),
{
    lemma_damp_coord_shrinks(v.x as int, num, den);
    lemma_damp_coord_shrinks(v.y as int, num, den);
    lemma_damp_coord_shrinks(v.z as int, num, den);
    let d = damp_vec(v, num, den);
    lemma_sq_le(d.x as int, v.x as int);
    lemma_sq_le(d.y as int, v.y as int);
    lemma_sq_le(d.z as int, v.z as int);
}

/// `n` damper passes in a row over one vector.
pub open spec fn damp_vec_iter(v: V3, num: int, den: int, n: nat) -> V3
    decreases n,
{
    if n == 0 {
        v
    } else {
        damp_vec(damp_vec_iter(v, num, den, (n - 1) as nat), num, den)
    }
}

/// Damping convergence over whole tick sequences: across any number of
/// passes the squared speed never rises, and while the vector is nonzero
/// every pass takes at least one raw unit of squared magnitude away, so
/// after at most `mag_sq(v)` passes the velocity is exactly zero. This is
/// the exact-integer form of the geometric decay toward zero: the decay
/// ratio itself is not representable here, the monotone envelope and the
/// vanishing limit are.
pub proof fn lemma_damp_iter_converges(v: V3, num: int, den: int, n: nat)
    requires
        0 <= num < den,
        in_bounds(v, VEL_LIMIT as int),
    ensures
        in_bounds(damp_vec_iter(v, num, den, n), VEL_LIMIT as int),
        mag_sq(damp_vec_iter(v, num, den, n)) <= mag_sq(v),
        damp_vec_iter(v, num, den, n) == (V3 { x: 0i64, y: 0i64, z: 0i64 }) || mag_sq(
            damp_vec_iter(v, num, den, n),
        ) + n <= mag_sq(v),
        n >= mag_sq(v) ==> damp_vec_iter(v, num, den, n) == (V3 { x: 0i64, y: 0i64, z: 0i64 }),
    decreases n,
{
    let zero = V3 { x: 0i64, y: 0i64, z: 0i64 };
    if n == 0 {
        if 0 >= mag_sq(v) {
            assert(v.x == 0 && v.y == 0 && v.z == 0) by (nonlinear_arith)
                requires v.x * v.x + v.y * v.y + v.z * v.z <= 0;
            assert(v == zero);
        }
    } else {
        lemma_damp_iter_converges(v, num, den, (n - 1) as nat);
        let u = damp_vec_iter(v, num, den, (n - 1) as nat);
        lemma_damp_vec_shrinks(u, num, den);
        lemma_damp_coord_shrinks(0, num, den);
        if u == zero {
            assert(damp_vec(u, num, den) == zero);
        }
        if n >= mag_sq(v) {
            let w = damp_vec_iter(v, num, den, n);
            if w != zero {
                assert(mag_sq(w) + n <= mag_sq(v));
                assert(w.x == 0 && w.y == 0 && w.z == 0) by (nonlinear_arith)
                    requires w.x * w.x + w.y * w.y + w.z * w.z <= 0;
                assert(false);
            }
        }
    }
}

/// If `b` lies between zero and `a` (either side), then `b * b <= a * a`,
/// strictly when `|b| < |a|`.
proof fn lemma_sq_le(b: int, a: int)
    requires
        (a >= 0 ==> 0 <= b <= a) && (a < 0 ==> a <= b <= 0),
    ensures
        0 <= b * b <= a * a,
        (a > 0 && b < a) || (a < 0 && b > a) ==> b * b < a * a,
{
    assert(((a >= 0 ==> 0 <= b <= a) && (a < 0 ==> a <= b <= 0)) ==> (0 <= b * b <= a * a
        && ((a > 0 && b < a) || (a < 0 && b > a) ==> b * b < a * a))) by (nonlinear_arith);
}

/// One damped coordinate, executable.
pub fn damp_coord_i64(v: i64, num: i64, den: i64) -> (r: i64)
    requires
        0 <= num < den,
        -VEL_LIMIT <= v <= VEL_LIMIT,
        den * VEL_LIMIT <= i64::MAX,
    ensures
        r == damp_coord(v as int, num as int, den as int),
{
    proof {
        assert(-(den * VEL_LIMIT) <= v * num <= den * VEL_LIMIT) by (nonlinear_arith)
            requires 0 <= num < den, -VEL_LIMIT <= v <= VEL_LIMIT, den >= 1;
    }
    let prod: i64 = v * num;
    div_trunc_i64(prod, den)
}

/// What the momentum damper leaves of a body: linear velocity scaled by
/// `FRICTION_NUM / FRICTION_DEN`, angular velocity by
/// `ANGULAR_FRICTION_NUM / FRICTION_DEN`, everything else untouched.
pub open spec fn friction_body(b: Body) -> Body {
    Body {
        linvel: damp_vec(b.linvel, FRICTION_NUM as int, FRICTION_DEN as int),
        angvel: damp_vec(b.angvel, ANGULAR_FRICTION_NUM as int, FRICTION_DEN as int),
        ..b
    }
}

/// The momentum damper, per body, every tick, independent of any contact
/// friction the physics engine applies.
pub fn apply_friction_body(b: Body) -> (r: Body)
    requires
        b.wf(),
    ensures
        r == friction_body(b),
        r.wf(),
    {
    proof {
        lemma_damp_vec_shrinks(b.linvel, FRICTION_NUM as int, FRICTION_DEN as int);
        lemma_damp_vec_shrinks(b.angvel, ANGULAR_FRICTION_NUM as int, FRICTION_DEN as int);
    }
    let linvel = V3 {
        x: damp_coord_i64(b.linvel.x, FRICTION_NUM, FRICTION_DEN),
        y: damp_coord_i64(b.linvel.y, FRICTION_NUM, FRICTION_DEN),
        z: damp_coord_i64(b.linvel.z, FRICTION_NUM, FRICTION_DEN),
    };
    let angvel = V3 {
        x: damp_coord_i64(b.angvel.x, ANGULAR_FRICTION_NUM, FRICTION_DEN),
        y: damp_coord_i64(b.angvel.y, ANGULAR_FRICTION_NUM, FRICTION_DEN),
        z: damp_coord_i64(b.angvel.z, ANGULAR_FRICTION_NUM, FRICTION_DEN),
    };
    Body { linvel, angvel, ..b }
}

/// What recovery leaves of a body: untouched while on the track; reset in
/// place (same slot) to the reset pose with zero yaw, velocities and force
/// once its vertical position is below `OFF_TRACK_Y`.
pub open spec fn recover_body(b: Body) -> Body {
    if b.pos.y < OFF_TRACK_Y {
        Body {
            id: b.id,
            pos: V3 { x: 0i64, y: RESET_HEIGHT, z: 0i64 },
            yaw: 0,
            linvel: V3 { x: 0i64, y: 0i64, z: 0i64 },
            angvel: V3 { x: 0i64, y: 0i64, z: 0i64 },
            force: V3 { x: 0i64, y: 0i64, z: 0i64 },
        }
    } else {
        b
    }
}

/// The recovery supervisor, per body. Destruction and recreation appear
/// atomic: the slot is reset in place, so the identity survives and there is
/// no tick in which the body is missing.
pub fn respawn_if_off_track(b: Body) -> (r: Body)
    requires
        b.wf(),
    ensures
        r == recover_body(b),
        r.wf(),
        r.id == b.id,
{
    if b.pos.y < OFF_TRACK_Y {
        spawn_ball(b.id, reset_position())
    } else {
        b
    }
}

} // verus!
