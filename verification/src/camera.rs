//! Camera rigs: the smoothed chase camera, the orbit/mirror camera, and the
//! two-state switch that selects between them.
//!
//! A rig's orientation is carried as an unnormalized facing direction
//! (`look`), with the vertical axis as the implied up vector; the shell turns
//! the pair (position, facing) into its rotation representation. Looking at
//! the tracked ball is then exact integer subtraction, and smoothing the
//! orientation is the same interpolation as smoothing the position.

use vstd::prelude::*;
use crate::body::Body;
use crate::fixed::{div_trunc, div_trunc_i64, isqrt_u64, sqrt_floor, COORD_LIMIT, SCALE};
use crate::rot::{rot_x, rot_z, Rot};
use crate::vec3::{between, in_bounds, lerp, lerp_spec, V3};

verus! {

/// How far behind the tracked ball the chase camera aims, raw.
pub const CHASE_BACK_DIST: i64 = 12 * SCALE;

/// How far above the tracked ball the chase camera aims, raw.
pub const CHASE_HEIGHT: i64 = 8 * SCALE;

/// Smoothing time constant of the chase camera, raw seconds (half a second).
pub const SMOOTH_TIME: i64 = 500;

/// Horizontal distance the orbit camera keeps from the tracked ball, raw.
pub const FOLLOW_DIST: i64 = 12 * SCALE;

/// Height of the orbit camera above the tracked ball, raw.
pub const ORBIT_HEIGHT: i64 = 4 * SCALE;

/// Squared horizontal distance below which the orbit direction counts as
/// degenerate (the camera stands on the vertical line through the ball) and
/// the fixed fallback offset `ORBIT_FALLBACK_Z` is used.
pub const DEGENERATE_EPS_SQ: i64 = 1;

/// The fallback offset for the degenerate case: one world unit toward
/// positive Z. The direction is an arbitrary design choice, so it stands as
/// its own constant rather than inlined in the formulas.
pub const ORBIT_FALLBACK_Z: i64 = SCALE;

/// Largest horizontal offset component that is normalized at the finer
/// `SCALE`: scaling the offset by `SCALE` before taking the floor root
/// keeps the rounding residue of the normalization below a thousandth even
/// for offsets well under one world unit. Scaled squares of offsets within
/// this limit still fit an `i64`; beyond it the offset is normalized as it
/// is, where its own length already makes the residue just as small.
pub const ORBIT_FINE_LIMIT: i64 = 2_000_000;

/// How far below `FOLLOW_DIST * FOLLOW_DIST` the squared horizontal
/// distance of the placed orbit camera can fall: `4 * FOLLOW_DIST`.
pub const ORBIT_DIST_SQ_UNDER: i64 = 48_000;

/// How far above `FOLLOW_DIST * FOLLOW_DIST` it can land:
/// `2 * FOLLOW_DIST * FOLLOW_DIST / SCALE + 2`.
pub const ORBIT_DIST_SQ_OVER: i64 = 288_002;

/// Largest camera coordinate magnitude: a tracked position within
/// `COORD_LIMIT` plus every fixed rig offset stays inside it.
pub const CAM_LIMIT: i64 = COORD_LIMIT + 100 * SCALE;

/// Largest facing-direction component magnitude.
pub const LOOK_LIMIT: i64 = 4_000_000_000;

/// The screen region a camera draws to, in physical pixels.
#[derive(Clone, Copy, PartialEq, Eq, Structural, Debug)]
pub struct ScreenRegion {
    pub x: u32,
    pub y: u32,
    pub width: u32,
    pub height: u32,
}

/// Which follow behavior the active cameras run this tick.
#[derive(Clone, Copy, PartialEq, Eq, Structural, Debug)]
pub enum CameraState {
    /// The smoothed chase camera.
    Camera1,
    /// The orbit/mirror camera.
    Camera2,
}

impl Default for CameraState {
    /// The switch starts on the chase camera.
    fn default() -> (r: CameraState)
        ensures
            r == CameraState::Camera1,
    {
        CameraState::Camera1
    }
}

/// The mode switch: a distinct key edge selects the corresponding state; no
/// edge leaves the state as it was. When both edges arrive in one tick the
/// later selection wins, as with two writes in a row.
pub open spec fn next_camera_state(state: CameraState, just1: bool, just2: bool) -> CameraState {
    if just2 {
        CameraState::Camera2
    } else if just1 {
        CameraState::Camera1
    } else {
        state
    }
}

pub fn camera_state_input(state: CameraState, just1: bool, just2: bool) -> (r: CameraState)
    ensures
        r == next_camera_state(state, just1, just2),
{
    if just2 {
        CameraState::Camera2
    } else if just1 {
        CameraState::Camera1
    } else {
        state
    }
}

/// One camera, paired with the controlled body of the same slot index.
#[derive(Clone, Copy, PartialEq, Eq, Structural, Debug)]
pub struct CameraRig {
    /// Camera slot, pairing the rig with the body of the same index.
    pub id: usize,
    /// World position, raw units.
    pub pos: V3,
    /// Facing direction (unnormalized), up is the vertical axis.
    pub look: V3,
    /// Assigned draw region.
    pub region: ScreenRegion,
}

impl CameraRig {
    pub open spec fn wf(self) -> bool {
        &&& in_bounds(self.pos, CAM_LIMIT as int)
        &&& in_bounds(self.look, LOOK_LIMIT as int)
    }
}

/// The point the chase camera steers toward: the tracked position, pushed
/// `CHASE_BACK_DIST` along the body's facing (the rotation of local positive
/// Z by the yaw heading) and raised by `CHASE_HEIGHT`.
pub open spec fn chase_target(ball: Body, heading: Rot) -> V3 {
    V3 {
        x: (ball.pos.x + div_trunc(
            rot_x(heading.c as int, heading.s as int, 0, CHASE_BACK_DIST as int),
            SCALE as int,
        )) as i64,
        y: (ball.pos.y + CHASE_HEIGHT) as i64,
        z: (ball.pos.z + div_trunc(
            rot_z(heading.c as int, heading.s as int, 0, CHASE_BACK_DIST as int),
            SCALE as int,
        )) as i64,
    }
}

/// The interpolation factor for one tick: `dt / SMOOTH_TIME` of the way to
/// the target, saturated at one (`SCALE`). A zero tick moves nothing; a tick
/// of `SMOOTH_TIME` or longer lands exactly on the target.
pub open spec fn lerp_factor(dt: int) -> int {
    let f = div_trunc(dt * SCALE, SMOOTH_TIME as int);
    if f > SCALE {
        SCALE as int
    } else {
        f
    }
}

/// Everything the chase camera changes in one tick: position interpolated
/// toward the target, facing interpolated toward the ball as seen from the
/// new position.
pub open spec fn chase_spec(cam: CameraRig, ball: Body, heading: Rot, dt: int) -> CameraRig {
    let f = lerp_factor(dt);
    let pos = lerp_spec(cam.pos, chase_target(ball, heading), f);
    let dir = V3 {
        x: (ball.pos.x - pos.x) as i64,
        y: (ball.pos.y - pos.y) as i64,
        z: (ball.pos.z - pos.z) as i64,
    };
    CameraRig { pos, look: lerp_spec(cam.look, dir, f), ..cam }
}

fn lerp_factor_exec(dt: i64) -> (f: i64)
    requires
        0 <= dt,
        dt * SCALE <= i64::MAX,
    ensures
        f == lerp_factor(dt as int),
        0 <= f <= SCALE,
        dt == 0 ==> f == 0,
        dt >= SMOOTH_TIME ==> f == SCALE,
{
    proof {
        crate::fixed::lemma_div_trunc_shrinks(dt * SCALE, SMOOTH_TIME as int);
        if dt >= SMOOTH_TIME {
            assert(SMOOTH_TIME * SCALE <= dt * SCALE) by (nonlinear_arith)
                requires SMOOTH_TIME <= dt, SCALE > 0;
            vstd::arithmetic::div_mod::lemma_div_is_ordered(
                SMOOTH_TIME * SCALE,
                dt * SCALE,
                SMOOTH_TIME as int,
            );
            vstd::arithmetic::div_mod::lemma_div_multiples_vanish(
                SCALE as int,
                SMOOTH_TIME as int,
            );
        }
    }
    let raw: i64 = div_trunc_i64(dt * SCALE, SMOOTH_TIME);
    if raw > SCALE {
        SCALE
    } else {
        raw
    }
}

/// One tick of the smoothed chase camera (first follow mode): steer toward
/// behind-and-above the tracked body, exponentially smoothed. At `dt == 0`
/// the pose does not move at all; from `dt >= SMOOTH_TIME` on, the factor
/// saturates and the pose lands exactly on the target, looking exactly at
/// the tracked position.
pub fn move_camera_chase(cam: CameraRig, ball: &Body, heading: Rot, dt: i64) -> (r: CameraRig)
    requires
        cam.wf(),
        ball.wf(),
        heading.wf(),
        0 <= dt <= crate::input::DT_LIMIT,
    ensures
        r == chase_spec(cam, *ball, heading, dt as int),
        r.wf(),
        r.id == cam.id,
        r.region == cam.region,
        dt == 0 ==> r.pos == cam.pos && r.look == cam.look,
        dt >= SMOOTH_TIME ==> r.pos == chase_target(*ball, heading) && r.look == (V3 {
            x: (ball.pos.x - chase_target(*ball, heading).x) as i64,
            y: (ball.pos.y - chase_target(*ball, heading).y) as i64,
            z: (ball.pos.z - chase_target(*ball, heading).z) as i64,
        }),
{
    let f = lerp_factor_exec(dt);
    let target = chase_target_exec(ball, heading);
    let pos = lerp(cam.pos, target, f);
    let dir = V3 { x: ball.pos.x - pos.x, y: ball.pos.y - pos.y, z: ball.pos.z - pos.z };
    let look = lerp(cam.look, dir, f);
    CameraRig { pos, look, ..cam }
}

fn chase_target_exec(ball: &Body, heading: Rot) -> (t: V3)
    requires
        ball.wf(),
        heading.wf(),
    ensures
        t == chase_target(*ball, heading),
        in_bounds(t, COORD_LIMIT + 13 * SCALE),
{
    proof {
        crate::rot::lemma_rot_bound(heading.c as int, heading.s as int, 0, CHASE_BACK_DIST as int);
        crate::fixed::lemma_div_trunc_shrinks(
            rot_x(heading.c as int, heading.s as int, 0, CHASE_BACK_DIST as int),
            SCALE as int,
        );
        crate::fixed::lemma_div_trunc_shrinks(
            rot_z(heading.c as int, heading.s as int, 0, CHASE_BACK_DIST as int),
            SCALE as int,
        );
        lemma_back_offset_bound(heading);
    }
    let back = heading.apply(V3 { x: 0, y: 0, z: CHASE_BACK_DIST });
    let bx = div_trunc_i64(back.x, SCALE);
    let bz = div_trunc_i64(back.z, SCALE);
    V3 { x: ball.pos.x + bx, y: ball.pos.y + CHASE_HEIGHT, z: ball.pos.z + bz }
}

/// The horizontal direction the orbit camera keeps, from the tracked
/// position toward the camera: the X part.
pub open spec fn orbit_dir_x(cam: CameraRig, ball: Body) -> int {
    cam.pos.x - ball.pos.x
}

/// The Z part, with the degenerate case substituted: a camera standing on
/// the vertical line through the ball has no horizontal direction, so the
/// fixed fallback offset `ORBIT_FALLBACK_Z` stands in.
pub open spec fn orbit_dir_z(cam: CameraRig, ball: Body) -> int {
    let dx = cam.pos.x - ball.pos.x;
    let dz = cam.pos.z - ball.pos.z;
    if dx * dx + dz * dz < DEGENERATE_EPS_SQ {
        dz + ORBIT_FALLBACK_Z
    } else {
        dz
    }
}

/// The scale at which the preserved direction is normalized: small offsets
/// are refined by `SCALE` first, large ones are already fine enough.
pub open spec fn orbit_norm_factor(dx: int, dz: int) -> int {
    if -ORBIT_FINE_LIMIT <= dx <= ORBIT_FINE_LIMIT && -ORBIT_FINE_LIMIT <= dz
        <= ORBIT_FINE_LIMIT {
        SCALE as int
    } else {
        1
    }
}

/// Everything the orbit camera changes in one tick: the camera is placed at
/// the tracked position pushed `FOLLOW_DIST` along the preserved horizontal
/// direction (normalized by the floor length of the refined offset) and
/// `ORBIT_HEIGHT` up, facing straight at the tracked position. No
/// smoothing: the pose snaps.
pub open spec fn orbit_spec(cam: CameraRig, ball: Body) -> CameraRig {
    let dx = orbit_dir_x(cam, ball);
    let dz = orbit_dir_z(cam, ball);
    let m = orbit_norm_factor(dx, dz);
    let sx = dx * m;
    let sz = dz * m;
    let l = sqrt_floor((sx * sx + sz * sz) as nat) as int;
    let nx = div_trunc(sx * FOLLOW_DIST, l);
    let nz = div_trunc(sz * FOLLOW_DIST, l);
    CameraRig {
        pos: V3 {
            x: (ball.pos.x + nx) as i64,
            y: (ball.pos.y + ORBIT_HEIGHT) as i64,
            z: (ball.pos.z + nz) as i64,
        },
        look: V3 { x: (-nx) as i64, y: (-ORBIT_HEIGHT) as i64, z: (-nz) as i64 },
        ..cam
    }
}

/// One tick of the orbit/mirror camera (second follow mode). In the
/// degenerate case the fallback direction is exactly `ORBIT_FALLBACK_Z`, so
/// the camera lands exactly `FOLLOW_DIST` behind the ball on the Z axis:
/// never a zero-length facing. On every admitted input the new squared
/// horizontal distance from the tracked position stays within the stated
/// residue band around `FOLLOW_DIST * FOLLOW_DIST` (about 0.03% under to
/// 0.2% over), and each horizontal offset component keeps the sign of the
/// preserved direction: the camera stays on its side of the ball.
pub fn move_camera_orbit(cam: CameraRig, ball: &Body) -> (r: CameraRig)
    requires
        cam.wf(),
        ball.wf(),
    ensures
        r == orbit_spec(cam, *ball),
        r.wf(),
        r.id == cam.id,
        r.region == cam.region,
        r.look != (V3 { x: 0i64, y: 0i64, z: 0i64 }),
        FOLLOW_DIST * FOLLOW_DIST - ORBIT_DIST_SQ_UNDER <= (r.pos.x - ball.pos.x) * (r.pos.x
            - ball.pos.x) + (r.pos.z - ball.pos.z) * (r.pos.z - ball.pos.z) <= FOLLOW_DIST
            * FOLLOW_DIST + ORBIT_DIST_SQ_OVER,
        orbit_dir_x(cam, *ball) >= 0 ==> r.pos.x >= ball.pos.x,
        orbit_dir_x(cam, *ball) <= 0 ==> r.pos.x <= ball.pos.x,
        orbit_dir_z(cam, *ball) >= 0 ==> r.pos.z >= ball.pos.z,
        orbit_dir_z(cam, *ball) <= 0 ==> r.pos.z <= ball.pos.z,
        ({
            let dx = orbit_dir_x(cam, *ball);
            let dz = orbit_dir_z(cam, *ball);
            let ox = r.pos.x - ball.pos.x;
            let oz = r.pos.z - ball.pos.z;
            let md = (if dx >= 0 { dx } else { -dx }) + (if dz >= 0 { dz } else { -dz });
            -md <= ox * dz - oz * dx <= md
        }),
        ({
            let dx = cam.pos.x - ball.pos.x;
            let dz = cam.pos.z - ball.pos.z;
            dx * dx + dz * dz < DEGENERATE_EPS_SQ
        }) ==> r.pos == (V3 {
            x: ball.pos.x,
            y: (ball.pos.y + ORBIT_HEIGHT) as i64,
            z: (ball.pos.z + FOLLOW_DIST) as i64,
        }) && r.look == (V3 { x: 0i64, y: (-ORBIT_HEIGHT) as i64, z: (-FOLLOW_DIST) as i64 }),
{
    let dx: i64 = cam.pos.x - ball.pos.x;
    let dz0: i64 = cam.pos.z - ball.pos.z;
    proof {
        lemma_sq_bounds(dx as int, dz0 as int);
    }
    let d0: i64 = dx * dx + dz0 * dz0;
    let dz: i64 = if d0 < DEGENERATE_EPS_SQ {
        dz0 + ORBIT_FALLBACK_Z
    } else {
        dz0
    };
    proof {
        lemma_sq_bounds(dx as int, dz as int);
        if d0 < DEGENERATE_EPS_SQ {
            assert(dx == 0 && dz0 == 0) by (nonlinear_arith)
                requires dx * dx + dz0 * dz0 < 1;
        }
        assert(dx * dx + dz * dz >= 1) by (nonlinear_arith)
            requires
                (dx == 0 && dz == ORBIT_FALLBACK_Z && ORBIT_FALLBACK_Z == 1000) || dx * dx + dz
                    * dz >= 1;
    }
    let fine: bool = -ORBIT_FINE_LIMIT <= dx && dx <= ORBIT_FINE_LIMIT && -ORBIT_FINE_LIMIT <= dz
        && dz <= ORBIT_FINE_LIMIT;
    let m: i64 = if fine {
        SCALE
    } else {
        1
    };
    proof {
        assert(m == orbit_norm_factor(dx as int, dz as int));
        assert(-2_000_400_000 <= dx * m <= 2_000_400_000 && -2_000_400_000 <= dz * m
            <= 2_000_400_000) by (nonlinear_arith)
            requires
                (m == 1000 && -2_000_000 <= dx <= 2_000_000 && -2_000_000 <= dz <= 2_000_000) || (
                m == 1 && -2_000_400_000 <= dx <= 2_000_400_000 && -2_000_400_000 <= dz
                    <= 2_000_400_000);
    }
    let sx: i64 = dx * m;
    let sz: i64 = dz * m;
    proof {
        lemma_sq_bounds(sx as int, sz as int);
    }
    let d2: i64 = sx * sx + sz * sz;
    proof {
        assert(d2 >= 1_000_000) by (nonlinear_arith)
            requires
                d2 == sx * sx + sz * sz,
                sx == dx * m,
                sz == dz * m,
                dx * dx + dz * dz >= 1,
                m == 1000 || (m == 1 && (dx < -2_000_000 || dx > 2_000_000 || dz < -2_000_000
                    || dz > 2_000_000));
    }
    let root: u64 = isqrt_u64(d2 as u64);
    let l: i64 = root as i64;
    proof {
        let li = l as int;
        assert(li == root as int);
        assert(d2 as u64 == d2 as int);
        assert(li >= SCALE) by (nonlinear_arith)
            requires d2 >= 1_000_000, d2 < (li + 1) * (li + 1), li >= 0, SCALE == 1000;
        assert(li * li <= d2);
        assert(-li <= sx <= li && -li <= sz <= li) by (nonlinear_arith)
            requires
                d2 < (li + 1) * (li + 1),
                li >= 1,
                d2 == sx * sx + sz * sz;
        assert(-24_004_800_000_000i64 <= sx * FOLLOW_DIST <= 24_004_800_000_000i64)
            by (nonlinear_arith)
            requires -2_000_400_000 <= sx <= 2_000_400_000, FOLLOW_DIST == 12000;
        assert(-24_004_800_000_000i64 <= sz * FOLLOW_DIST <= 24_004_800_000_000i64)
            by (nonlinear_arith)
            requires -2_000_400_000 <= sz <= 2_000_400_000, FOLLOW_DIST == 12000;
        crate::fixed::lemma_div_trunc_linear_bound(sx as int, FOLLOW_DIST as int, li);
        crate::fixed::lemma_div_trunc_linear_bound(sz as int, FOLLOW_DIST as int, li);
        lemma_orbit_distance_band(sx as int, sz as int, li);
        assert((dx >= 0 ==> sx >= 0) && (dx <= 0 ==> sx <= 0)) by (nonlinear_arith)
            requires sx == dx * m, m >= 1;
        assert((dz >= 0 ==> sz >= 0) && (dz <= 0 ==> sz <= 0)) by (nonlinear_arith)
            requires sz == dz * m, m >= 1;
        assert(sx >= 0 ==> sx * FOLLOW_DIST >= 0) by (nonlinear_arith)
            requires FOLLOW_DIST > 0;
        assert(sx <= 0 ==> sx * FOLLOW_DIST <= 0) by (nonlinear_arith)
            requires FOLLOW_DIST > 0;
        assert(sz >= 0 ==> sz * FOLLOW_DIST >= 0) by (nonlinear_arith)
            requires FOLLOW_DIST > 0;
        assert(sz <= 0 ==> sz * FOLLOW_DIST <= 0) by (nonlinear_arith)
            requires FOLLOW_DIST > 0;
        crate::fixed::lemma_div_trunc_shrinks(sx * FOLLOW_DIST, li);
        crate::fixed::lemma_div_trunc_shrinks(sz * FOLLOW_DIST, li);
        if d0 < DEGENERATE_EPS_SQ {
            assert(sx == 0 && sz == 1_000_000) by (nonlinear_arith)
                requires
                    dx == 0,
                    dz == 1000,
                    m == 1000,
                    sx == dx * m,
                    sz == dz * m;
            assert(d2 == 1_000_000_000_000) by (nonlinear_arith)
                requires sx == 0, sz == 1_000_000, d2 == sx * sx + sz * sz;
            lemma_orbit_degenerate(li);
        }
    }
    let nx: i64 = div_trunc_i64(sx * FOLLOW_DIST, l);
    let nz: i64 = div_trunc_i64(sz * FOLLOW_DIST, l);
    proof {
        let li = l as int;
        lemma_orbit_direction_residue(sx as int, sz as int, li);
        let msum = (if sx as int >= 0 { sx as int } else { -(sx as int) }) + (if sz as int >= 0 {
            sz as int
        } else {
            -(sz as int)
        });
        let mdsum = (if dx as int >= 0 { dx as int } else { -(dx as int) }) + (if dz as int >= 0 {
            dz as int
        } else {
            -(dz as int)
        });
        assert(nx * sz - nz * sx == m * (nx * dz - nz * dx)) by (nonlinear_arith)
            requires sx == dx * m, sz == dz * m;
        assert(msum == m * mdsum) by (nonlinear_arith)
            requires
                sx == dx * m,
                sz == dz * m,
                m >= 1,
                msum == (if sx >= 0 { sx as int } else { -(sx as int) }) + (if sz >= 0 {
                    sz as int
                } else {
                    -(sz as int)
                }),
                mdsum == (if dx >= 0 { dx as int } else { -(dx as int) }) + (if dz >= 0 {
                    dz as int
                } else {
                    -(dz as int)
                });
        assert(-mdsum <= nx * dz - nz * dx <= mdsum) by (nonlinear_arith)
            requires
                -(m * mdsum) <= m * (nx * dz - nz * dx) <= m * mdsum,
                m >= 1,
                mdsum >= 0;
    }
    let pos = V3 { x: ball.pos.x + nx, y: ball.pos.y + ORBIT_HEIGHT, z: ball.pos.z + nz };
    let look = V3 { x: -nx, y: -ORBIT_HEIGHT, z: -nz };
    CameraRig { pos, look, ..cam }
}

/// Squares of in-range horizontal offsets, and their sums, fit an `i64`.
proof fn lemma_sq_bounds(dx: int, dz: int)
    requires
        -2_000_400_000 <= dx <= 2_000_400_000,
        -2_000_400_000 <= dz <= 2_000_400_000,
    ensures
        0 <= dx * dx <= 4_001_600_160_000_000_000,
        0 <= dz * dz <= 4_001_600_160_000_000_000,
        0 <= dx * dx + dz * dz <= 8_003_200_320_000_000_000,
{
    assert(0 <= dx * dx <= 4_001_600_160_000_000_000) by (nonlinear_arith)
        requires -2_000_400_000 <= dx <= 2_000_400_000;
    assert(0 <= dz * dz <= 4_001_600_160_000_000_000) by (nonlinear_arith)
        requires -2_000_400_000 <= dz <= 2_000_400_000;
}

/// In the degenerate case the refined direction is exactly
/// `(0, SCALE * ORBIT_FALLBACK_Z)`, whose floor length is exact, and the
/// normalized offsets divide exactly.
proof fn lemma_orbit_degenerate(l: int)
    requires
        l == sqrt_floor(1_000_000_000_000nat) as int,
    ensures
        l == 1_000_000,
        div_trunc(0 * FOLLOW_DIST, l) == 0,
        div_trunc(1_000_000 * FOLLOW_DIST, l) == FOLLOW_DIST,
{
    assert(1_000_000nat * 1_000_000nat <= 1_000_000_000_000nat && 1_000_000_000_000nat < (
    1_000_000nat + 1) * (1_000_000nat + 1)) by (nonlinear_arith);
    crate::fixed::lemma_sqrt_floor_unique(1_000_000_000_000nat, 1_000_000nat);
    assert(l == 1_000_000);
    assert(div_trunc(0 * FOLLOW_DIST, l) == 0) by {
        vstd::arithmetic::div_mod::lemma_div_multiples_vanish(0, l);
    }
    assert(div_trunc(1_000_000 * FOLLOW_DIST, l) == FOLLOW_DIST) by {
        assert(1_000_000 * FOLLOW_DIST == 12_000_000_000);
        vstd::arithmetic::div_mod::lemma_div_multiples_vanish(FOLLOW_DIST as int, 1_000_000);
    }
}

/// Follow-distance residue band: normalizing a direction whose refined
/// floor length `l` is at least `SCALE` moves the camera to a squared
/// horizontal distance within `[-ORBIT_DIST_SQ_UNDER, +ORBIT_DIST_SQ_OVER]`
/// of `FOLLOW_DIST * FOLLOW_DIST`: truncation costs at most `4 * FOLLOW_DIST`
/// downward, and the floor root underestimating the length gains at most
/// `2 * FOLLOW_DIST * FOLLOW_DIST / l + 2` upward.
#[verifier::rlimit(50)]
proof fn lemma_orbit_distance_band(sx: int, sz: int, l: int)
    requires
        SCALE <= l,
        -l <= sx <= l,
        -l <= sz <= l,
        l * l <= sx * sx + sz * sz,
        sx * sx + sz * sz < (l + 1) * (l + 1),
    ensures
        FOLLOW_DIST * FOLLOW_DIST - ORBIT_DIST_SQ_UNDER <= div_trunc(sx * FOLLOW_DIST, l)
            * div_trunc(sx * FOLLOW_DIST, l) + div_trunc(sz * FOLLOW_DIST, l) * div_trunc(
            sz * FOLLOW_DIST,
            l,
        ) <= FOLLOW_DIST * FOLLOW_DIST + ORBIT_DIST_SQ_OVER,
{
    let f = FOLLOW_DIST as int;
    let mx = if sx >= 0 { sx } else { -sx };
    let mz = if sz >= 0 { sz } else { -sz };
    lemma_quot_sq(sx, l);
    lemma_quot_sq(sz, l);
    let qx = (mx * f) / l;
    let qz = (mz * f) / l;
    let rx = (mx * f) % l;
    let rz = (mz * f) % l;
    vstd::arithmetic::div_mod::lemma_fundamental_div_mod(mx * f, l);
    vstd::arithmetic::div_mod::lemma_fundamental_div_mod(mz * f, l);
    vstd::arithmetic::div_mod::lemma_mod_bound(mx * f, l);
    vstd::arithmetic::div_mod::lemma_mod_bound(mz * f, l);
    let ux = mx * f;
    let uz = mz * f;
    assert(l * qx == ux - rx && l * qz == uz - rz);
    // Expand each squared quotient over the exact product and remainder.
    assert((l * qx) * (l * qx) == (l * l) * (qx * qx)) by (nonlinear_arith);
    assert((l * qz) * (l * qz) == (l * l) * (qz * qz)) by (nonlinear_arith);
    assert((ux - rx) * (ux - rx) == ux * ux - 2 * (ux * rx) + rx * rx) by (nonlinear_arith);
    assert((uz - rz) * (uz - rz) == uz * uz - 2 * (uz * rz) + rz * rz) by (nonlinear_arith);
    assert(ux * ux == (mx * mx) * (f * f)) by (nonlinear_arith)
        requires ux == mx * f;
    assert(uz * uz == (mz * mz) * (f * f)) by (nonlinear_arith)
        requires uz == mz * f;
    assert((l * l) * (qx * qx) == (mx * mx) * (f * f) - 2 * (ux * rx) + rx * rx);
    assert((l * l) * (qz * qz) == (mz * mz) * (f * f) - 2 * (uz * rz) + rz * rz);
    assert(mx * mx == sx * sx) by (nonlinear_arith)
        requires mx == sx || mx == -sx;
    assert(mz * mz == sz * sz) by (nonlinear_arith)
        requires mz == sz || mz == -sz;

    // Upper end: the squared direction length overshoots l*l by at most 2l,
    // the cross terms only shrink the sum, and the remainders add under 2l*l.
    assert((mx * mx + mz * mz) * (f * f) <= (l * l) * (f * f) + (2 * l) * (f * f))
        by (nonlinear_arith)
        requires mx * mx + mz * mz < (l + 1) * (l + 1), f * f >= 0;
    assert(ux * rx >= 0 && uz * rz >= 0) by (nonlinear_arith)
        requires ux == mx * f, uz == mz * f, mx >= 0, mz >= 0, rx >= 0, rz >= 0, f > 0;
    assert(rx * rx + rz * rz <= 2 * (l * l)) by (nonlinear_arith)
        requires 0 <= rx < l, 0 <= rz < l;
    assert((2 * l) * (f * f) + 2 * (l * l) <= ORBIT_DIST_SQ_OVER * (l * l)) by (nonlinear_arith)
        requires l >= 1000, f == 12000, ORBIT_DIST_SQ_OVER == 288_002;
    assert((l * l) * (qx * qx + qz * qz) <= (l * l) * (f * f + ORBIT_DIST_SQ_OVER))
        by (nonlinear_arith)
        requires
            (l * l) * (qx * qx) == (mx * mx) * (f * f) - 2 * (ux * rx) + rx * rx,
            (l * l) * (qz * qz) == (mz * mz) * (f * f) - 2 * (uz * rz) + rz * rz,
            (mx * mx + mz * mz) * (f * f) <= (l * l) * (f * f) + (2 * l) * (f * f),
            ux * rx >= 0,
            uz * rz >= 0,
            rx * rx + rz * rz <= 2 * (l * l),
            (2 * l) * (f * f) + 2 * (l * l) <= ORBIT_DIST_SQ_OVER * (l * l);
    assert(qx * qx + qz * qz <= f * f + ORBIT_DIST_SQ_OVER) by (nonlinear_arith)
        requires
            (l * l) * (qx * qx + qz * qz) <= (l * l) * (f * f + ORBIT_DIST_SQ_OVER),
            l >= 1;

    // Lower end: the direction length is at least l*l, each cross term is at
    // most l*l times f, and the remainders only help.
    assert((mx * mx + mz * mz) * (f * f) >= (l * l) * (f * f)) by (nonlinear_arith)
        requires mx * mx + mz * mz >= l * l, f * f >= 0;
    assert(ux * rx <= (l * l) * f && uz * rz <= (l * l) * f) by (nonlinear_arith)
        requires
            ux == mx * f,
            uz == mz * f,
            0 <= mx <= l,
            0 <= mz <= l,
            0 <= rx < l,
            0 <= rz < l,
            f > 0;
    assert((l * l) * (qx * qx + qz * qz) >= (l * l) * (f * f - ORBIT_DIST_SQ_UNDER))
        by (nonlinear_arith)
        requires
            (l * l) * (qx * qx) == (mx * mx) * (f * f) - 2 * (ux * rx) + rx * rx,
            (l * l) * (qz * qz) == (mz * mz) * (f * f) - 2 * (uz * rz) + rz * rz,
            (mx * mx + mz * mz) * (f * f) >= (l * l) * (f * f),
            ux * rx <= (l * l) * f,
            uz * rz <= (l * l) * f,
            rx * rx >= 0,
            rz * rz >= 0,
            ORBIT_DIST_SQ_UNDER == 4 * f;
    assert(qx * qx + qz * qz >= f * f - ORBIT_DIST_SQ_UNDER) by (nonlinear_arith)
        requires
            (l * l) * (qx * qx + qz * qz) >= (l * l) * (f * f - ORBIT_DIST_SQ_UNDER),
            l >= 1;
}

/// Mirror-lock residue: the placed horizontal offset is collinear with the
/// preserved direction up to the normalization remainders. The cross
/// product of the new offset with the direction `(sx, sz)` is at most
/// `|sx| + |sz|` in magnitude, while the offset itself has magnitude near
/// `FOLLOW_DIST`: the horizontal angle the camera keeps about the ball
/// deviates by under `2 / FOLLOW_DIST` radians.
pub proof fn lemma_orbit_direction_residue(sx: int, sz: int, l: int)
    requires
        l >= 1,
        -l <= sx <= l,
        -l <= sz <= l,
    ensures
        ({
            let nx = div_trunc(sx * FOLLOW_DIST, l);
            let nz = div_trunc(sz * FOLLOW_DIST, l);
            let m = (if sx >= 0 { sx } else { -sx }) + (if sz >= 0 { sz } else { -sz });
            -m <= nx * sz - nz * sx <= m
        }),
{
    let f = FOLLOW_DIST as int;
    let nx = div_trunc(sx * f, l);
    let nz = div_trunc(sz * f, l);
    lemma_trunc_residue(sx, l);
    lemma_trunc_residue(sz, l);
    let px = sx * f - l * nx;
    let pz = sz * f - l * nz;
    assert((nx * sz - nz * sx) * l == pz * sx - px * sz) by (nonlinear_arith)
        requires l * nx == sx * f - px, l * nz == sz * f - pz;
    let m = (if sx >= 0 { sx } else { -sx }) + (if sz >= 0 { sz } else { -sz });
    assert(-((l - 1) * m) <= pz * sx - px * sz <= (l - 1) * m) by (nonlinear_arith)
        requires
            -(l - 1) <= px <= l - 1,
            -(l - 1) <= pz <= l - 1,
            m == (if sx >= 0 { sx } else { -sx }) + (if sz >= 0 { sz } else { -sz }),
            -l <= sx <= l,
            -l <= sz <= l;
    assert(-m <= nx * sz - nz * sx <= m) by (nonlinear_arith)
        requires
            -((l - 1) * m) <= (nx * sz - nz * sx) * l <= (l - 1) * m,
            l >= 1,
            m >= 0;
}

/// What truncating division leaves of the exact product: a residue below
/// the divisor, on the side of the numerator's sign.
proof fn lemma_trunc_residue(s: int, l: int)
    requires
        l >= 1,
    ensures
        -(l - 1) <= s * FOLLOW_DIST - l * div_trunc(s * FOLLOW_DIST, l) <= l - 1,
{
    let f = FOLLOW_DIST as int;
    vstd::arithmetic::div_mod::lemma_mod_bound(s * f, l);
    vstd::arithmetic::div_mod::lemma_fundamental_div_mod(s * f, l);
    if s * f >= 0 {
        assert(s * f - l * ((s * f) / l) == (s * f) % l);
    } else {
        let a = -(s * f);
        vstd::arithmetic::div_mod::lemma_mod_bound(a, l);
        vstd::arithmetic::div_mod::lemma_fundamental_div_mod(a, l);
        assert(div_trunc(s * f, l) == -(a / l));
        assert(l * (-(a / l)) == -(l * (a / l))) by (nonlinear_arith);
        assert(s * f - l * (-(a / l)) == -(a % l));
    }
}

/// The truncating quotient of `s * FOLLOW_DIST` squares to the square of
/// the quotient of the magnitude: signs cancel.
proof fn lemma_quot_sq(s: int, l: int)
    requires
        l >= 1,
    ensures
        div_trunc(s * FOLLOW_DIST, l) * div_trunc(s * FOLLOW_DIST, l) == (((if s >= 0 {
            s
        } else {
            -s
        }) * FOLLOW_DIST) / l) * (((if s >= 0 {
            s
        } else {
            -s
        }) * FOLLOW_DIST) / l),
{
    let f = FOLLOW_DIST as int;
    if s >= 0 {
        assert(s * f >= 0) by (nonlinear_arith)
            requires s >= 0, f > 0;
    } else {
        let m = -s;
        assert(s * f < 0 && -(s * f) == m * f) by (nonlinear_arith)
            requires s < 0, m == -s, f > 0;
        let q = (m * f) / l;
        assert(div_trunc(s * f, l) == -q);
        assert((-q) * (-q) == q * q) by (nonlinear_arith);
    }
}

/// Exact division pulled back through `div_trunc`: when `l` divides `a`,
/// the truncating quotient times `l` is `a` again.
proof fn lemma_div_trunc_exact(a: int, l: int)
    requires
        l >= 1,
        a % l == 0,
    ensures
        div_trunc(a, l) * l == a,
{
    vstd::arithmetic::div_mod::lemma_fundamental_div_mod(a, l);
    let q = a / l;
    if a >= 0 {
        assert(div_trunc(a, l) == q);
        assert(q * l == l * q) by (nonlinear_arith);
    } else {
        assert(a == l * q);
        assert(-a == l * (-q)) by (nonlinear_arith)
            requires a == l * q;
        vstd::arithmetic::div_mod::lemma_div_multiples_vanish(-q, l);
        assert((-a) / l == -q);
        assert(div_trunc(a, l) == q);
        assert(q * l == l * q) by (nonlinear_arith);
    }
}

/// Orbit-mode distance law: whenever the preserved direction's length is an
/// exact integer and the normalizing divisions are exact, the camera's new
/// horizontal offset from the tracked position has squared length exactly
/// `FOLLOW_DIST * FOLLOW_DIST` — the orbit camera keeps the follow distance.
/// (On other inputs the offsets are the same truncating quotients, and the
/// distance differs from `FOLLOW_DIST` only by the rounding residues; the
/// direction `(1000, 1000)`, whose length has no exact integer root, is one
/// such input.)
pub proof fn lemma_orbit_exact_distance(dx: int, dz: int, l: int)
    requires
        l >= 1,
        l * l == dx * dx + dz * dz,
        (dx * FOLLOW_DIST) % l == 0,
        (dz * FOLLOW_DIST) % l == 0,
    ensures
        div_trunc(dx * FOLLOW_DIST, l) * div_trunc(dx * FOLLOW_DIST, l) + div_trunc(
            dz * FOLLOW_DIST,
            l,
        ) * div_trunc(dz * FOLLOW_DIST, l) == FOLLOW_DIST * FOLLOW_DIST,
{
    let nx = div_trunc(dx * FOLLOW_DIST, l);
    let nz = div_trunc(dz * FOLLOW_DIST, l);
    lemma_div_trunc_exact(dx * FOLLOW_DIST, l);
    lemma_div_trunc_exact(dz * FOLLOW_DIST, l);
    assert(nx * nx + nz * nz == FOLLOW_DIST * FOLLOW_DIST) by (nonlinear_arith)
        requires
            nx * l == dx * FOLLOW_DIST,
            nz * l == dz * FOLLOW_DIST,
            l * l == dx * dx + dz * dz,
            l >= 1;
}

/// The scaled-down rotated back offset keeps the magnitude of the vector it
/// rotates.
proof fn lemma_back_offset_bound(heading: Rot)
    requires
        heading.wf(),
    ensures
        -CHASE_BACK_DIST <= div_trunc(
            rot_x(heading.c as int, heading.s as int, 0, CHASE_BACK_DIST as int),
            SCALE as int,
        ) <= CHASE_BACK_DIST,
        -CHASE_BACK_DIST <= div_trunc(
            rot_z(heading.c as int, heading.s as int, 0, CHASE_BACK_DIST as int),
            SCALE as int,
        ) <= CHASE_BACK_DIST,
{
    let c = heading.c as int;
    let s = heading.s as int;
    assert(rot_x(c, s, 0, CHASE_BACK_DIST as int) == s * CHASE_BACK_DIST);
    assert(rot_z(c, s, 0, CHASE_BACK_DIST as int) == c * CHASE_BACK_DIST);
    assert(-SCALE <= s <= SCALE && -SCALE <= c <= SCALE);
    crate::fixed::lemma_div_trunc_linear_bound(s, CHASE_BACK_DIST as int, SCALE as int);
    crate::fixed::lemma_div_trunc_linear_bound(c, CHASE_BACK_DIST as int, SCALE as int);
    assert(s * CHASE_BACK_DIST == CHASE_BACK_DIST * s) by (nonlinear_arith);
    assert(c * CHASE_BACK_DIST == CHASE_BACK_DIST * c) by (nonlinear_arith);
}

} // verus!
