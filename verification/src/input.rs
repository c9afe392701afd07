//! The input-to-force translator: discrete key state in, a world-space force
//! and a yaw delta per controlled body out, plus the global quit gesture.

use vstd::prelude::*;
use crate::body::{
    friction_body, lemma_damp_vec_shrinks, Body, FRICTION_DEN, FRICTION_NUM, YAW_LIMIT,
};
use crate::fixed::{div_trunc, div_trunc_i64, SCALE};
use crate::rot::{rot_x, rot_z, Rot};
use crate::vec3::{mag_sq, V3};

verus! {

/// Forward/backward force magnitude, raw (30 world units of force).
pub const BALL_FORCE: i64 = 30 * SCALE;

/// Strafe force magnitude, raw (20 world units of force).
pub const BALL_STRAFE_FORCE: i64 = 20 * SCALE;

/// Yaw rate while strafing, raw radians per second (1 radian per second).
pub const BALL_ANGULAR_SPEED: i64 = SCALE;

/// Longest tick the input translator accepts, raw seconds (10 seconds).
pub const DT_LIMIT: i64 = 10 * SCALE;

/// Largest yaw step one tick can add: `BALL_ANGULAR_SPEED * DT_LIMIT` over
/// `SCALE`.
pub const MAX_YAW_STEP: i64 = 10 * SCALE;

/// The pressed and just-pressed state of every key the core reads, for one
/// tick. The shell fills one of these per tick from its input device.
#[derive(Clone, Copy, PartialEq, Eq, Structural, Debug)]
pub struct KeyState {
    pub key_w: bool,
    pub key_s: bool,
    pub key_a: bool,
    pub key_d: bool,
    pub arrow_up: bool,
    pub arrow_down: bool,
    pub arrow_left: bool,
    pub arrow_right: bool,
    pub key_q: bool,
    pub ctrl_left: bool,
    pub ctrl_right: bool,
    /// Edge-triggered: became pressed this tick.
    pub just_digit1: bool,
    /// Edge-triggered: became pressed this tick.
    pub just_digit2: bool,
}

impl KeyState {
    /// No key pressed at all.
    pub fn released() -> (k: KeyState)
        ensures
            k == (KeyState {
                key_w: false, key_s: false, key_a: false, key_d: false,
                arrow_up: false, arrow_down: false, arrow_left: false, arrow_right: false,
                key_q: false, ctrl_left: false, ctrl_right: false,
                just_digit1: false, just_digit2: false,
            }),
    {
        KeyState {
            key_w: false, key_s: false, key_a: false, key_d: false,
            arrow_up: false, arrow_down: false, arrow_left: false, arrow_right: false,
            key_q: false, ctrl_left: false, ctrl_right: false,
            just_digit1: false, just_digit2: false,
        }
    }
}

/// There are two binding sets (letters and arrows); slots wrap around them,
/// so binding sets can be shorter than the player count.
pub open spec fn forward_pressed(k: KeyState, slot: int) -> bool {
    if slot % 2 == 0 { k.key_w } else { k.arrow_up }
}

pub open spec fn backward_pressed(k: KeyState, slot: int) -> bool {
    if slot % 2 == 0 { k.key_s } else { k.arrow_down }
}

pub open spec fn left_pressed(k: KeyState, slot: int) -> bool {
    if slot % 2 == 0 { k.key_a } else { k.arrow_left }
}

pub open spec fn right_pressed(k: KeyState, slot: int) -> bool {
    if slot % 2 == 0 { k.key_d } else { k.arrow_right }
}

/// The global quit gesture: one of the two designated letters together with
/// either control key.
pub open spec fn quit_gesture(k: KeyState) -> bool {
    (k.key_w || k.key_q) && (k.ctrl_left || k.ctrl_right)
}

pub fn quit_requested(k: &KeyState) -> (r: bool)
    ensures
        r == quit_gesture(*k),
{
    (k.key_w || k.key_q) && (k.ctrl_left || k.ctrl_right)
}

/// The local-space force this tick's keys ask for: forward pulls toward
/// negative local Z, backward pushes toward positive local Z, strafing
/// pushes along local X. No key, no force.
pub open spec fn local_force(k: KeyState, slot: int) -> V3 {
    V3 {
        x: ((if left_pressed(k, slot) { -BALL_STRAFE_FORCE as int } else { 0 })
            + (if right_pressed(k, slot) { BALL_STRAFE_FORCE as int } else { 0 })) as i64,
        y: 0,
        z: ((if forward_pressed(k, slot) { -BALL_FORCE as int } else { 0 })
            + (if backward_pressed(k, slot) { BALL_FORCE as int } else { 0 })) as i64,
    }
}

/// The yaw the strafe keys add this tick: left turns positive, right turns
/// negative, at `BALL_ANGULAR_SPEED` for `dt` raw seconds.
pub open spec fn yaw_delta(k: KeyState, slot: int, dt: int) -> int {
    let step = div_trunc(BALL_ANGULAR_SPEED * dt, SCALE as int);
    (if left_pressed(k, slot) { step } else { 0 }) + (if right_pressed(k, slot) { -step } else {
        0
    })
}

/// What the input translator does to one body in one tick: write this
/// tick's force (the local force rotated into world space by the given
/// yaw rotation, exactly), add the yaw delta to the accumulator, and leave
/// everything else alone. The body's visual rotation is the rotation by
/// `yaw` itself, so updating the accumulator is updating the visual facing.
pub open spec fn translate_body(b: Body, k: KeyState, dt: int, heading: Rot) -> Body {
    let lf = local_force(k, b.id as int);
    Body {
        force: V3 {
            x: rot_x(heading.c as int, heading.s as int, lf.x as int, lf.z as int) as i64,
            y: 0,
            z: rot_z(heading.c as int, heading.s as int, lf.x as int, lf.z as int) as i64,
        },
        yaw: (b.yaw + yaw_delta(k, b.id as int, dt)) as i64,
        ..b
    }
}

/// One body's step of the input translator, executable. `heading` must be
/// the rotation the shell evaluated for this body's current yaw accumulator;
/// the translator rotates with it exactly.
pub fn translate_body_input(b: Body, k: &KeyState, dt: i64, heading: Rot) -> (r: Body)
    requires
        b.wf(),
        heading.wf(),
        0 <= dt <= DT_LIMIT,
        -(YAW_LIMIT - MAX_YAW_STEP) <= b.yaw <= YAW_LIMIT - MAX_YAW_STEP,
    ensures
        r == translate_body(b, *k, dt as int, heading),
        r.wf(),
        r.id == b.id,
        r.pos == b.pos,
        r.linvel == b.linvel,
        r.angvel == b.angvel,
{
    let slot_even: bool = b.id % 2 == 0;
    let fwd: bool = if slot_even { k.key_w } else { k.arrow_up };
    let back: bool = if slot_even { k.key_s } else { k.arrow_down };
    let left: bool = if slot_even { k.key_a } else { k.arrow_left };
    let right: bool = if slot_even { k.key_d } else { k.arrow_right };

    let mut fx: i64 = 0;
    let mut fz: i64 = 0;
    let mut delta: i64 = 0;
    let step: i64 = yaw_step(dt);
    if fwd {
        fz = fz - BALL_FORCE;
    }
    if back {
        fz = fz + BALL_FORCE;
    }
    if left {
        fx = fx - BALL_STRAFE_FORCE;
        delta = delta + step;
    }
    if right {
        fx = fx + BALL_STRAFE_FORCE;
        delta = delta - step;
    }
    let local = V3 { x: fx, y: 0, z: fz };
    let world = heading.apply(local);
    assert(local == local_force(*k, b.id as int));
    assert(delta == yaw_delta(*k, b.id as int, dt as int));
    Body { force: world, yaw: b.yaw + delta, ..b }
}

/// Coasting law: with none of a body's movement keys pressed, the input
/// translator writes a zero force and a zero yaw delta, and touches neither
/// the velocities nor the pose — deceleration is then the damper's alone,
/// whose law (`lemma_damp_vec_shrinks`) drives the speed strictly toward
/// zero tick over tick.
pub proof fn lemma_no_input_coasts(b: Body, k: KeyState, dt: int, heading: Rot)
    requires
        !forward_pressed(k, b.id as int),
        !backward_pressed(k, b.id as int),
        !left_pressed(k, b.id as int),
        !right_pressed(k, b.id as int),
    ensures
        translate_body(b, k, dt, heading).force == (V3 { x: 0i64, y: 0i64, z: 0i64 }),
        translate_body(b, k, dt, heading).yaw == b.yaw,
        translate_body(b, k, dt, heading).linvel == b.linvel,
        translate_body(b, k, dt, heading).angvel == b.angvel,
        translate_body(b, k, dt, heading).pos == b.pos,
{
    let c = heading.c as int;
    let s = heading.s as int;
    assert(local_force(k, b.id as int) == (V3 { x: 0i64, y: 0i64, z: 0i64 }));
    assert(c * 0 + s * 0 == 0) by (nonlinear_arith);
    assert(-s * 0 + c * 0 == 0) by (nonlinear_arith);
}

/// Tick-over-tick deceleration: with none of a body's movement keys
/// pressed, one whole tick of the core — the input translator followed by
/// the momentum damper — never increases the body's speed, and strictly
/// decreases it while the body still moves, so the speed converges to zero.
pub proof fn lemma_coasting_tick_decelerates(b: Body, k: KeyState, dt: int, heading: Rot)
    requires
        b.wf(),
        !forward_pressed(k, b.id as int),
        !backward_pressed(k, b.id as int),
        !left_pressed(k, b.id as int),
        !right_pressed(k, b.id as int),
    ensures
        mag_sq(friction_body(translate_body(b, k, dt, heading)).linvel) <= mag_sq(b.linvel),
        b.linvel != (V3 { x: 0i64, y: 0i64, z: 0i64 }) ==> mag_sq(
            friction_body(translate_body(b, k, dt, heading)).linvel,
        ) < mag_sq(b.linvel),
{
    lemma_no_input_coasts(b, k, dt, heading);
    lemma_damp_vec_shrinks(b.linvel, FRICTION_NUM as int, FRICTION_DEN as int);
}

/// The raw yaw step for one tick at `BALL_ANGULAR_SPEED`.
fn yaw_step(dt: i64) -> (r: i64)
    requires
        0 <= dt <= DT_LIMIT,
    ensures
        r == div_trunc(BALL_ANGULAR_SPEED * dt, SCALE as int),
        0 <= r <= MAX_YAW_STEP,
{
    proof {
        assert(0 <= BALL_ANGULAR_SPEED * dt <= SCALE * DT_LIMIT) by (nonlinear_arith)
            requires 0 <= dt <= DT_LIMIT, BALL_ANGULAR_SPEED == SCALE, SCALE > 0;
        crate::fixed::lemma_div_trunc_shrinks(BALL_ANGULAR_SPEED * dt, SCALE as int);
        assert((BALL_ANGULAR_SPEED * dt) / (SCALE as int) <= MAX_YAW_STEP) by {
            assert(BALL_ANGULAR_SPEED * dt <= SCALE * MAX_YAW_STEP) by (nonlinear_arith)
                requires 0 <= dt <= DT_LIMIT, BALL_ANGULAR_SPEED == SCALE, SCALE > 0,
                    DT_LIMIT <= MAX_YAW_STEP;
            vstd::arithmetic::div_mod::lemma_div_is_ordered(
                BALL_ANGULAR_SPEED * dt,
                SCALE * MAX_YAW_STEP,
                SCALE as int,
            );
            vstd::arithmetic::div_mod::lemma_div_multiples_vanish(MAX_YAW_STEP as int, SCALE as int);
        }
    }
    let num: i64 = BALL_ANGULAR_SPEED * dt;
    div_trunc_i64(num, SCALE)
}

} // verus!
