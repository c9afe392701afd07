use scorcher_core::body::{
    apply_friction_body, ball_color, respawn_if_off_track, spawn_ball, Body,
};
use scorcher_core::input::{quit_requested, translate_body_input, KeyState};
use scorcher_core::rot::Rot;
use scorcher_core::vec3::V3;
use scorcher_core::world::World;

fn mag_sq(v: V3) -> i64 {
    v.x * v.x + v.y * v.y + v.z * v.z
}

#[test]
fn quit_gesture_needs_letter_and_control() {
    let mut k = KeyState::released();
    assert!(!quit_requested(&k));
    k.key_w = true;
    assert!(!quit_requested(&k));
    k.ctrl_left = true;
    assert!(quit_requested(&k));
    let mut k2 = KeyState::released();
    k2.key_q = true;
    k2.ctrl_right = true;
    assert!(quit_requested(&k2));
    let mut k3 = KeyState::released();
    k3.ctrl_left = true;
    k3.ctrl_right = true;
    assert!(!quit_requested(&k3));
}

#[test]
fn quit_raises_one_request_and_suppresses_movement() {
    let mut w = World::setup();
    let mut k = KeyState::released();
    k.key_w = true;
    k.ctrl_left = true;
    k.key_a = true;
    let before0 = w.bodies[0];
    let before1 = w.bodies[1];
    let headings = vec![Rot::identity(), Rot::identity()];
    let quit = w.handle_input(&k, 16, &headings);
    assert!(quit);
    assert_eq!(w.bodies[0], before0);
    assert_eq!(w.bodies[1], before1);
}

#[test]
fn forward_key_writes_forward_force_for_slot_zero_only() {
    let mut w = World::setup();
    let mut k = KeyState::released();
    k.key_w = true;
    let headings = vec![Rot::identity(), Rot::identity()];
    let quit = w.handle_input(&k, 16, &headings);
    assert!(!quit);
    assert_eq!(w.bodies[0].force, V3::new(0, 0, -30_000_000));
    assert_eq!(w.bodies[1].force, V3::new(0, 0, 0));
    assert_eq!(w.bodies[0].yaw, 0);
}

#[test]
fn arrow_bindings_drive_slot_one() {
    let mut w = World::setup();
    let mut k = KeyState::released();
    k.arrow_down = true;
    let headings = vec![Rot::identity(), Rot::identity()];
    w.handle_input(&k, 16, &headings);
    assert_eq!(w.bodies[0].force, V3::new(0, 0, 0));
    assert_eq!(w.bodies[1].force, V3::new(0, 0, 30_000_000));
}

#[test]
fn strafe_left_turns_left_and_pushes_left() {
    let mut w = World::setup();
    let mut k = KeyState::released();
    k.key_a = true;
    let headings = vec![Rot::identity(), Rot::identity()];
    w.handle_input(&k, 16, &headings);
    assert_eq!(w.bodies[0].force, V3::new(-20_000_000, 0, 0));
    assert_eq!(w.bodies[0].yaw, 16);
}

#[test]
fn strafe_right_turns_right() {
    let mut w = World::setup();
    let mut k = KeyState::released();
    k.key_d = true;
    let headings = vec![Rot::identity(), Rot::identity()];
    w.handle_input(&k, 16, &headings);
    assert_eq!(w.bodies[0].force, V3::new(20_000_000, 0, 0));
    assert_eq!(w.bodies[0].yaw, -16);
}

#[test]
fn opposite_keys_cancel() {
    let b = spawn_ball(0, V3::new(0, 5000, 0));
    let mut k = KeyState::released();
    k.key_w = true;
    k.key_s = true;
    let r = translate_body_input(b, &k, 16, Rot::identity());
    assert_eq!(r.force, V3::new(0, 0, 0));
    assert_eq!(r.yaw, 0);
}

#[test]
fn rotated_heading_rotates_the_force() {
    let b = spawn_ball(0, V3::new(0, 5000, 0));
    let mut k = KeyState::released();
    k.key_w = true;
    // Quarter turn left: forward now pushes along negative world X.
    let r = translate_body_input(b, &k, 16, Rot { c: 0, s: 1000 });
    assert_eq!(r.force, V3::new(-30_000_000, 0, 0));
}

#[test]
fn friction_damps_both_velocities() {
    let mut b = spawn_ball(0, V3::new(0, 5000, 0));
    b.linvel = V3::new(100, -55, 7);
    b.angvel = V3::new(100, 0, -100);
    let r = apply_friction_body(b);
    assert_eq!(r.linvel, V3::new(98, -53, 6));
    assert_eq!(r.angvel, V3::new(95, 0, -95));
    assert_eq!(r.pos, b.pos);
}

#[test]
fn pure_damping_speed_never_increases_and_dies_out() {
    let mut b = spawn_ball(0, V3::new(0, 5000, 0));
    b.linvel = V3::new(1000, -250, 333);
    let mut last = mag_sq(b.linvel);
    for _ in 0..600 {
        b = apply_friction_body(b);
        let m = mag_sq(b.linvel);
        assert!(m <= last);
        if last > 0 {
            assert!(m < last);
        }
        last = m;
    }
    assert_eq!(b.linvel, V3::new(0, 0, 0));
}

#[test]
fn recovery_resets_fallen_body_in_place() {
    let mut b = spawn_ball(1, V3::new(777, -6000, -42));
    b.yaw = 12345;
    b.linvel = V3::new(9, 9, 9);
    let r = respawn_if_off_track(b);
    assert_eq!(r.id, 1);
    assert_eq!(r.pos, V3::new(0, 5000, 0));
    assert_eq!(r.yaw, 0);
    assert_eq!(r.linvel, V3::new(0, 0, 0));
    assert_eq!(r.angvel, V3::new(0, 0, 0));
    assert_eq!(r.force, V3::new(0, 0, 0));
}

#[test]
fn recovery_leaves_bodies_at_the_threshold_alone() {
    let b = spawn_ball(0, V3::new(777, -5000, -42));
    let r = respawn_if_off_track(b);
    assert_eq!(r, b);
}

#[test]
fn ball_colors_wrap_over_slots() {
    assert_eq!(ball_color(0), (51, 204, 51));
    assert_eq!(ball_color(1), (255, 51, 51));
    assert_eq!(ball_color(2), (51, 204, 51));
}

#[test]
fn spawn_ball_starts_clean() {
    let b: Body = spawn_ball(3, V3::new(1, 2, 3));
    assert_eq!(b.id, 3);
    assert_eq!(b.pos, V3::new(1, 2, 3));
    assert_eq!(b.yaw, 0);
    assert_eq!(b.linvel, V3::new(0, 0, 0));
    assert_eq!(b.angvel, V3::new(0, 0, 0));
    assert_eq!(b.force, V3::new(0, 0, 0));
}
