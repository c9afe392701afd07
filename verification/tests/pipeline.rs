use scorcher_core::camera::{CameraState, ScreenRegion};
use scorcher_core::input::KeyState;
use scorcher_core::rot::Rot;
use scorcher_core::vec3::V3;
use scorcher_core::world::World;

#[test]
fn setup_matches_the_start_scene() {
    let w = World::setup();
    assert_eq!(w.bodies.len(), 2);
    assert_eq!(w.cameras.len(), 2);
    assert_eq!(w.bodies[0].id, 0);
    assert_eq!(w.bodies[0].pos, V3::new(-2000, 5000, -2000));
    assert_eq!(w.bodies[1].id, 1);
    assert_eq!(w.bodies[1].pos, V3::new(2000, 5000, 2000));
    assert_eq!(w.bodies[0].yaw, 0);
    assert_eq!(w.bodies[1].yaw, 0);
    assert_eq!(w.cameras[0].pos, V3::new(0, 8000, 12000));
    assert_eq!(w.cameras[1].pos, V3::new(0, 8000, 12000));
    assert_eq!(w.mode, CameraState::Camera1);
}

#[test]
fn write_back_keeps_yaw_and_identity() {
    let mut w = World::setup();
    w.bodies[0].yaw = 777;
    w.set_body_state(0, V3::new(10, 20, 30), V3::new(1, 2, 3), V3::new(4, 5, 6));
    assert_eq!(w.bodies[0].pos, V3::new(10, 20, 30));
    assert_eq!(w.bodies[0].linvel, V3::new(1, 2, 3));
    assert_eq!(w.bodies[0].angvel, V3::new(4, 5, 6));
    assert_eq!(w.bodies[0].yaw, 777);
    assert_eq!(w.bodies[0].id, 0);
    assert_eq!(w.bodies[1].pos, V3::new(2000, 5000, 2000));
}

#[test]
fn fallen_body_is_reset_and_camera_reads_the_reset_pose() {
    let mut w = World::setup();
    // Drop ball 0 below the track: -6 world units is past the -5 threshold.
    w.set_body_state(0, V3::new(0, -6000, 0), V3::new(100, -50, 0), V3::new(0, 0, 0));
    // Switch to the orbit camera with an edge on the second digit key.
    let mut k = KeyState::released();
    k.just_digit2 = true;
    let headings = vec![Rot::identity(), Rot::identity()];
    w.post_integration_tick(&k, 16, &headings, None);
    // Recovery: reset pose, zero yaw, identity kept.
    assert_eq!(w.bodies[0].id, 0);
    assert_eq!(w.bodies[0].pos, V3::new(0, 5000, 0));
    assert_eq!(w.bodies[0].yaw, 0);
    assert_eq!(w.bodies[0].linvel, V3::new(0, 0, 0));
    // The mode switch took the edge.
    assert_eq!(w.mode, CameraState::Camera2);
    // The orbit camera read the post-recovery position (0, 5000, 0), not the
    // fallen one: from (0, 8000, 12000) the preserved direction is (0, 12000),
    // so the camera lands 12 units behind on Z at the reset height plus 4.
    assert_eq!(w.cameras[0].pos, V3::new(0, 9000, 12000));
    assert_eq!(w.cameras[0].look, V3::new(0, -4000, -12000));
}

#[test]
fn bodies_on_track_keep_their_state_through_recovery() {
    let mut w = World::setup();
    w.set_body_state(1, V3::new(50, 1000, -50), V3::new(200, 0, 0), V3::new(0, 0, 0));
    let k = KeyState::released();
    let headings = vec![Rot::identity(), Rot::identity()];
    w.post_integration_tick(&k, 16, &headings, None);
    assert_eq!(w.bodies[1].pos, V3::new(50, 1000, -50));
    // Only the damper touched the velocity: 200 * 98 / 100.
    assert_eq!(w.bodies[1].linvel, V3::new(196, 0, 0));
}

#[test]
fn resize_event_in_a_tick_assigns_regions() {
    let mut w = World::setup();
    let k = KeyState::released();
    let headings = vec![Rot::identity(), Rot::identity()];
    w.post_integration_tick(&k, 16, &headings, Some((800, 600)));
    assert_eq!(w.cameras[0].region, ScreenRegion { x: 0, y: 0, width: 400, height: 600 });
    assert_eq!(w.cameras[1].region, ScreenRegion { x: 400, y: 0, width: 400, height: 600 });
}

#[test]
fn no_resize_keeps_regions() {
    let mut w = World::setup();
    let k = KeyState::released();
    let headings = vec![Rot::identity(), Rot::identity()];
    w.post_integration_tick(&k, 16, &headings, Some((800, 600)));
    w.post_integration_tick(&k, 16, &headings, None);
    assert_eq!(w.cameras[0].region, ScreenRegion { x: 0, y: 0, width: 400, height: 600 });
}

#[test]
fn mode_persists_until_the_next_edge() {
    let mut w = World::setup();
    let mut k2 = KeyState::released();
    k2.just_digit2 = true;
    let k_none = KeyState::released();
    let headings = vec![Rot::identity(), Rot::identity()];
    w.post_integration_tick(&k2, 16, &headings, None);
    assert_eq!(w.mode, CameraState::Camera2);
    w.post_integration_tick(&k_none, 16, &headings, None);
    assert_eq!(w.mode, CameraState::Camera2);
    let mut k1 = KeyState::released();
    k1.just_digit1 = true;
    w.post_integration_tick(&k1, 16, &headings, None);
    assert_eq!(w.mode, CameraState::Camera1);
}
