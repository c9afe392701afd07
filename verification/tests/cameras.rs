use scorcher_core::body::spawn_ball;
use scorcher_core::camera::{
    camera_state_input, move_camera_chase, move_camera_orbit, CameraRig, CameraState,
    ScreenRegion,
};
use scorcher_core::rot::Rot;
use scorcher_core::vec3::V3;
use scorcher_core::viewport::set_camera_viewports;
use scorcher_core::world::World;

fn rig(id: usize, pos: V3, look: V3) -> CameraRig {
    CameraRig { id, pos, look, region: ScreenRegion { x: 0, y: 0, width: 0, height: 0 } }
}

#[test]
fn camera_mode_switch_edges() {
    assert_eq!(CameraState::default(), CameraState::Camera1);
    assert_eq!(camera_state_input(CameraState::Camera1, false, false), CameraState::Camera1);
    assert_eq!(camera_state_input(CameraState::Camera1, false, true), CameraState::Camera2);
    assert_eq!(camera_state_input(CameraState::Camera2, false, false), CameraState::Camera2);
    assert_eq!(camera_state_input(CameraState::Camera2, true, false), CameraState::Camera1);
    assert_eq!(camera_state_input(CameraState::Camera1, true, true), CameraState::Camera2);
}

#[test]
fn viewports_split_even_width() {
    let mut w = World::setup();
    set_camera_viewports(&mut w.cameras, 800, 600);
    assert_eq!(w.cameras[0].region, ScreenRegion { x: 0, y: 0, width: 400, height: 600 });
    assert_eq!(w.cameras[1].region, ScreenRegion { x: 400, y: 0, width: 400, height: 600 });
}

#[test]
fn viewports_tile_odd_width_exactly() {
    let mut w = World::setup();
    set_camera_viewports(&mut w.cameras, 801, 600);
    assert_eq!(w.cameras[0].region, ScreenRegion { x: 0, y: 0, width: 400, height: 600 });
    assert_eq!(w.cameras[1].region, ScreenRegion { x: 400, y: 0, width: 401, height: 600 });
}

#[test]
fn viewport_single_camera_takes_whole_surface() {
    let mut cams = vec![rig(0, V3::new(0, 0, 0), V3::new(0, 0, -1))];
    set_camera_viewports(&mut cams, 1920, 1080);
    assert_eq!(cams[0].region, ScreenRegion { x: 0, y: 0, width: 1920, height: 1080 });
}

#[test]
fn chase_zero_dt_does_not_move_the_pose() {
    let cam = rig(0, V3::new(5000, 0, 0), V3::new(1, 2, 3));
    let ball = spawn_ball(0, V3::new(0, 0, 0));
    let r = move_camera_chase(cam, &ball, Rot::identity(), 0);
    assert_eq!(r.pos, cam.pos);
    assert_eq!(r.look, cam.look);
}

#[test]
fn chase_long_dt_lands_exactly_on_target() {
    let cam = rig(0, V3::new(5000, 0, 0), V3::new(1, 2, 3));
    let ball = spawn_ball(0, V3::new(0, 0, 0));
    // dt equal to the smoothing time constant saturates the factor.
    let r = move_camera_chase(cam, &ball, Rot::identity(), 500);
    assert_eq!(r.pos, V3::new(0, 8000, 12000));
    assert_eq!(r.look, V3::new(0, -8000, -12000));
    // Any longer tick stays pinned on the target.
    let r2 = move_camera_chase(cam, &ball, Rot::identity(), 5000);
    assert_eq!(r2.pos, r.pos);
    assert_eq!(r2.look, r.look);
}

#[test]
fn chase_halfway_factor() {
    let cam = rig(0, V3::new(5000, 0, 0), V3::new(0, 0, 0));
    let ball = spawn_ball(0, V3::new(0, 0, 0));
    // dt of a quarter second is half the smoothing constant.
    let r = move_camera_chase(cam, &ball, Rot::identity(), 250);
    // Halfway from (5000, 0, 0) toward (0, 8000, 12000).
    assert_eq!(r.pos, V3::new(2500, 4000, 6000));
    // Facing interpolates halfway toward the ball as seen from the new spot.
    assert_eq!(r.look, V3::new(-1250, -2000, -3000));
}

#[test]
fn orbit_keeps_exact_follow_distance_on_exact_inputs() {
    let cam = rig(1, V3::new(3, 0, 4), V3::new(0, 0, 0));
    let ball = spawn_ball(1, V3::new(0, 0, 0));
    let r = move_camera_orbit(cam, &ball);
    assert_eq!(r.pos, V3::new(7200, 4000, 9600));
    let dx = r.pos.x - ball.pos.x;
    let dz = r.pos.z - ball.pos.z;
    assert_eq!(dx * dx + dz * dz, 12000 * 12000);
    assert_eq!(r.look, V3::new(-7200, -4000, -9600));
}

#[test]
fn orbit_preserves_the_horizontal_side() {
    let cam = rig(0, V3::new(-5, 0, 0), V3::new(0, 0, 0));
    let ball = spawn_ball(0, V3::new(0, 0, 0));
    let r = move_camera_orbit(cam, &ball);
    // The camera stays on the side it was on: the mirror lock.
    assert_eq!(r.pos, V3::new(-12000, 4000, 0));
}

#[test]
fn orbit_diagonal_rounding_is_truncating() {
    let cam = rig(0, V3::new(1000, 0, 1000), V3::new(0, 0, 0));
    let ball = spawn_ball(0, V3::new(0, 0, 0));
    // Refined direction (1_000_000, 1_000_000), floor root 1_414_213.
    let r = move_camera_orbit(cam, &ball);
    assert_eq!(r.pos, V3::new(8485, 4000, 8485));
    let dist_sq = r.pos.x * r.pos.x + r.pos.z * r.pos.z;
    assert!(12000 * 12000 - 48_000 <= dist_sq && dist_sq <= 12000 * 12000 + 288_002);
}

#[test]
fn orbit_tiny_offset_keeps_the_distance_band() {
    // One raw unit on each axis: far below one world unit, yet the refined
    // normalization still lands within a fraction of a percent of 12 units.
    let cam = rig(0, V3::new(1, 0, 1), V3::new(0, 0, 0));
    let ball = spawn_ball(0, V3::new(0, 0, 0));
    let r = move_camera_orbit(cam, &ball);
    assert_eq!(r.pos, V3::new(8486, 4000, 8486));
    let dist_sq = r.pos.x * r.pos.x + r.pos.z * r.pos.z;
    assert!(12000 * 12000 - 48_000 <= dist_sq && dist_sq <= 12000 * 12000 + 288_002);
    // The camera stayed on its side of the ball on both axes.
    assert!(r.pos.x > 0 && r.pos.z > 0);
}

#[test]
fn orbit_degenerate_direction_uses_fallback() {
    let cam = rig(0, V3::new(0, 9000, 0), V3::new(0, 0, -1));
    let ball = spawn_ball(0, V3::new(0, 0, 0));
    let r = move_camera_orbit(cam, &ball);
    assert_eq!(r.pos, V3::new(0, 4000, 12000));
    assert_eq!(r.look, V3::new(0, -4000, -12000));
    assert_ne!(r.look, V3::new(0, 0, 0));
}

#[test]
fn orbit_follows_ball_height() {
    let cam = rig(0, V3::new(3, 0, 4), V3::new(0, 0, 0));
    let ball = spawn_ball(0, V3::new(0, -2000, 0));
    let r = move_camera_orbit(cam, &ball);
    assert_eq!(r.pos.y, 2000);
}
