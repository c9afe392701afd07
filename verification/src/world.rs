//! The simulation world and the ordered per-tick pipeline over it.
//!
//! One tick runs: input translation (forces and yaw written, or the quit
//! gesture detected), then the external physics integration — the shell
//! applies the forces, steps its engine and hands every body's pose and
//! velocities back through `set_body_state` — then damping, recovery, the
//! viewport partition when a resize arrived, the camera-mode switch, and
//! the camera rigs, strictly in that order: the cameras read the
//! post-recovery pose of the same tick.

use vstd::prelude::*;
use crate::body::{
    friction_body, recover_body, spawn_ball, apply_friction_body, respawn_if_off_track, Body,
    VEL_LIMIT, YAW_LIMIT,
};
use crate::camera::{
    camera_state_input, chase_spec, move_camera_chase, move_camera_orbit, next_camera_state,
    orbit_spec, CameraRig, CameraState, ScreenRegion,
};
use crate::fixed::COORD_LIMIT;
use crate::input::{quit_gesture, quit_requested, translate_body, translate_body_input, KeyState,
    DT_LIMIT, MAX_YAW_STEP};
use crate::rot::Rot;
use crate::vec3::{in_bounds, V3};
use crate::viewport::{region_for, set_camera_viewports};

verus! {

/// The per-tick state the core owns: one body per player slot, one camera
/// rig per slot, and the process-wide follow-mode switch.
pub struct World {
    pub bodies: Vec<Body>,
    pub cameras: Vec<CameraRig>,
    pub mode: CameraState,
}

/// What one tick of the selected follow mode does to camera `i`: the chase
/// update under `Camera1`, the orbit update under `Camera2`, and a skip for
/// a camera with no body of its slot to track.
pub open spec fn camera_tick(
    mode: CameraState,
    cam: CameraRig,
    bodies: Seq<Body>,
    headings: Seq<Rot>,
    dt: int,
    i: int,
) -> CameraRig {
    if 0 <= i < bodies.len() {
        if mode == CameraState::Camera1 {
            chase_spec(cam, bodies[i], headings[i], dt)
        } else {
            orbit_spec(cam, bodies[i])
        }
    } else {
        cam
    }
}

impl World {
    /// Slot indices are identities: body and camera `i` sit at index `i`,
    /// and every entry is within the machine bounds the arithmetic needs.
    pub open spec fn wf(self) -> bool {
        &&& forall|i: int|
            0 <= i < self.bodies.len() ==> (#[trigger] self.bodies@[i]).wf()
                && self.bodies@[i].id == i
        &&& forall|i: int|
            0 <= i < self.cameras.len() ==> (#[trigger] self.cameras@[i]).wf()
                && self.cameras@[i].id == i
        &&& self.cameras.len() <= 0xFFFF_FFFF
    }

    /// The start scene of the game: two balls on either
    /// side of the start line, two cameras behind and above the origin
    /// looking at it, chase mode selected, regions still unassigned (the
    /// startup resize notification assigns them before the first frame).
    pub fn setup() -> (w: World)
        ensures
            w.wf(),
            w.bodies.len() == 2,
            w.cameras.len() == 2,
            w.bodies@[0] == spawn_spec(0, -2000i64, 5000i64, -2000i64),
            w.bodies@[1] == spawn_spec(1, 2000i64, 5000i64, 2000i64),
            w.cameras@[0] == start_camera(0),
            w.cameras@[1] == start_camera(1),
            w.mode == CameraState::Camera1,
    {
        let mut bodies: Vec<Body> = Vec::new();
        bodies.push(spawn_ball(0, V3 { x: -2000, y: 5000, z: -2000 }));
        bodies.push(spawn_ball(1, V3 { x: 2000, y: 5000, z: 2000 }));
        let mut cameras: Vec<CameraRig> = Vec::new();
        cameras.push(start_camera_exec(0));
        cameras.push(start_camera_exec(1));
        World { bodies, cameras, mode: CameraState::Camera1 }
    }

    /// The input translator over every body, preceded by the quit check:
    /// on the quit gesture exactly one termination request is raised, the
    /// tick is aborted and nothing is touched; otherwise each body gets
    /// this tick's force and yaw from its own bindings. `headings[i]` must
    /// be the rotation the shell evaluated for body `i`'s current yaw.
    pub fn handle_input(&mut self, k: &KeyState, dt: i64, headings: &Vec<Rot>) -> (quit: bool)
        requires
            old(self).wf(),
            0 <= dt <= DT_LIMIT,
            headings.len() == old(self).bodies.len(),
            forall|i: int| 0 <= i < headings.len() ==> (#[trigger] headings@[i]).wf(),
            forall|i: int|
                0 <= i < old(self).bodies.len() ==> -(YAW_LIMIT - MAX_YAW_STEP) <= (
                #[trigger] old(self).bodies@[i]).yaw <= YAW_LIMIT - MAX_YAW_STEP,
        ensures
            final(self).wf(),
            quit == quit_gesture(*k),
            quit ==> *final(self) == *old(self),
            !quit ==> final(self).bodies.len() == old(self).bodies.len() && (forall|i: int|
                0 <= i < old(self).bodies.len() ==> final(self).bodies@[i] == translate_body(
                    old(self).bodies@[i],
                    *k,
                    dt as int,
                    headings@[i],
                )) && final(self).cameras == old(self).cameras && final(self).mode == old(
                self,
            ).mode,
    {
        if quit_requested(k) {
            return true;
        }
        let n = self.bodies.len();
        let mut i: usize = 0;
        while i < n
            invariant
                n == self.bodies.len() == headings.len(),
                n == old(self).bodies.len(),
                0 <= i <= n,
                self.cameras == old(self).cameras,
                self.mode == old(self).mode,
                old(self).wf(),
                forall|j: int| 0 <= j < headings.len() ==> (#[trigger] headings@[j]).wf(),
                forall|j: int|
                    0 <= j < n ==> -(YAW_LIMIT - MAX_YAW_STEP) <= (#[trigger] old(
                        self,
                    ).bodies@[j]).yaw <= YAW_LIMIT - MAX_YAW_STEP,
                0 <= dt <= DT_LIMIT,
                forall|j: int|
                    0 <= j < i ==> self.bodies@[j] == translate_body(
                        old(self).bodies@[j],
                        *k,
                        dt as int,
                        headings@[j],
                    ) && (#[trigger] self.bodies@[j]).wf() && self.bodies@[j].id == j,
                forall|j: int| i <= j < n ==> self.bodies@[j] == old(self).bodies@[j],
            decreases n - i,
        {
            let b = self.bodies[i];
            let h = headings[i];
            self.bodies.set(i, translate_body_input(b, k, dt, h));
            i += 1;
        }
        false
    }

    /// The write-back edge of the external physics integration: the shell
    /// hands body `i`'s post-step pose and velocities to the core. Yaw,
    /// force and identity are untouched: the yaw accumulator is never read
    /// back from the engine.
    pub fn set_body_state(&mut self, i: usize, pos: V3, linvel: V3, angvel: V3)
        requires
            old(self).wf(),
            i < old(self).bodies.len(),
            in_bounds(pos, COORD_LIMIT as int),
            in_bounds(linvel, VEL_LIMIT as int),
            in_bounds(angvel, VEL_LIMIT as int),
        ensures
            final(self).wf(),
            final(self).bodies@ == old(self).bodies@.update(
                i as int,
                (Body { pos, linvel, angvel, ..old(self).bodies@[i as int] }),
            ),
            final(self).cameras == old(self).cameras,
            final(self).mode == old(self).mode,
    {
        let b = self.bodies[i];
        self.bodies.set(i, Body { pos, linvel, angvel, ..b });
    }

    /// The momentum damper over every body.
    pub fn apply_friction(&mut self)
        requires
            old(self).wf(),
        ensures
            final(self).wf(),
            final(self).bodies.len() == old(self).bodies.len(),
            forall|i: int|
                0 <= i < old(self).bodies.len() ==> final(self).bodies@[i] == friction_body(
                    old(self).bodies@[i],
                ),
            final(self).cameras == old(self).cameras,
            final(self).mode == old(self).mode,
    {
        let n = self.bodies.len();
        let mut i: usize = 0;
        while i < n
            invariant
                n == self.bodies.len(),
                n == old(self).bodies.len(),
                0 <= i <= n,
                self.cameras == old(self).cameras,
                self.mode == old(self).mode,
                old(self).wf(),
                forall|j: int|
                    0 <= j < i ==> self.bodies@[j] == friction_body(old(self).bodies@[j]) && (
                    #[trigger] self.bodies@[j]).wf() && self.bodies@[j].id == j,
                forall|j: int| i <= j < n ==> self.bodies@[j] == old(self).bodies@[j],
            decreases n - i,
        {
            let b = self.bodies[i];
            self.bodies.set(i, apply_friction_body(b));
            i += 1;
        }
    }

    /// The recovery supervisor over every body.
    pub fn respawn_when_off_track(&mut self)
        requires
            old(self).wf(),
        ensures
            final(self).wf(),
            final(self).bodies.len() == old(self).bodies.len(),
            forall|i: int|
                0 <= i < old(self).bodies.len() ==> final(self).bodies@[i] == recover_body(
                    old(self).bodies@[i],
                ),
            final(self).cameras == old(self).cameras,
            final(self).mode == old(self).mode,
    {
        let n = self.bodies.len();
        let mut i: usize = 0;
        while i < n
            invariant
                n == self.bodies.len(),
                n == old(self).bodies.len(),
                0 <= i <= n,
                self.cameras == old(self).cameras,
                self.mode == old(self).mode,
                old(self).wf(),
                forall|j: int|
                    0 <= j < i ==> self.bodies@[j] == recover_body(old(self).bodies@[j]) && (
                    #[trigger] self.bodies@[j]).wf() && self.bodies@[j].id == j,
                forall|j: int| i <= j < n ==> self.bodies@[j] == old(self).bodies@[j],
            decreases n - i,
        {
            let b = self.bodies[i];
            self.bodies.set(i, respawn_if_off_track(b));
            i += 1;
        }
    }

    /// Every camera follows the body of its slot under the selected mode.
    /// `headings[i]` must be the rotation evaluated for body `i`'s current
    /// yaw; a camera whose slot has no body is skipped.
    pub fn move_cameras(&mut self, dt: i64, headings: &Vec<Rot>)
        requires
            old(self).wf(),
            0 <= dt <= DT_LIMIT,
            headings.len() >= old(self).bodies.len(),
            forall|i: int| 0 <= i < headings.len() ==> (#[trigger] headings@[i]).wf(),
        ensures
            final(self).wf(),
            final(self).cameras.len() == old(self).cameras.len(),
            forall|i: int|
                0 <= i < old(self).cameras.len() ==> final(self).cameras@[i] == camera_tick(
                    old(self).mode,
                    old(self).cameras@[i],
                    old(self).bodies@,
                    headings@,
                    dt as int,
                    i,
                ),
            final(self).bodies == old(self).bodies,
            final(self).mode == old(self).mode,
    {
        let n = self.cameras.len();
        let nb = self.bodies.len();
        let mut i: usize = 0;
        while i < n
            invariant
                n == self.cameras.len(),
                n == old(self).cameras.len(),
                nb == self.bodies.len() <= headings.len(),
                nb == old(self).bodies.len(),
                0 <= i <= n,
                self.bodies == old(self).bodies,
                self.mode == old(self).mode,
                old(self).wf(),
                0 <= dt <= DT_LIMIT,
                forall|j: int| 0 <= j < headings.len() ==> (#[trigger] headings@[j]).wf(),
                forall|j: int|
                    0 <= j < i ==> self.cameras@[j] == camera_tick(
                        old(self).mode,
                        old(self).cameras@[j],
                        old(self).bodies@,
                        headings@,
                        dt as int,
                        j,
                    ) && (#[trigger] self.cameras@[j]).wf() && self.cameras@[j].id == j,
                forall|j: int| i <= j < n ==> self.cameras@[j] == old(self).cameras@[j],
            decreases n - i,
        {
            if i < nb {
                let cam = self.cameras[i];
                let b = self.bodies[i];
                let updated = if matches!(self.mode, CameraState::Camera1) {
                    let h = headings[i];
                    move_camera_chase(cam, &b, h, dt)
                } else {
                    move_camera_orbit(cam, &b)
                };
                self.cameras.set(i, updated);
            }
            i += 1;
        }
    }

    /// Everything that runs after the physics integration of one tick, in
    /// the pipeline order: damping of the integrated velocities, recovery
    /// of fallen bodies, the viewport partition when a resize notification
    /// arrived, the camera-mode switch, and the camera rigs — which read
    /// the post-recovery pose, so a respawn shows in the same tick's
    /// camera target.
    pub fn post_integration_tick(
        &mut self,
        k: &KeyState,
        dt: i64,
        headings: &Vec<Rot>,
        resize: Option<(u32, u32)>,
    )
        requires
            old(self).wf(),
            0 <= dt <= DT_LIMIT,
            headings.len() >= old(self).bodies.len(),
            forall|i: int| 0 <= i < headings.len() ==> (#[trigger] headings@[i]).wf(),
        ensures
            final(self).wf(),
            final(self).bodies.len() == old(self).bodies.len(),
            forall|i: int|
                0 <= i < old(self).bodies.len() ==> final(self).bodies@[i] == recover_body(
                    friction_body(old(self).bodies@[i]),
                ),
            final(self).mode == next_camera_state(old(self).mode, k.just_digit1, k.just_digit2),
            final(self).cameras.len() == old(self).cameras.len(),
            forall|i: int|
                0 <= i < old(self).cameras.len() ==> final(self).cameras@[i] == camera_tick(
                    next_camera_state(old(self).mode, k.just_digit1, k.just_digit2),
                    (match resize {
                        Option::Some(sz) => CameraRig {
                            region: region_for(
                                i,
                                old(self).cameras.len() as int,
                                sz.0,
                                sz.1,
                            ),
                            ..old(self).cameras@[i]
                        },
                        Option::None => old(self).cameras@[i],
                    }),
                    old(self).bodies@.map_values(|b: Body| recover_body(friction_body(b))),
                    headings@,
                    dt as int,
                    i,
                ),
    {
        self.apply_friction();
        self.respawn_when_off_track();
        match resize {
            Option::Some(sz) => {
                set_camera_viewports(&mut self.cameras, sz.0, sz.1);
                proof {
                    assert(forall|i: int|
                        0 <= i < self.cameras.len() ==> (#[trigger] self.cameras@[i]).wf());
                }
            },
            Option::None => {},
        }
        self.mode = camera_state_input(self.mode, k.just_digit1, k.just_digit2);
        self.move_cameras(dt, headings);
        proof {
            assert(forall|i: int|
                0 <= i < old(self).bodies.len() ==> self.bodies@[i] == old(
                    self,
                ).bodies@.map_values(|b: Body| recover_body(friction_body(b)))[i]);
        }
    }
}

/// The body a fresh scene gives slot `id`: at the given raw coordinates,
/// everything else zero.
pub open spec fn spawn_spec(id: usize, x: i64, y: i64, z: i64) -> Body {
    Body {
        id,
        pos: V3 { x, y, z },
        yaw: 0,
        linvel: V3 { x: 0i64, y: 0i64, z: 0i64 },
        angvel: V3 { x: 0i64, y: 0i64, z: 0i64 },
        force: V3 { x: 0i64, y: 0i64, z: 0i64 },
    }
}

/// The camera rig a fresh scene gives slot `id`: behind and above the
/// origin, looking at it, with no region assigned yet.
pub open spec fn start_camera(id: usize) -> CameraRig {
    CameraRig {
        id,
        pos: V3 { x: 0i64, y: 8000i64, z: 12000i64 },
        look: V3 { x: 0i64, y: -8000i64, z: -12000i64 },
        region: ScreenRegion { x: 0, y: 0, width: 0, height: 0 },
    }
}

fn start_camera_exec(id: usize) -> (c: CameraRig)
    ensures
        c == start_camera(id),
        c.wf(),
{
    CameraRig {
        id,
        pos: V3 { x: 0, y: 8000, z: 12000 },
        look: V3 { x: 0, y: -8000, z: -12000 },
        region: ScreenRegion { x: 0, y: 0, width: 0, height: 0 },
    }
}

} // verus!
