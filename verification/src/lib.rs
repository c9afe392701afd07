//! Verified control and camera-rig core of a top-down ball-racing game.
//!
//! All geometry is carried in fixed-point integers: one world unit is
//! `fixed::SCALE` raw units. The surrounding shell (a game engine) converts
//! floating-point state to and from this representation at the boundary and
//! performs integration, rendering and input reading; every decision the
//! core makes per tick is computed and proved here.

pub mod body;
pub mod camera;
pub mod fixed;
pub mod input;
pub mod rot;
pub mod vec3;
pub mod viewport;
pub mod world;
