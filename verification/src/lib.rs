//! A ray tracer over fixed-point arithmetic.
//!
//! Scene geometry, materials and the light-transport integrator work on
//! three-component vectors whose coordinates are signed 16.16 fixed-point
//! numbers, so every numeric step has an exact mathematical meaning that
//! the contracts below pin down.

pub mod canvas;
pub mod color;
pub mod camera;
pub mod fixed;
pub mod hittable;
pub mod light;
pub mod material;
pub mod point3d;
pub mod ray;
pub mod render;
pub mod rng;
pub mod scene;
pub mod shading;
pub mod sphere;

use vstd::prelude::*;

verus! {

} // verus!
