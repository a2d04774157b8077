//! A recursive, stochastic ray-tracing core over fixed-point arithmetic.
//!
//! The renderer shoots sampled rays through a camera, intersects them with a
//! scene of spheres, lets surface materials scatter or absorb the light, and
//! averages the samples into displayable pixel intensities.  All geometry is
//! carried out on [`fixed::Real`], a saturating fixed-point scalar, so that
//! every formula in the engine has an exact, machine-checked contract.

pub mod camera;
pub mod fixed;
pub mod hittable;
pub mod interval;
pub mod material;
pub mod ray;
pub mod rng;
pub mod sphere;
pub mod vec3;
