//! A Monte Carlo path tracer over fixed-point arithmetic.
//!
//! The library estimates the radiance arriving at a virtual sensor by casting
//! rays into a scene of spheres, finding nearest intersections and simulating
//! diffuse, specular and refractive scattering over a bounded number of
//! bounces. All scalars are fixed-point integers (see [`fp`]), which gives
//! every numeric step an exact, machine-checked description.

pub mod fp;
pub mod material;
pub mod object;
pub mod random;
pub mod ray;
pub mod trace;
pub mod vec3;
pub mod world;
