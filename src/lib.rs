//! A Monte-Carlo path tracer over fixed-point arithmetic: vectors and rays,
//! bounding boxes, a closed set of primitives in a scene arena, a bounding
//! volume hierarchy, materials, sampling densities and the radiance estimator.

pub mod fixed;
pub mod rng;
pub mod vec3;
pub mod ray;
pub mod aabb;
pub mod hittable;
pub mod sphere;
pub mod aarect;
pub mod texture;
pub mod onb;
pub mod material;
pub mod pdf;
pub mod list;
pub mod flip_face;
pub mod box_prim;
pub mod constant_medium;
pub mod translate;
pub mod bvh;
pub mod camera;
pub mod conversion;
pub mod render;
