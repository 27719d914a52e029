//! Bookkeeping core of a small sphere ray tracer.
//!
//! Numbers are carried as IEEE-754 single-precision bit patterns
//! ([`Scalar`]). The library orders, negates and places them, and keeps the
//! scene, the intersections of a ray and the canvas; rounding arithmetic is
//! left to the caller, who hands its results in.

pub mod camera;
pub mod canvas;
pub mod color;
pub mod intersection;
pub mod intersection_laws;
pub mod light;
pub mod material;
pub mod matrix;
pub mod matrix_small;
pub mod ppm;
pub mod ray;
pub mod scalar;
pub mod sphere;
pub mod transformation;
pub mod tuple;
pub mod world;

pub use camera::Camera;
pub use canvas::Canvas;
pub use color::Color;
pub use intersection::{Computation, Intersection, Intersections};
pub use light::Light;
pub use material::Material;
pub use matrix::Matrix;
pub use matrix_small::{Matrix2, Matrix3};
pub use ray::Ray;
pub use scalar::Scalar;
pub use sphere::Sphere;
pub use tuple::{point, vector, Tuple};
pub use world::World;
