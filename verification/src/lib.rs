//! A small ray tracer: for each ray cast into a scene of spheres, the color
//! that the Phong reflection model with hard shadows gives it.
//!
//! Real numbers are carried as IEEE-754 binary64 bit patterns (see
//! [`scalar::Scalar`]). The crate places, moves, negates and compares them
//! itself. It never rounds: sums, products, roots and the like are asked of
//! an [`arithmetic::Arithmetic`] that the caller provides, and every result
//! of the crate is stated over what that arithmetic gives.
//!
//! A scene is a [`world::World`] of one light and a list of shapes. A
//! [`camera::Camera`] renders it onto a [`canvas::Canvas`], and the canvas
//! gives the picture as PPM text. What fails, fails with an
//! [`error::Error`]; nothing panics.

pub mod arithmetic;
pub mod camera;
pub mod canvas;
pub mod color;
pub mod error;
pub mod grid;
pub mod light;
pub mod lines;
pub mod matrix;
pub mod ppm;
pub mod ray;
pub mod scalar;
pub mod shape;
pub mod transform;
pub mod tuple;
pub mod world;
