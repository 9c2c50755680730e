//! Core of an instanced 2D sprite renderer: exact rational scalars, 2D
//! transforms with wrapped rotations, a texture atlas, camera projection, and
//! fixed-size batching of per-instance GPU records.
//!
//! All geometry is carried by [`frac::Frac`], an exact rational number, so
//! every contract in this crate states the result of a computation precisely.
//! Window management, GPU submission and file loading live outside the
//! library and talk to it through plain values.

pub mod assoc;
pub mod camera;
pub mod frac;
pub mod input;
pub mod instance;
pub mod math;
pub mod renderer;
pub mod scene;
pub mod texture;
pub mod transform;

pub use frac::Frac;
