//! Time sampling for vector animations: keyframe bracketing, animated
//! channels, transform channel sampling and path-step generation for shapes
//! and shape morphs.
//!
//! The library performs no floating-point arithmetic. Times are carried as
//! the bit patterns of `f32` values and ordered through an integer key that
//! agrees with the floating-point order; sampled values are handed back as
//! the bracketing keyframe values, and path geometry as steps that name the
//! control points to read. Interpolating those values is left to the caller.

use vstd::prelude::*;

pub mod time;
pub mod path;
pub mod value;
pub mod transform;
pub mod data;
