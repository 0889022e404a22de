//! Geometric simulation of an N×N×N twisty cube puzzle.

pub mod facelet_model;
pub mod geometry_model;
pub mod laws;
pub mod notation;
pub mod projection;
pub mod surface;
pub mod vec3;

pub use facelet_model::{Face, FaceletModel, ORDERED_FACES};
pub use geometry_model::{GCube, GMove, Selector, Sticker};
pub use notation::{scramble_to_movements, Move, Movement, ParseErrorKind, ParseMovementError, Turn};
pub use vec3::{Axis, Matrix3, Vec3};

use vstd::prelude::*;

verus! {

/// A position in space.
pub type Point3 = vec3::Vec3;

} // verus!
