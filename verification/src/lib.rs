//! Collision detection, spatial partitioning and the atom fission rules of
//! the Meltdown arcade shooter, on an integer model of the game world.
//!
//! World coordinates are whole numbers of world units. Dimensionless factors
//! (scale, the sine and cosine of a rotation, the components of a velocity)
//! are fixed-point numbers counted in thousandths, see [`vector::UNIT`].

use vstd::prelude::*;

pub mod atoms;
pub mod bullet;
pub mod camera;
pub mod collision;
pub mod commands;
pub mod enemy;
pub mod family;
pub mod fx;
pub mod player;
pub mod transform;
pub mod types;
pub mod vector;

verus! {

/// The handle of an entity. The crate only compares and stores handles: it
/// neither makes nor recycles them.
pub type Entity = u64;

} // verus!
