//! A small grid raycaster: a tile map, a camera that moves with collision,
//! fixed-step ray marching, column rasterization and a minimap, all on
//! fixed-point integers so that every step is checked.
use vstd::prelude::*;

pub mod camera;
pub mod color;
pub mod fixed;
pub mod grid;
pub mod input;
pub mod minimap;
pub mod raycast;
pub mod render;
pub mod texture;

verus! {

} // verus!
