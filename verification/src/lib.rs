//! Simulation core of a first-person "dodge the traffic in a tunnel" arcade
//! game: a pinhole camera that projects and clips 3D line segments, box-shaped
//! cars with a closed-form jump, bullets, and a per-tick world update with
//! boundary clamping, depth sorting and collision pruning.
//!
//! All geometry is fixed-point: see `geom` for the unit conventions.

use vstd::prelude::*;

pub mod car;
pub mod color;
pub mod control;
pub mod game;
pub mod bot;
pub mod camera;
pub mod geom;
pub mod menu;
pub mod rng;
pub mod ui;
pub mod tunel;
pub mod world;

verus! {

/// A window size (or an on-screen position), in whole pixels.
#[derive(Clone, Copy, PartialEq, Eq, Structural, Debug)]
pub struct Pixel {
    pub w: u32,
    pub h: u32,
}

impl Pixel {
    pub fn new(w: u32, h: u32) -> (r: Pixel)
        ensures
            r == (Pixel { w, h }),
    {
        Pixel { w, h }
    }
}

} // verus!
