//! Simulation core of a colony of grid-walking agents ("crablets") that harvest
//! resources and ferry them between factories.

use vstd::prelude::*;

pub mod buffer;
pub mod crablet;
pub mod editor;
pub mod factory;
pub mod geom;
pub mod grid;
pub mod navigation;
pub mod nominal;
pub mod resource;
pub mod rng;
pub mod state;
pub mod stats;
pub mod systems;
pub mod task;
pub mod taskman;
pub mod timer;

verus! {

} // verus!
