//! A deterministic, tick-based world simulation: a registry of bodies that
//! move by integer inertia, driven by per-tick batches of directional actions.

pub mod control;
pub mod vector;
pub mod world;

pub use control::{Action, MovingState, SPEED};
pub use world::{Object, ObjectName, World};
