//! Per-tick logic of a small scene plugin: spawn cube entities up to a fixed
//! cap, rebuild a fixed number of child nodes whenever an entity's position is
//! reported changed, snap the render transform to the position, and collect
//! the entities whose world transform is still the host engine's default.
//!
//! The host engine owns the real entity store, the scheduler and the
//! transform-propagation pass. This crate models the slice of that state the
//! plugin reads and writes, and proves what each per-tick routine does to it;
//! a thin binary wires the routines into the engine's schedule.

pub mod laws;
pub mod systems;
pub mod transform;
pub mod world;
