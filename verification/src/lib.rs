//! Ropes between point masses in the plane, stepped by Verlet integration
//! and relaxation, and a generator of building-like structures made of them.
//!
//! - `dense_grid`: integer points and a grid around the origin that grows on
//!   demand.
//! - `structure`: the cells of a structure, and the scan that turns them
//!   into a blueprint.
//! - `blueprint`: the nodes and ropes of a structure before it is placed.
//! - `generator`: the archetypes of structures, and the placing of a
//!   blueprint in a world.
//! - `scalar`: the numbers of the simulation, as a trait, and vectors.
//! - `rope`: nodes, ropes, forces, and the step of a world.
//! - `blueprint_to_world_transform`: the ways to place a blueprint.

pub mod blueprint;
pub mod blueprint_to_world_transform;
pub mod dense_grid;
pub mod generator;
pub mod rope;
pub mod scalar;
pub mod structure;
