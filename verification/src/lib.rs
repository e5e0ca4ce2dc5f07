//! A small rigid-body simulation of circles in a square arena.
//!
//! Each simulation step applies, in order: gravity, pairwise elastic
//! collision response, wall reflection, and position integration.
//! All arithmetic is exact rational arithmetic; an update whose exact
//! result cannot be stored is skipped, deterministically.

pub mod body;
pub mod collision;
pub mod laws;
pub mod rational;
pub mod sim;
pub mod vec2;
