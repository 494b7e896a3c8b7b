//! A small 2D particle simulation engine.
//!
//! Each particle carries an ordered set of behaviors: rules and forces
//! (per-tick updates of the particle on its own) and interactions
//! (pairwise effects against every other particle). A step folds every
//! particle of the current generation through its behaviors and swaps in
//! the new generation atomically; a snapshot exposes the renderable state.
//!
//! Coordinates, velocities and sizes are fixed-point integers: one world
//! unit is `scalar::FP_ONE` coordinate steps.

pub mod engine;
pub mod laws;
pub mod particle;
pub mod scalar;
