//! A three-dimensional electromagnetic field grid advanced by a leapfrog
//! finite-difference scheme on Maxwell's curl equations.
//!
//! The library keeps the grid geometry, the field storage, the two-phase
//! update schedule and the clamped neighbour addressing. The per-cell
//! arithmetic is supplied by the caller as closures, so the same verified
//! schedule serves any cell representation.
pub mod grid;
pub mod vector_field;
pub mod electromagnetic_field;
pub mod electromagnetic_field_updater;
pub mod fields_simulator;
pub mod keyboard_state;
