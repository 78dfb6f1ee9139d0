//! A predator / prey / plant ecosystem engine over fixed-point numbers.
//!
//! Every quantity (coordinates, speeds, masses, forces) is an `i64` counted in
//! thousandths of a unit, so that one tick of the ecosystem is a deterministic,
//! total function of its state and of the seed of its random source.

pub mod aquarium;
pub mod bodies;
pub mod fishes;
pub mod fixed;
pub mod random;
pub mod vectors;
