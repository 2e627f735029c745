//! Simulation of rovers on a rectangular plateau.
//!
//! A document names the plateau's far corner on its first non-empty line and
//! then, two lines per rover, a starting pose and a sequence of instructions.
//! The crate splits such a document into its parts and drives each rover to
//! its final pose; every function carries a contract over the mathematical
//! models in [`pose`] and [`text`].

pub mod error;
pub mod heading;
pub mod pose;
pub mod rover;
pub mod text;

pub use error::RoverError;
pub use heading::{Coordinate, Rotate};
pub use rover::Rover;
