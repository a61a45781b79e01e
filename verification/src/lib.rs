//! Step-chart retargeting engine: converts foot-placement events recorded for
//! one dance-pad layout into biomechanically constrained placements for
//! another layout, preserving rhythm while sampling plausible footwork.
//!
//! The heart is the step-selection engine in [`generator`]: a per-foot state
//! machine that filters candidate columns through hard geometric constraints
//! and samples among the survivors by multiplicative soft penalties, over
//! exact fixed-point geometry ([`coord`], [`angle`], [`fixed`]).  Pad
//! layouts live in [`style`], configuration in [`params`], and simfile
//! chart-text handling in [`sm`].

pub mod angle;
pub mod coord;
pub mod fixed;
pub mod foot;
pub mod generator;
pub mod params;
pub mod rng;
pub mod sm;
pub mod style;

pub use coord::Coord;
pub use foot::Foot;
pub use generator::{FootStatus, GenError, Generator, Zone};
pub use params::{create_params, GeneratorParameters};
pub use style::{Style, StyleParseError};
