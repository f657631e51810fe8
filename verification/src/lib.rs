//! A particle-life engine: point particles of several color classes attract
//! and repel each other within a bounded radius, by an affinity that depends
//! on the ordered pair of their classes.
//!
//! The engine is deterministic. Every real quantity is a fixed-point number,
//! an integer count of millionths (`fixed::ONE` stands for `1.0`), and every
//! quotient is rounded toward zero, so a tick on the same inputs gives the
//! same snapshot bit for bit, in whatever order the particles are listed.
//! Randomness is confined to the generation of palettes, matrices and shape
//! constants.
//!
//! * `fixed`: the fixed-point arithmetic and the integer square root.
//! * `force`: the three-zone force law.
//! * `matrix`: the behavior matrix of affinities between color classes.
//! * `palette`: the active color classes and the table entries they are
//!   shown in.
//! * `params`: speed and shape constants, their validation and regeneration.
//! * `engine`: pair force, net force, velocities and the tick.
//! * `state`: the whole simulation state and the commands that change it.
//! * `laws`: what holds of every tick.

pub mod engine;
pub mod fixed;
pub mod force;
pub mod laws;
pub mod matrix;
pub mod palette;
pub mod params;
mod random;
pub mod state;
