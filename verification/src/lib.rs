//! A world of foraging animals, simulated step by step, with the effect of
//! every step stated and proved.
//!
//! Animals with an eye and a brain look for food on a square world that
//! wraps round at its edges. What an animal has eaten when its generation
//! ends is its fitness, from which an optimizer breeds the next generation.
//!
//! All numbers are fixed-point: whole millionths (`fixed`). The library
//! computes nothing in floating point and calls on no trigonometry. Where a
//! step needs an angle or a unit vector, the caller provides it; the same
//! holds of the answers of the brains and of the offspring that the
//! optimizer breeds. What the library does with them is exact.
//!
//! - `fixed`, `geometry`: numbers and points.
//! - `random`: the random source.
//! - `food`, `eye`, `brain`, `animal`: what lives in the world.
//! - `individual`: the animals as the optimizer sees them.
//! - `world`: the world as a mathematical object, and the laws of a step.
//! - `simulation`: the world as a value, the phases of a step, the change
//!   of generation.
//! - `primer`: small exercises that have nothing to do with the simulation.

pub mod fixed;
pub mod geometry;
pub mod random;
pub mod food;
pub mod eye;
pub mod brain;
pub mod animal;
pub mod individual;
pub mod world;
pub mod simulation;
pub mod primer;
