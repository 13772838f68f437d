//! A fixed-timestep physics kernel for circular bodies in the plane.
//!
//! Bodies are disks that fall under gravity, collide with more or less
//! bounce, can be dragged by a pointer and are removed once they have been
//! out of bounds for five seconds. One step of the simulation runs six
//! stages in a fixed order: forces, velocities, contact detection, contact
//! resolution, positions, bounds.
//!
//! All quantities are fixed-point numbers counted in millionths, so a step
//! is a pure function of its inputs: the same bodies, the same configuration
//! and the same time delta give the same result on every machine.
//!
//! - [`scalar`] and [`vector`]: the numbers and their arithmetic.
//! - [`config`]: the parameters of the simulation.
//! - [`body`]: a body, and what each stage does to one body.
//! - [`contact`]: when two bodies overlap, and what a contact does to them.
//! - [`pipeline`]: the stages over the whole store, and the step.
//! - [`world`]: the store with its configuration, as the outside sees it.
//! - [`laws`], [`contact_laws`], [`impulse_laws`]: what holds of all of it.

pub mod body;
pub mod config;
pub mod contact;
pub mod contact_laws;
pub mod impulse_laws;
pub mod laws;
pub mod pipeline;
pub mod scalar;
pub mod vector;
pub mod world;
