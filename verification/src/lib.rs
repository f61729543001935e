//! A verified RomuTrio pseudorandom number generator.
//!
//! The crate offers a scalar engine ([`Rng`]) and an eight-lane wide engine
//! ([`RngWide`]) that advance the same three-word nonlinear recurrence, an
//! entropy-mixing seeding procedure, and debiased bounded-sampling
//! operations layered on the raw 64-bit output.

pub mod entropy;
pub mod model;
pub mod sampler;
pub mod scalar;
pub mod splitmix;
pub mod wide;

pub use entropy::SeedSource;
pub use scalar::Rng;
pub use wide::RngWide;
