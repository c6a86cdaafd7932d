//! Statistical quality checks for non-cryptographic 64-bit hash functions.
pub mod accumulator;
pub mod bit_flip;
pub mod bits;
pub mod determinism;
pub mod diffusion;
pub mod distribution;
pub mod encoding;
pub mod key_sensitivity;
pub mod metrics;
pub mod padding;
