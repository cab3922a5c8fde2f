//! Bottom-up prediction-error kernels.

pub mod continuous;
pub mod exponential;
pub mod volatile;
