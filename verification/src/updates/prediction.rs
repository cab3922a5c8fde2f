//! Top-down prediction kernels.

pub mod continuous;
pub mod volatile;
