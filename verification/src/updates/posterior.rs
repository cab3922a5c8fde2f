//! Posterior-correction kernels, in the standard, eHGF and unbounded
//! variants.

pub mod continuous;
pub mod volatile;
