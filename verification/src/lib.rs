//! A verified inference engine for Hierarchical Gaussian Filter (HGF) style
//! belief networks: a directed acyclic graph of Gaussian state nodes coupled
//! through value and volatility links, driven online by a stream of
//! observations.
//!
//! Every scalar belief is an IEEE-754 double carried as its `u64` bit pattern;
//! the arithmetic itself is performed by outside softfloat code behind a small
//! set of trusted wrappers (see [`num`]), and everything built on top of it is
//! verified.

pub mod laws;
pub mod math;
pub mod model;
pub mod num;
pub mod updates;
pub mod utils;

use vstd::prelude::*;

verus! {

} // verus!
