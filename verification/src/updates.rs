//! The update kernels: for each node kind and phase (predict,
//! prediction-error, posterior), a function taking the network, a node id
//! and a time step, mutating that node's attributes.

pub mod observations;
pub mod posterior;
pub mod prediction;
pub mod prediction_error;
