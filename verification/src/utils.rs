//! Shared helpers: the scheduler, the belief-propagation driver, coupling
//! writes, the prospective-reconfiguration helpers, the learning rules, and
//! the learning-sequence interleaver.

pub mod beliefs_propagation;
pub mod function_pointer;
pub mod learning;
pub mod prospective;
pub mod set_coupling;
pub mod set_learning_sequence;
pub mod set_sequence;
