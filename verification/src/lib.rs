//! A randomized model checker.
//!
//! A model is a state type that can be generated at random and stepped by
//! randomly generated inputs. A checking session generates a state and a
//! sequence of steps, runs them, and on a failure hands back a shortened
//! sequence that still fails from the same state.

pub mod checker;
pub mod laws;
pub mod model;
pub mod rng;
pub mod shrink;

pub use checker::{FailedState, ModelChecker};
pub use model::{Arbitrary, ModelState};
pub use rand;
