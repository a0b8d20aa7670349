//! The core of a controller for conditional jobs: the evaluation of a job's
//! condition, and the bookkeeping that takes a job from pending to finished
//! exactly once.

pub mod condition;
pub mod contract;
pub mod document;
pub mod error;
pub mod host;
pub mod job;
pub mod math;
pub mod state;
pub mod text;
pub mod util;

pub use error::ContractError;
