//! A tabular reinforcement-learning library for a deterministic grid world.
//!
//! The crate trains an action-value table with Q-learning or SARSA over a
//! small, fully observable board, using an epsilon-greedy exploration policy,
//! and can replay a trained table greedily. Scalar quantities (rewards,
//! action values, rates, epsilon) are fixed-point integers in thousandths,
//! so that every arithmetic step of the learner is verified exactly.

pub mod algorithms;
pub mod board;
pub mod env;
pub mod fixed;
pub mod q;
pub mod renderer;
pub mod states;

pub use algorithms::{
    execute_algorithm, test_agent, Algorithm, AlgorithmParameters, EnvParameters,
    TrainingOutcome,
};
