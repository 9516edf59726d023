//! A framework for the modular construction of metaheuristics.
//!
//! - [`state`]: the registries through which components share state, the population stack,
//!   and lenses and extractors that name pieces of state.
//! - [`problems`]: optimization problems, individuals and their evaluation, the benchmark
//!   suites, and the travelling salesperson problem.
//! - [`random`]: the description of a random number generator.
//! - [`testing`]: a problem for testing components.

pub mod problems;
pub mod random;
pub mod state;
pub mod testing;

pub use state::registry::{CustomState, StateError, StateRegistry, StateResult, TypeKey};
