//! Optimization problems.
//!
//! An optimization problem asks for the best solution from a set of possible solutions, where
//! the quality of a solution is determined by an objective function. Optimizing means
//! minimizing here.
//!
//! - [`Problem`] provides information about the problem to components; traits built upon it
//!   (such as [`VectorProblem`]) make more information accessible while staying generic.
//! - An [`Individual`] is an encoded solution along with an optional objective value.
//! - [`Evaluate`] evaluates individuals according to some objective function.

use std::ops::Range;

use vstd::prelude::*;

pub mod coco;
pub mod encoding;
pub mod evaluate;
pub mod individual;
pub mod objective;
pub mod tsp;

pub use encoding::AnyEncoding;
pub use evaluate::{Evaluate, ObjectiveFunction, Parallel, Sequential};
pub use individual::Individual;
pub use objective::{IllegalObjective, Objective};

verus! {

/// An optimization (minimization) problem.
///
/// This trait is the base trait for all problems, and itself only defines
/// - an encoding of solutions to the problem ([`Problem::Encoding`]),
/// - the type of objective to minimize ([`Problem::Objective`]), and
/// - the name of the problem ([`Problem::name`]).
pub trait Problem: 'static {
    /// The encoding of a solution to the optimization problem (genotype).
    type Encoding: AnyEncoding;

    /// The objective type to minimize.
    type Objective: Objective;

    /// The name of the optimization problem.
    fn name(&self) -> &str;
}

/// A vector-based optimization problem, whose solutions are vectors of some
/// [`Element`](VectorProblem::Element) type.
pub trait VectorProblem: Problem<Encoding = Vec<<Self as VectorProblem>::Element>> {
    /// The element type of the vector encoding the solutions.
    type Element: Clone;

    /// Returns the dimension of the optimization problem: the length of the vectors encoding
    /// the solutions.
    fn dimension(&self) -> usize;
}

/// A vector-based optimization problem with a search space limited by a domain.
pub trait LimitedVectorProblem: VectorProblem {
    /// Returns the bounds of the search space for each element in the vector encoding.
    fn domain(&self) -> Vec<Range<<Self as VectorProblem>::Element>>;
}

} // verus!
