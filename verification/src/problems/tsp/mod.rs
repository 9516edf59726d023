//! The travelling salesperson problem: routes through cities, and their greedy construction.
//!
//! Distances are handed to the library as keys: unsigned integers that order the edges as
//! their distances do.

use vstd::prelude::*;

pub mod instances;
pub mod symmetric;

verus! {

/// A vertex of the problem: the index of a city.
pub type Node = usize;

/// An edge between two vertices.
pub type Edge = (usize, usize);

/// A route: the order in which the cities are visited.
pub type Route = Vec<Node>;

} // verus!
