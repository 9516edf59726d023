//! Numerical black-box optimization benchmarking: the suites of problem instances and the
//! input transformations that do not depend on floating point.

pub mod suits;
pub mod transformations;
