//! Helpers for testing components against a problem without solutions of its own.

use std::marker::PhantomData;

use vstd::prelude::*;

use crate::problems::{Objective, Problem};

verus! {

/// A problem whose solutions carry no information ([`NoSolution`]), with objective type `O`.
pub struct TestProblem<O: Objective>(PhantomData<O>);

impl<O: Objective> TestProblem<O> {
    /// Creates the test problem.
    pub fn new() -> (r: Self) {
        TestProblem(PhantomData)
    }
}

/// The only solution of a [`TestProblem`]: it carries no information.
#[derive(Clone, Copy, Debug, Default, PartialEq, Eq, Structural)]
pub struct NoSolution;

impl<O: Objective + 'static> Problem for TestProblem<O> {
    type Encoding = NoSolution;

    type Objective = O;

    fn name(&self) -> (r: &str)
        ensures
            r@ == "TestProblem"@,
    {
        "TestProblem"
    }
}

} // verus!
