//! Encoded solution to an optimization problem with an associated (optional) objective value.

use vstd::prelude::*;

use crate::problems::Problem;
use crate::state::registry::LocalStateRegistry;

verus! {

/// An encoded solution with an associated (optional) objective value, and a registry of
/// state local to the individual (of value type `L`).
///
/// The objective value is reset whenever the underlying solution is handed out mutably.
pub struct Individual<P: Problem, L = ()> {
    solution: P::Encoding,
    objective: Option<P::Objective>,
    registry: LocalStateRegistry<L>,
}

impl<P: Problem, L> Individual<P, L> {
    /// The solution.
    pub closed spec fn spec_solution(&self) -> P::Encoding {
        self.solution
    }

    /// The objective value, `None` while the individual is unevaluated.
    pub closed spec fn spec_objective(&self) -> Option<P::Objective> {
        self.objective
    }

    /// The individual's own registry of state.
    pub closed spec fn spec_registry(&self) -> LocalStateRegistry<L> {
        self.registry
    }

    /// An individual is determined by its solution, its objective value and its registry.
    pub proof fn lemma_ext_equal(a: Self, b: Self)
        requires
            a.spec_solution() == b.spec_solution(),
            a.spec_objective() == b.spec_objective(),
            a.spec_registry() == b.spec_registry(),
        ensures
            a == b,
    {
    }

    /// Constructs a new individual from a given solution and objective value.
    pub fn new(solution: P::Encoding, objective: P::Objective) -> (r: Self)
        ensures
            r.spec_solution() == solution,
            r.spec_objective() == Some(objective),
            r.spec_registry()@ == Map::<crate::TypeKey, L>::empty(),
    {
        Individual { solution, objective: Some(objective), registry: LocalStateRegistry::new() }
    }

    /// Constructs a new individual from a solution, leaving it unevaluated.
    pub fn new_unevaluated(solution: P::Encoding) -> (r: Self)
        ensures
            r.spec_solution() == solution,
            r.spec_objective() is None,
            r.spec_registry()@ == Map::<crate::TypeKey, L>::empty(),
    {
        Individual { solution, objective: None, registry: LocalStateRegistry::new() }
    }

    /// Evaluates the solution with some objective function `objective_fn`, which is called
    /// once, on the solution.
    pub fn evaluate_with<F>(&mut self, objective_fn: F)
        where
            F: FnOnce(&P::Encoding) -> P::Objective,
        requires
            objective_fn.requires((&old(self).spec_solution(),)),
        ensures
            final(self).spec_solution() == old(self).spec_solution(),
            final(self).spec_registry() == old(self).spec_registry(),
            final(self).spec_objective() matches Some(o) && objective_fn.ensures(
                (&old(self).spec_solution(),),
                o,
            ),
    {
        let o = objective_fn(&self.solution);
        self.objective = Some(o);
    }

    /// Sets the objective value directly, returning whether an existing value was overwritten.
    pub fn set_objective(&mut self, objective: P::Objective) -> (r: bool)
        ensures
            r == old(self).spec_objective() is Some,
            final(self).spec_objective() == Some(objective),
            final(self).spec_solution() == old(self).spec_solution(),
            final(self).spec_registry() == old(self).spec_registry(),
    {
        let evaluated = self.objective.is_some();
        self.objective = Some(objective);
        evaluated
    }

    /// Returns a reference to the solution.
    pub fn solution(&self) -> (r: &P::Encoding)
        ensures
            *r == self.spec_solution(),
    {
        &self.solution
    }

    /// Returns a mutable reference to the solution, resetting the objective value.
    pub fn solution_mut(&mut self) -> (r: &mut P::Encoding)
        ensures
            *r == old(self).spec_solution(),
            final(self).spec_solution() == *final(r),
            final(self).spec_objective() is None,
            final(self).spec_registry() == old(self).spec_registry(),
    {
        self.objective = None;
        &mut self.solution
    }

    /// Returns the solution, consuming the individual in the process.
    pub fn into_solution(self) -> (r: P::Encoding)
        ensures
            r == self.spec_solution(),
    {
        self.solution
    }

    /// Returns `true` if the individual has an objective value.
    pub fn is_evaluated(&self) -> (r: bool)
        ensures
            r == self.spec_objective() is Some,
    {
        self.objective.is_some()
    }

    /// Returns the objective value, or `None` if the individual is unevaluated.
    pub fn get_objective(&self) -> (r: Option<&P::Objective>)
        ensures
            r matches Some(o) ==> self.spec_objective() == Some(*o),
            r is None <==> self.spec_objective() is None,
    {
        self.objective.as_ref()
    }

    /// Returns the objective value; the individual must be evaluated.
    pub fn objective(&self) -> (r: &P::Objective)
        requires
            self.spec_objective() is Some,
        ensures
            self.spec_objective() == Some(*r),
    {
        match &self.objective {
            Some(o) => o,
            None => vstd::pervasive::unreached(),
        }
    }

    /// Returns the individual's own registry of state.
    pub fn state(&self) -> (r: &LocalStateRegistry<L>)
        ensures
            *r == self.spec_registry(),
    {
        &self.registry
    }

    /// Returns the individual's own registry of state mutably.
    pub fn state_mut(&mut self) -> (r: &mut LocalStateRegistry<L>)
        ensures
            *r == old(self).spec_registry(),
            final(self).spec_registry() == *final(r),
            final(self).spec_solution() == old(self).spec_solution(),
            final(self).spec_objective() == old(self).spec_objective(),
    {
        &mut self.registry
    }
}

impl<P: Problem, L> Individual<P, L> where P::Encoding: Default {
    /// Constructs a pseudo individual with the default solution and the given objective value,
    /// for testing.
    pub fn new_test_unit(objective: P::Objective) -> (r: Self)
        ensures
            call_ensures(P::Encoding::default, (), r.spec_solution()),
            r.spec_objective() == Some(objective),
    {
        Self::new(P::Encoding::default(), objective)
    }

}

impl<P: Problem, L> Default for Individual<P, L> where P::Encoding: Default {
    /// Constructs an unevaluated individual with the default solution.
    fn default() -> (r: Self)
        ensures
            call_ensures(P::Encoding::default, (), r.spec_solution()),
            r.spec_objective() is None,
            r.spec_registry()@ == Map::<crate::TypeKey, L>::empty(),
    {
        Self::new_unevaluated(P::Encoding::default())
    }
}

impl<P: Problem, L: Clone> Clone for Individual<P, L> {
    /// Clones the solution, the objective value and the registry of the individual.
    fn clone(&self) -> (r: Self)
        ensures
            cloned(self.spec_solution(), r.spec_solution()),
            self.spec_objective() is None <==> r.spec_objective() is None,
            self.spec_objective() matches Some(o) ==> cloned(o, r.spec_objective()->0),
            r.spec_registry()@ == self.spec_registry()@,
    {
        let objective = match &self.objective {
            Some(o) => Some(o.clone()),
            None => None,
        };
        Individual {
            solution: self.solution.clone(),
            objective,
            registry: self.registry.clone(),
        }
    }
}

} // verus!
