//! Evaluate [`Individual`]s according to some objective function.

use std::marker::PhantomData;

use rayon::iter::{IntoParallelRefMutIterator, ParallelIterator};
use vstd::prelude::*;

use crate::problems::{Individual, Problem};
use crate::state::State;

verus! {

/// Trait for evaluating individuals, i.e. evaluating their solutions to an optimization
/// problem.
///
/// Implement [`ObjectiveFunction`] instead if the objective function does not require
/// `&mut self`: [`Sequential`] and [`Parallel`] then evaluate with it.
pub trait Evaluate {
    /// The type of optimization problem.
    type Problem: Problem;

    /// Evaluates individuals on the problem.
    fn evaluate<S, L: Send>(
        &mut self,
        problem: &Self::Problem,
        state: &mut State<S>,
        individuals: &mut [Individual<Self::Problem, L>],
    );
}

/// Trait for a non-mutable objective function of an optimization problem: the objective value
/// of a solution depends on the problem and the solution alone.
pub trait ObjectiveFunction: Problem {
    /// The objective value of `solution`.
    spec fn spec_objective(&self, solution: Self::Encoding) -> Self::Objective;

    /// Calculates the objective value of the given `solution`.
    fn objective(&self, solution: &Self::Encoding) -> (r: Self::Objective)
        ensures
            r == self.spec_objective(*solution),
    ;
}

/// Whether `after` holds the individuals of `before`, each with its objective value set to
/// the value of the objective function of `problem` on its solution.
pub open spec fn evaluated_all<P: ObjectiveFunction, L>(
    problem: &P,
    before: Seq<Individual<P, L>>,
    after: Seq<Individual<P, L>>,
) -> bool {
    &&& after.len() == before.len()
    &&& forall|i: int|
        0 <= i < before.len() ==> {
            &&& #[trigger] after[i].spec_solution() == before[i].spec_solution()
            &&& after[i].spec_registry() == before[i].spec_registry()
            &&& after[i].spec_objective() == Some(
                problem.spec_objective(before[i].spec_solution()),
            )
        }
}

/// Evaluation is deterministic: two evaluations of the same individuals on the same problem
/// (such as a [`Sequential`] and a [`Parallel`] one) leave the same individuals.
pub proof fn law_evaluation_is_deterministic<P: ObjectiveFunction, L>(
    problem: &P,
    before: Seq<Individual<P, L>>,
    after1: Seq<Individual<P, L>>,
    after2: Seq<Individual<P, L>>,
)
    requires
        evaluated_all(problem, before, after1),
        evaluated_all(problem, before, after2),
    ensures
        after1 == after2,
{
    assert forall|i: int| 0 <= i < after1.len() implies after1[i] == after2[i] by {
        assert(after1[i].spec_solution() == before[i].spec_solution());
        assert(after2[i].spec_solution() == before[i].spec_solution());
        Individual::<P, L>::lemma_ext_equal(after1[i], after2[i]);
    }
    assert(after1 =~= after2);
}

/// Evaluates one individual with the objective function of `problem`.
pub fn evaluate_one<P: ObjectiveFunction, L>(problem: &P, individual: &mut Individual<P, L>)
    ensures
        final(individual).spec_solution() == old(individual).spec_solution(),
        final(individual).spec_registry() == old(individual).spec_registry(),
        final(individual).spec_objective() == Some(
            problem.spec_objective(old(individual).spec_solution()),
        ),
{
    let o = problem.objective(individual.solution());
    individual.set_objective(o);
}

/// A sequential evaluator for an [`ObjectiveFunction`]: it evaluates all individuals in order.
pub struct Sequential<P: ObjectiveFunction>(PhantomData<P>);

impl<P: ObjectiveFunction> Sequential<P> {
    /// Creates a new instance of a sequential evaluator for a problem `P`.
    pub fn new() -> (r: Self) {
        Sequential(PhantomData)
    }
}

impl<P: ObjectiveFunction> Evaluate for Sequential<P> {
    type Problem = P;

    fn evaluate<S, L: Send>(
        &mut self,
        problem: &P,
        state: &mut State<S>,
        individuals: &mut [Individual<P, L>],
    )
        ensures
            evaluated_all(problem, old(individuals)@, final(individuals)@),
            *final(state) == *old(state),
    {
        let ghost before = individuals@;
        let n = individuals.len();
        let mut i: usize = 0;
        while i < n
            invariant
                n == before.len(),
                individuals@.len() == n,
                i <= n,
                forall|j: int| i <= j < n ==> #[trigger] individuals@[j] == before[j],
                forall|j: int|
                    0 <= j < i ==> {
                        &&& #[trigger] individuals@[j].spec_solution() == before[j].spec_solution()
                        &&& individuals@[j].spec_registry() == before[j].spec_registry()
                        &&& individuals@[j].spec_objective() == Some(
                            problem.spec_objective(before[j].spec_solution()),
                        )
                    },
            decreases n - i,
        {
            evaluate_one(problem, &mut individuals[i]);
            i = i + 1;
        }
    }
}

/// A parallel evaluator for an [`ObjectiveFunction`]: it evaluates the individuals in
/// parallel using the [`rayon`] library.
pub struct Parallel<P: ObjectiveFunction>(PhantomData<P>);

impl<P: ObjectiveFunction> Parallel<P> {
    /// Creates a new instance of a parallel evaluator for a problem `P`.
    pub fn new() -> (r: Self) {
        Parallel(PhantomData)
    }
}

/// Runs [`evaluate_one`] on every individual, in parallel, with
/// `rayon::iter::ParallelIterator::for_each` over `par_iter_mut`.
///
/// Trusted: rayon's `par_iter_mut` hands out each element of the slice exactly once, and
/// `for_each` runs the closure on every item; the closure only calls [`evaluate_one`].
#[verifier::external_body]
fn par_evaluate<P: ObjectiveFunction + Sync, L: Send>(
    problem: &P,
    individuals: &mut [Individual<P, L>],
)
    ensures
        evaluated_all(problem, old(individuals)@, final(individuals)@),
{
    individuals.par_iter_mut().for_each(|individual| evaluate_one(problem, individual));
}

impl<P: ObjectiveFunction + Sync> Evaluate for Parallel<P> {
    type Problem = P;

    fn evaluate<S, L: Send>(
        &mut self,
        problem: &P,
        state: &mut State<S>,
        individuals: &mut [Individual<P, L>],
    )
        ensures
            evaluated_all(problem, old(individuals)@, final(individuals)@),
            *final(state) == *old(state),
    {
        par_evaluate(problem, individuals);
    }
}

} // verus!
