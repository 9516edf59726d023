use mahf::problems::coco::transformations::Permutation;
use mahf::problems::encoding::valid_permutation;
use mahf::problems::evaluate::evaluate_one;
use mahf::problems::{Evaluate, IllegalObjective, Individual, Objective, ObjectiveFunction, Parallel, Problem, Sequential};
use mahf::random::RandomConfig;
use mahf::state::State;
use mahf::testing::{NoSolution, TestProblem};

#[derive(Clone, Debug, PartialEq, Eq, PartialOrd)]
struct Cost(u64);

impl Objective for Cost {}

/// Minimizes the sum of the elements.
struct SumProblem;

impl Problem for SumProblem {
    type Encoding = Vec<u64>;
    type Objective = Cost;

    fn name(&self) -> &str {
        "sum"
    }
}

fn sum(solution: &[u64]) -> u64 {
    solution.iter().sum()
}

impl ObjectiveFunction for SumProblem {
    fn spec_objective(&self, solution: Vec<u64>) -> Cost {
        Cost(sum(&solution))
    }

    fn objective(&self, solution: &Vec<u64>) -> Cost {
        Cost(sum(solution))
    }
}

#[test]
fn valid_permutation_detects_duplicates() {
    assert!(valid_permutation(&[]));
    assert!(valid_permutation(&[2, 0, 1]));
    assert!(valid_permutation(&[5, 9]));
    assert!(!valid_permutation(&[0, 1, 0]));
    assert!(!valid_permutation(&[3, 3]));
}

#[test]
fn permutation_applies_mapping() {
    let permutation = Permutation::new(vec![2, 1, 0]);
    let mut out = [0.0; 3];
    permutation.apply(&[1.0, 2.0, 3.0], &mut out);
    assert_eq!(out, [3.0, 2.0, 1.0]);
    // The sphere function of the permuted input equals that of the input.
    let sphere: f64 = out.iter().map(|x| x * x).sum();
    assert_eq!(sphere, 1.0 + 4.0 + 9.0);
}

#[test]
fn permutation_reverse_undoes_apply() {
    let permutation = Permutation::new(vec![1, 3, 0, 2]);
    let x = [10u32, 20, 30, 40];
    let mut y = [0u32; 4];
    permutation.apply(&x, &mut y);
    assert_eq!(y, [20, 40, 10, 30]);
    let mut z = [0u32; 4];
    permutation.reverse(&y, &mut z);
    assert_eq!(z, x);
    let mut w = [0u32; 4];
    permutation.reverse(&x, &mut z);
    permutation.apply(&z, &mut w);
    assert_eq!(w, x);
}

#[test]
fn permutation_apply_leaves_extra_outputs() {
    let permutation = Permutation::new(vec![1, 0]);
    let mut out = [7u8, 7, 7];
    permutation.apply(&[1, 2], &mut out);
    assert_eq!(out, [2, 1, 7]);
}

#[test]
fn permutation_reverse_with_duplicates_keeps_last_write() {
    let permutation = Permutation::new(vec![0, 0]);
    let mut out = [9u8, 9];
    permutation.reverse(&[1, 2], &mut out);
    assert_eq!(out, [2, 9]);
}

#[test]
fn individual_objective_is_reset_by_solution_mut() {
    let mut individual: Individual<SumProblem> = Individual::new(vec![1, 2], Cost(3));
    assert!(individual.is_evaluated());
    assert_eq!(individual.objective(), &Cost(3));
    individual.solution_mut().push(3);
    assert!(!individual.is_evaluated());
    assert_eq!(individual.get_objective(), None);
    assert_eq!(individual.solution(), &vec![1, 2, 3]);
    assert!(!individual.set_objective(Cost(6)));
    assert!(individual.set_objective(Cost(6)));
    individual.state_mut().insert(1, ());
    assert!(individual.state().contains(1));
    assert_eq!(individual.into_solution(), vec![1, 2, 3]);
}

#[test]
fn individual_evaluate_with_calls_objective_function() {
    let mut individual: Individual<SumProblem> = Individual::new_unevaluated(vec![4, 5]);
    individual.evaluate_with(|solution| Cost(sum(solution) * 2));
    assert_eq!(individual.get_objective(), Some(&Cost(18)));
}

#[test]
fn sequential_evaluates_all_individuals() {
    let problem = SumProblem;
    let mut state: State<u8> = State::new();
    let mut individuals: Vec<Individual<SumProblem>> = vec![
        Individual::new_unevaluated(vec![1, 2]),
        Individual::new(vec![5], Cost(0)),
        Individual::new_unevaluated(vec![]),
    ];
    Sequential::<SumProblem>::new().evaluate(&problem, &mut state, &mut individuals);
    let objectives: Vec<Option<&Cost>> = individuals.iter().map(|i| i.get_objective()).collect();
    assert_eq!(objectives, vec![Some(&Cost(3)), Some(&Cost(5)), Some(&Cost(0))]);
}

#[test]
fn parallel_evaluates_all_individuals() {
    let problem = SumProblem;
    let mut state: State<u8> = State::new();
    let mut individuals: Vec<Individual<SumProblem>> =
        (0..50).map(|i| Individual::new_unevaluated(vec![i, i])).collect();
    Parallel::<SumProblem>::new().evaluate(&problem, &mut state, &mut individuals);
    for (i, individual) in individuals.iter().enumerate() {
        assert_eq!(individual.objective(), &Cost(2 * i as u64));
        assert_eq!(individual.solution(), &vec![i as u64, i as u64]);
    }
}

#[test]
fn evaluate_one_sets_objective() {
    let mut individual: Individual<SumProblem> = Individual::new_unevaluated(vec![2, 2]);
    evaluate_one(&SumProblem, &mut individual);
    assert_eq!(individual.objective(), &Cost(4));
}

#[test]
fn test_problem_has_no_solution_information() {
    let problem = TestProblem::<Cost>::new();
    assert_eq!(problem.name(), "TestProblem");
    let individual: Individual<TestProblem<Cost>> = Individual::new_test_unit(Cost(1));
    assert_eq!(individual.solution(), &NoSolution);
    assert_eq!(individual.objective(), &Cost(1));
    let unevaluated: Individual<TestProblem<Cost>> = Individual::default();
    assert!(!unevaluated.is_evaluated());
}

#[test]
fn illegal_objective_messages() {
    assert_eq!(IllegalObjective::NaN.message(), "NaN is not a valid objective value");
    assert_eq!(
        IllegalObjective::NegativeInfinity.message(),
        "Negative infinity is not a valid objective value"
    );
}

#[test]
fn random_config_describes_generator() {
    let config = RandomConfig::new("ChaCha12Rng", 42);
    assert_eq!(config.name, "ChaCha12Rng");
    assert_eq!(config.seed, 42);
}

#[test]
fn sequential_and_parallel_evaluations_agree() {
    let problem = SumProblem;
    let mut state: State<u8> = State::new();
    let make = || -> Vec<Individual<SumProblem>> {
        (0..20).map(|i| Individual::new_unevaluated(vec![i, 3 * i, 1])).collect()
    };
    let mut a = make();
    let mut b = make();
    Sequential::<SumProblem>::new().evaluate(&problem, &mut state, &mut a);
    Parallel::<SumProblem>::new().evaluate(&problem, &mut state, &mut b);
    for (x, y) in a.iter().zip(&b) {
        assert_eq!(x.solution(), y.solution());
        assert_eq!(x.get_objective(), y.get_objective());
    }
}

#[test]
fn individual_clone_and_default() {
    let mut individual: Individual<SumProblem> = Individual::new(vec![1, 2], Cost(3));
    individual.state_mut().insert(4, ());
    let copy = individual.clone();
    assert_eq!(copy.solution(), &vec![1, 2]);
    assert_eq!(copy.objective(), &Cost(3));
    assert!(copy.state().contains(4));
    let default: Individual<SumProblem> = Individual::default();
    assert_eq!(default.solution(), &Vec::<u64>::new());
    assert!(!default.is_evaluated());
}
