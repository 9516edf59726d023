use mahf::state::common::{Evaluations, Iterations, ParetoFront, Populations};
use mahf::state::container;
use mahf::state::extract::{Assign, Extract, ExtractMutRef, ExtractRef, ExPopulationSize, IdFn};
use mahf::state::lens::{AnyLens, IdLens, Lens, LensAssign, LensMap, LensMapRef, LensMut, LensRef, PopulationSizeLens, ValueOf};
use mahf::state::extract::{ExtractMap, ExtractMapRef};
use mahf::state::multi::all_distinct;
use mahf::state::{State, StateReq};
use mahf::{CustomState, StateError, StateRegistry, TypeKey};

#[derive(Clone, Debug, PartialEq)]
struct Counter(u32);

impl CustomState for Counter {
    fn spec_id() -> TypeKey {
        10
    }

    fn id() -> TypeKey {
        10
    }
}

struct Missing;

impl CustomState for Missing {
    fn spec_id() -> TypeKey {
        11
    }

    fn id() -> TypeKey {
        11
    }
}

#[test]
fn container_state_lookups_search_outwards() {
    let mut state: container::State<u32> = container::State::new();
    state.insert(1, 10);
    assert!(state.has(1));
    assert!(!state.has(2));
    state.require(99, 1);
    assert_eq!(*state.get(1), 10);
    *state.get_mut(1) += 1;
    assert_eq!(state.get_value(1), 11);
    state.set_value(1, 20);
    *state.get_value_mut(1) += 2;
    assert_eq!(state.get_value(1), 22);
    assert_eq!(*state.get_or_insert_default(3), 0);
    assert_eq!(state.take(3), 0);
    assert!(!state.has(3));
    assert!(state.parent().is_none());
}

#[test]
fn container_substate_is_discarded() {
    let mut state: container::State<u32> = container::State::new();
    state.insert(1, 1);
    state.with_substate(|inner| {
        assert!(inner.has(1));
        assert!(inner.parent().is_some());
        inner.insert(2, 2);
        inner.set_value(1, 5);
        assert_eq!(inner.get_value(2), 2);
        inner.parent_mut().unwrap().insert(4, 4);
    });
    assert!(!state.has(2));
    assert_eq!(state.get_value(1), 5);
    assert_eq!(state.get_value(4), 4);
}

#[test]
fn state_map_operations() {
    let mut state: container::State<u32> = container::State::new();
    state.insert(7, 1);
    assert!(state.has(7));
    assert_eq!(state.take(7), 1);
}

#[test]
fn state_with_inner_state_discards_child() {
    let mut state: State<u32> = State::new();
    state.registry_mut().insert(1, 1);
    let r: Result<(), ()> = state.with_inner_state(|inner| {
        inner.registry_mut().insert(2, 2);
        assert_eq!(inner.registry().get_value(1), 1);
        Ok(())
    });
    assert_eq!(r, Ok(()));
    assert!(!state.registry().has(2));
    assert_eq!(state.registry().get_value(1), 1);
}

#[test]
fn state_with_inner_state_failing_returns_error() {
    let mut state: State<u32> = State::new();
    state.registry_mut().insert(1, 1);
    let r: Result<(), &str> = state.with_inner_state(|inner| {
        inner.registry_mut().insert(2, 2);
        inner.registry_mut().set_value(1, 7);
        Err("failed")
    });
    assert_eq!(r, Err("failed"));
    // Only the child is discarded: the outer state keeps its state and the changes to it.
    assert_eq!(state.registry().get_value(1), 7);
    assert!(!state.registry().has(2));
}

#[test]
fn state_from_and_into_registry() {
    let mut registry: StateRegistry<u32> = StateRegistry::new();
    registry.insert(1, 3);
    let state = State::from_registry(registry);
    assert_eq!(state.registry().get_value(1), 3);
    let registry = state.into_registry();
    assert_eq!(registry.get_value(1), 3);
}

#[test]
fn require_reports_missing_state() {
    let mut state: State<u32> = State::new();
    state.registry_mut().insert(Counter::id(), 1);
    let req = StateReq::new(&state);
    assert_eq!(req.require::<Missing, Counter>(), Ok(()));
    assert_eq!(
        req.require::<Counter, Missing>(),
        Err(StateError::RequiredMissing(11, 10))
    );
}

#[test]
fn lenses_read_and_write_state() {
    let mut state: State<Counter> = State::new();
    let lens = IdLens::<Counter>::new();
    assert_eq!(lens.get(&state), Err(StateError::NotFound(10)));
    state.registry_mut().insert(Counter::id(), Counter(1));
    assert_eq!(lens.get(&state), Ok(Counter(1)));
    assert_eq!(lens.get_ref(&state), Ok(&Counter(1)));
    lens.get_mut(&mut state).unwrap().0 = 2;
    assert_eq!(ValueOf::<Counter>::new().get(&state), Ok(Counter(2)));
    assert_eq!(lens.assign(Counter(3), &mut state), Ok(()));
    assert_eq!(ValueOf::<Counter>::new().get_ref(&state), Ok(&Counter(3)));
}

#[test]
fn extractors_read_and_write_registry() {
    let mut registry: StateRegistry<Counter> = StateRegistry::new();
    assert_eq!(<IdFn<Counter> as Extract<Counter>>::extract(&registry), Err(StateError::NotFound(10)));
    registry.insert(Counter::id(), Counter(4));
    assert_eq!(<IdFn<Counter> as Extract<Counter>>::extract(&registry), Ok(Counter(4)));
    assert_eq!(<IdFn<Counter> as ExtractRef<Counter>>::extract_ref(&registry), Ok(&Counter(4)));
    <IdFn<Counter> as ExtractMutRef<Counter>>::extract_mut(&mut registry).unwrap().0 = 5;
    assert_eq!(<IdFn<Counter> as Assign<Counter>>::assign(Counter(6), &mut registry), Ok(()));
    assert_eq!(registry.get_value(Counter::id()), Counter(6));
}

#[test]
fn population_size_of_top_population() {
    let mut populations: Populations<u8> = Populations::new();
    populations.push(vec![1, 2, 3]);
    populations.push(vec![4]);
    assert_eq!(PopulationSizeLens::<u8>::new().map(&populations), 1);
    assert_eq!(ExPopulationSize::<u8>::map(&populations), 1);
}

#[test]
fn populations_stack_operations() {
    let mut populations: Populations<u8> = Populations::new();
    assert!(populations.is_empty());
    assert!(populations.get_current().is_none());
    assert!(populations.try_pop().is_none());
    populations.push(vec![1]);
    populations.push(vec![2, 2]);
    assert_eq!(populations.len(), 2);
    assert_eq!(populations.current(), &[2, 2]);
    assert_eq!(populations.peek(1), &[1]);
    assert!(populations.try_peek(2).is_none());
    populations.current_mut().push(2);
    assert_eq!(populations.get_current(), Some(&[2u8, 2, 2][..]));
    populations.get_current_mut().unwrap().clear();
    assert_eq!(populations.pop(), Vec::<u8>::new());
    assert_eq!(populations.pop(), vec![1]);
    assert!(populations.is_empty());
}

#[test]
fn shifting_three_populations_three_times_restores_order() {
    let mut populations: Populations<u8> = Populations::new();
    populations.push(vec![0]);
    populations.push(vec![3]);
    populations.push(vec![2]);
    populations.push(vec![1]);
    // [0, 3, 2, 1] <- top
    populations.shift(3);
    assert_eq!(populations.peek(0), &[2]);
    assert_eq!(populations.peek(1), &[3]);
    assert_eq!(populations.peek(2), &[1]);
    assert_eq!(populations.peek(3), &[0]);
    populations.shift(3);
    assert_eq!(populations.peek(0), &[3]);
    assert_eq!(populations.peek(1), &[1]);
    assert_eq!(populations.peek(2), &[2]);
    populations.shift(3);
    assert_eq!(populations.peek(0), &[1]);
    assert_eq!(populations.peek(1), &[2]);
    assert_eq!(populations.peek(2), &[3]);
    assert_eq!(populations.peek(3), &[0]);
}

#[test]
fn shift_zero_and_full_stack() {
    let mut populations: Populations<u8> = Populations::new();
    populations.push(vec![1]);
    populations.push(vec![2]);
    populations.shift(0);
    assert_eq!(populations.current(), &[2]);
    populations.shift(2);
    assert_eq!(populations.current(), &[1]);
    assert_eq!(populations.peek(1), &[2]);
}

#[test]
fn counters_are_plain_values() {
    let e = Evaluations(3);
    let i = Iterations::default();
    assert_eq!(e.0, 3);
    assert_eq!(i, Iterations(0));
}

#[test]
fn all_distinct_detects_duplicates() {
    assert!(all_distinct(&[]));
    assert!(all_distinct(&[1, 2, 3]));
    assert!(!all_distinct(&[1, 2, 1]));
}

/// Doubles the counter.
struct DoubleLens;

impl AnyLens for DoubleLens {
    type Target = u32;
}

impl LensMap for DoubleLens {
    type Source = Counter;

    fn map(&self, source: &Counter) -> u32 {
        source.0 * 2
    }
}

/// The counter's inner value.
struct InnerLens;

impl AnyLens for InnerLens {
    type Target = u32;
}

impl LensMapRef for InnerLens {
    type Source = Counter;

    fn map<'a>(&self, source: &'a Counter) -> &'a u32 {
        &source.0
    }
}

struct DoubleExtract;

impl ExtractMap for DoubleExtract {
    type Source = Counter;
    type Target = u32;

    fn map(source: &Counter) -> u32 {
        source.0 * 2
    }
}

struct InnerExtract;

impl ExtractMapRef for InnerExtract {
    type Source = Counter;
    type Target = u32;

    fn map(source: &Counter) -> &u32 {
        &source.0
    }
}

#[test]
fn mapping_lenses_compute_from_their_source() {
    let mut state: State<Counter> = State::new();
    assert_eq!(DoubleLens.get(&state), Err(StateError::NotFound(10)));
    state.registry_mut().insert(Counter::id(), Counter(21));
    assert_eq!(DoubleLens.get(&state), Ok(42));
    assert_eq!(InnerLens.get_ref(&state), Ok(&21));
    assert_eq!(<DoubleExtract as Extract<Counter>>::extract(state.registry()), Ok(42));
    assert_eq!(<InnerExtract as ExtractRef<Counter>>::extract_ref(state.registry()), Ok(&21));
}

#[test]
fn state_gives_the_evaluations() {
    let mut state: State<Evaluations> = State::new();
    state.registry_mut().insert(Evaluations::id(), Evaluations(0));
    let evaluations: u32 = state.evaluations();
    assert_eq!(evaluations, 0);
    state.registry_mut().insert(Evaluations::id(), Evaluations(7));
    assert_eq!(state.evaluations(), 7);
}

#[test]
fn state_gives_the_iterations() {
    let mut state: State<Iterations> = State::new();
    state.registry_mut().insert(Iterations::id(), Iterations(0));
    let iterations: u32 = state.iterations();
    assert_eq!(iterations, 0);
}

#[test]
fn state_gives_the_populations() {
    let mut state: State<Populations<u8>> = State::new();
    state.registry_mut().insert(Populations::<u8>::id(), Populations::new());
    assert!(state.populations().is_empty());
    state.populations_mut().push(vec![1, 2]);
    assert_eq!(state.populations().current(), &[1, 2]);
    let found: Result<(), ()> = state.with_inner_state(|inner| {
        inner.populations_mut().push(vec![3]);
        Ok(())
    });
    assert_eq!(found, Ok(()));
    assert_eq!(state.populations().len(), 2);
}

#[test]
fn state_gives_the_pareto_front() {
    let mut state: State<ParetoFront<u8>> = State::new();
    state.registry_mut().insert(ParetoFront::<u8>::id(), ParetoFront::new());
    assert!(state.pareto_front().front().is_empty());
    assert!(state.pareto_front_mut().front().is_empty());
}
