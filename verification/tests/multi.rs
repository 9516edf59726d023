use mahf::state::registry::MultiStateTuple;
use mahf::{CustomState, StateError, StateRegistry, TypeKey};

struct T1;
struct T2;
struct T3;
struct T4;

impl CustomState for T1 {
    fn spec_id() -> TypeKey {
        1
    }

    fn id() -> TypeKey {
        1
    }
}

impl CustomState for T2 {
    fn spec_id() -> TypeKey {
        2
    }

    fn id() -> TypeKey {
        2
    }
}

impl CustomState for T3 {
    fn spec_id() -> TypeKey {
        3
    }

    fn id() -> TypeKey {
        3
    }
}

impl CustomState for T4 {
    fn spec_id() -> TypeKey {
        4
    }

    fn id() -> TypeKey {
        4
    }
}

#[test]
fn multi_distinct_returns_true_for_distinct() {
    assert!(<(T1, T2) as MultiStateTuple>::distinct());
    assert!(<(T1, T2, T3) as MultiStateTuple>::distinct());
    assert!(<(T1, T2, T3, T4) as MultiStateTuple>::distinct());
}

#[test]
fn multi_distinct_returns_false_for_non_distinct() {
    assert!(!<(T1, T1) as MultiStateTuple>::distinct());
    assert!(!<(T1, T2, T1) as MultiStateTuple>::distinct());
    assert!(!<(T1, T2, T3, T4, T1) as MultiStateTuple>::distinct());
    assert!(!<(T1, T2, T2, T1) as MultiStateTuple>::distinct());
}

#[test]
fn registry_gives_several_states_mutably() {
    let mut registry: StateRegistry<u32> = StateRegistry::new();
    registry.insert(T1::id(), 10);
    registry.insert(T2::id(), 20);
    let mut registry = registry.into_child();
    registry.insert(T3::id(), 30);
    let sum = registry
        .try_get_multiple_mut::<(T1, T3), _, _>(|states| {
            states[0] += 1;
            states[1] += 2;
            states[0] + states[1]
        })
        .unwrap();
    assert_eq!(sum, 43);
    assert_eq!(registry.get_value(T1::id()), 11);
    assert_eq!(registry.get_value(T2::id()), 20);
    assert_eq!(registry.get_value(T3::id()), 32);
    assert!(!registry.contains(T1::id()));
    assert_eq!(registry.get_multiple_mut::<(T2, T1), _, _>(|states| (states[0], states[1])), (20, 11));
}

#[test]
fn registry_multiple_borrow_reports_conflict_before_missing_state() {
    let mut registry: StateRegistry<u32> = StateRegistry::new();
    registry.insert(T1::id(), 10);
    assert_eq!(
        registry.try_get_multiple_mut::<(T1, T1), _, _>(|_| ()),
        Err(StateError::MultipleBorrowConflict)
    );
    assert_eq!(
        registry.try_get_multiple_mut::<(T4, T4), _, _>(|_| ()),
        Err(StateError::MultipleBorrowConflict)
    );
    assert_eq!(
        registry.try_get_multiple_mut::<(T1, T4, T3), _, _>(|_| ()),
        Err(StateError::NotFound(4))
    );
    assert_eq!(registry.get_value(T1::id()), 10);
}

#[test]
fn container_gives_several_states_mutably() {
    let mut state: mahf::state::container::State<u32> = mahf::state::container::State::new();
    state.insert(T1::id(), 1);
    state.insert(T2::id(), 2);
    let product = state.get_multiple_mut::<(T2, T1), _, _>(|states| {
        states[0] *= 10;
        states[1] += 5;
        states[0] * states[1]
    });
    assert_eq!(product, 120);
    assert_eq!(state.get_value(T1::id()), 6);
    assert_eq!(state.get_value(T2::id()), 20);
}
