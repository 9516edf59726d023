use mahf::state::container;
use mahf::state::State;
use mahf::StateError;

#[test]
fn container_holding_puts_state_back_where_it_was() {
    let mut state: container::State<u32> = container::State::new();
    state.insert(1, 10);
    state.insert(2, 20);
    state.with_substate(|inner| {
        inner.insert(3, 30);
        inner.holding(1, |t, st| {
            assert_eq!(*t, 10);
            assert!(!st.has(1));
            *t += st.get_value(2) + st.get_value(3);
        });
        assert!(inner.has(1));
        assert_eq!(inner.get_value(1), 60);
        assert_eq!(inner.parent().unwrap().get_value(1), 60);
    });
    assert_eq!(state.get_value(1), 60);
}

#[test]
fn state_holding_puts_state_back() {
    let mut state: State<u32> = State::new();
    state.registry_mut().insert(1, 1);
    state.registry_mut().insert(2, 2);
    let r: Result<(), StateError> = state.holding(1, |t, st| {
        assert!(!st.registry().has(1));
        *t += st.registry().get_value(2);
        Ok(())
    });
    assert_eq!(r, Ok(()));
    assert_eq!(state.registry().get_value(1), 3);
}

#[test]
fn state_holding_missing_state_is_not_found() {
    let mut state: State<u32> = State::new();
    let r: Result<(), StateError> = state.holding(5, |_, _| Ok(()));
    assert_eq!(r, Err(StateError::NotFound(5)));
}

#[test]
fn state_holding_failure_puts_state_back() {
    let mut state: State<u32> = State::new();
    state.registry_mut().insert(1, 1);
    let r: Result<(), StateError> = state.holding(1, |t, _| {
        *t = 5;
        Err(StateError::MultipleBorrowConflict)
    });
    assert_eq!(r, Err(StateError::MultipleBorrowConflict));
    assert_eq!(state.registry().get_value(1), 5);
}

#[test]
fn holding_multiple_gives_distinct_states_at_once() {
    const A: u64 = 1;
    const B: u64 = 2;
    let mut state: State<usize> = State::new();
    state.registry_mut().insert(A, 10);
    state.registry_mut().insert(B, 20);
    let r: Result<(), StateError> = state.holding_multiple(&[A, B], |values, st| {
        assert!(!st.registry().has(A) && !st.registry().has(B));
        values[0] += 1;
        values[1] += 1;
        values[0] += 1;
        values[1] += 1;
        Ok(())
    });
    assert_eq!(r, Ok(()));
    assert_eq!(state.registry().get_value(A), 12);
    assert_eq!(state.registry().get_value(B), 22);

    let r: Result<(), StateError> = state.holding_multiple(&[A, A], |_, _| Ok(()));
    assert_eq!(r, Err(StateError::MultipleBorrowConflict));
    let r: Result<(), StateError> = state.holding_multiple(&[A, 3, 4], |_, _| Ok(()));
    assert_eq!(r, Err(StateError::NotFound(3)));
    assert_eq!(state.registry().get_value(A), 12);
}

#[test]
fn holding_multiple_puts_states_back_into_their_registries() {
    let mut state: State<u32> = State::new();
    state.registry_mut().insert(1, 1);
    let r: Result<(), StateError> = state.with_inner_state(|inner| {
        inner.registry_mut().insert(2, 2);
        inner.holding_multiple(&[2, 1], |values, _| {
            values[0] *= 10;
            values[1] *= 10;
            Err(StateError::NotFound(9))
        })
    });
    assert_eq!(r, Err(StateError::NotFound(9)));
    assert_eq!(state.registry().get_value(1), 10);
    assert!(!state.registry().has(2));
}

#[test]
fn state_holding_into_a_pushed_registry_goes_back_to_its_own() {
    let mut state: State<u32> = State::new();
    state.registry_mut().insert(1, 1);
    let r: Result<(), StateError> = state.holding(1, |t, st| {
        *t = 7;
        let registry = std::mem::replace(st.registry_mut(), mahf::StateRegistry::new());
        *st.registry_mut() = registry.into_child();
        Ok(())
    });
    assert_eq!(r, Ok(()));
    assert!(!state.registry().contains(1));
    assert_eq!(state.registry().get_value(1), 7);
}
