use mahf::state::registry::{Entry, LocalStateRegistry};
use mahf::{StateError, StateRegistry};

const A: u64 = 1;
const B: u64 = 2;

#[test]
fn entry_and_modify_or_insert_counts_up() {
    let mut registry: StateRegistry<usize> = StateRegistry::new();

    registry.entry(A).and_modify(|a| *a += 1).or_insert(42);
    assert_eq!(registry.get_value(A), 42);

    registry.entry(A).and_modify(|a| *a += 1).or_insert(42);
    assert_eq!(registry.get_value(A), 43);
}

#[test]
fn insert_then_borrow_gives_inserted() {
    let mut registry: StateRegistry<u32> = StateRegistry::new();
    assert_eq!(registry.insert(A, 7), None);
    assert_eq!(*registry.borrow(A), 7);
    assert_eq!(registry.insert(A, 8), Some(7));
    assert_eq!(*registry.borrow(A), 8);
    assert!(registry.contains(A));
    assert!(registry.has(A));
    assert!(!registry.has(B));
}

#[test]
fn insert_leaves_other_keys() {
    let mut registry: StateRegistry<u32> = StateRegistry::new();
    registry.insert(A, 1);
    registry.insert(B, 2);
    assert_eq!(registry.get_value(A), 1);
    assert_eq!(registry.get_value(B), 2);
}

#[test]
fn child_shadows_parent_and_pop_restores() {
    let mut registry: StateRegistry<u32> = StateRegistry::new();
    registry.insert(A, 1);
    let mut child = registry.into_child();
    assert!(!child.contains(A));
    assert!(child.has(A));
    assert_eq!(child.get_value(A), 1);
    child.insert(A, 2);
    assert_eq!(child.get_value(A), 2);
    assert_eq!(child.parent().unwrap().get_value(A), 1);
    let (parent, map) = child.into_parent();
    assert_eq!(map.get(&A), Some(&2));
    let parent = parent.unwrap();
    assert_eq!(parent.get_value(A), 1);
    assert!(parent.parent().is_none());
}

#[test]
fn remove_uncovers_shadowed_state() {
    let mut registry: StateRegistry<u32> = StateRegistry::new();
    registry.insert(A, 1);
    let mut child = registry.into_child();
    child.insert(A, 2);
    assert_eq!(child.remove(A), Ok(2));
    assert_eq!(child.get_value(A), 1);
    assert_eq!(child.remove(A), Ok(1));
    assert_eq!(child.remove(A), Err(StateError::NotFound(A)));
    assert!(!child.has(A));
}

#[test]
fn insert_then_remove_restores() {
    let mut registry: StateRegistry<u32> = StateRegistry::new();
    registry.insert(B, 5);
    registry.insert(A, 3);
    assert_eq!(registry.take(A), 3);
    assert!(!registry.has(A));
    assert_eq!(registry.get_value(B), 5);
}

#[test]
fn missing_state_is_not_found() {
    let mut registry: StateRegistry<u32> = StateRegistry::new();
    assert_eq!(registry.try_borrow(A), Err(StateError::NotFound(A)));
    assert_eq!(registry.try_get_value(A), Err(StateError::NotFound(A)));
    assert_eq!(registry.try_borrow_mut(A).err(), Some(StateError::NotFound(A)));
    assert_eq!(registry.try_borrow_value(A), Err(StateError::NotFound(A)));
    assert_eq!(registry.try_borrow_value_mut(A).err(), Some(StateError::NotFound(A)));
    assert!(registry.find(A).is_err());
    assert!(registry.find_mut(A).is_err());
    assert!(registry.get_mut(A).is_none());
}

#[test]
fn set_value_only_overwrites_present_state() {
    let mut registry: StateRegistry<u32> = StateRegistry::new();
    assert_eq!(registry.set_value(A, 9), None);
    assert!(!registry.has(A));
    registry.insert(A, 1);
    let mut child = registry.into_child();
    assert_eq!(child.set_value(A, 9), Some(1));
    assert!(!child.contains(A));
    assert_eq!(child.parent().unwrap().get_value(A), 9);
}

#[test]
fn borrow_mut_writes_through() {
    let mut registry: StateRegistry<u32> = StateRegistry::new();
    registry.insert(A, 1);
    *registry.borrow_mut(A) += 10;
    assert_eq!(registry.get_value(A), 11);
    *registry.borrow_value_mut(A) += 1;
    assert_eq!(*registry.borrow_value(A), 12);
    if let Some(v) = registry.get_mut(A) {
        *v = 0;
    }
    assert_eq!(registry.get_value(A), 0);
}

#[test]
fn find_returns_registry_holding_state() {
    let mut registry: StateRegistry<u32> = StateRegistry::new();
    registry.insert(A, 1);
    let mut child = registry.into_child();
    child.insert(B, 2);
    assert!(child.find(B).unwrap().contains(B));
    assert!(child.find(A).unwrap().contains(A));
    assert!(!child.find(A).unwrap().contains(B));
    child.find_mut(A).unwrap().insert(A, 5);
    assert_eq!(child.parent().unwrap().get_value(A), 5);
    child.parent_mut().unwrap().insert(B, 7);
    assert_eq!(child.get_value(B), 2);
}

#[test]
fn entry_vacant_and_occupied() {
    let mut registry: StateRegistry<u32> = StateRegistry::new();
    match registry.entry(A) {
        Entry::Vacant(v) => {
            *v.insert(4) += 1;
        }
        Entry::Occupied(_) => panic!("entry should be vacant"),
    }
    assert_eq!(registry.get_value(A), 5);
    match registry.entry(A) {
        Entry::Occupied(mut o) => {
            assert_eq!(*o.get(), 5);
            *o.get_mut() = 6;
            assert_eq!(o.insert(7), 6);
            assert_eq!(o.remove(), 7);
        }
        Entry::Vacant(_) => panic!("entry should be occupied"),
    }
    assert!(!registry.has(A));
    assert_eq!(*registry.entry(B).or_default(), 0);
    assert_eq!(*registry.entry(B).or_insert_with(|| 3), 0);
    registry.entry(B).and_modify_value(|b| *b = 8);
    assert_eq!(registry.get_value(B), 8);
}

#[test]
fn entry_reaches_state_of_parent() {
    let mut registry: StateRegistry<u32> = StateRegistry::new();
    registry.insert(A, 1);
    let mut child = registry.into_child();
    child.entry(A).and_modify(|a| *a += 1).or_insert(0);
    assert!(!child.contains(A));
    assert_eq!(child.get_value(A), 2);
}

#[test]
fn local_registry_operations() {
    let mut local: LocalStateRegistry<i64> = LocalStateRegistry::new();
    assert_eq!(local.insert(A, -1), None);
    assert!(local.contains(A));
    assert_eq!(local.get_value(A), -1);
    assert_eq!(local.set_value(A, 3), Some(-1));
    assert_eq!(local.set_value(B, 3), None);
    assert!(!local.contains(B));
    *local.borrow_mut(A) *= 2;
    assert_eq!(*local.borrow(A), 6);
    assert_eq!(local.try_get_value(B), Err(StateError::NotFound(B)));
    assert_eq!(local.take(A), 6);
    assert_eq!(local.remove(A), Err(StateError::NotFound(A)));
}
