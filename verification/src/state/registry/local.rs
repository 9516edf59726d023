//! A single-level registry of state, owned by one individual.

use std::collections::HashMap;
use std::collections::hash_map;

use vstd::prelude::*;

use crate::state::registry::{StateError, StateResult, TypeKey};

verus! {

broadcast use vstd::std_specs::hash::group_hash_axioms;

/// A map from [`TypeKey`]s to state, without the stack of a
/// [`StateRegistry`](crate::StateRegistry).
pub struct LocalStateRegistry<S> {
    map: HashMap<TypeKey, S>,
}

impl<S> View for LocalStateRegistry<S> {
    type V = Map<TypeKey, S>;

    closed spec fn view(&self) -> Map<TypeKey, S> {
        self.map@
    }
}

impl<S> LocalStateRegistry<S> {
    /// Creates an empty registry.
    pub fn new() -> (r: Self)
        ensures
            r@ == Map::<TypeKey, S>::empty(),
    {
        LocalStateRegistry { map: HashMap::new() }
    }

    /// Inserts state, returning the state previously stored under `key`, if any.
    pub fn insert(&mut self, key: TypeKey, value: S) -> (r: Option<S>)
        ensures
            final(self)@ == old(self)@.insert(key, value),
            r == (if old(self)@.contains_key(key) {
                Some(old(self)@[key])
            } else {
                None::<S>
            }),
    {
        self.map.insert(key, value)
    }

    /// Removes the state with key `key` and returns it, or `Err` if there is none.
    pub fn remove(&mut self, key: TypeKey) -> (r: StateResult<S>)
        ensures
            final(self)@ == old(self)@.remove(key),
            r == (if old(self)@.contains_key(key) {
                Ok::<S, StateError>(old(self)@[key])
            } else {
                Err::<S, StateError>(StateError::NotFound(key))
            }),
    {
        match self.map.remove(&key) {
            Some(v) => Ok(v),
            None => Err(StateError::not_found(key)),
        }
    }

    /// Removes the state with key `key` and returns it; the state must be present.
    pub fn take(&mut self, key: TypeKey) -> (r: S)
        requires
            old(self)@.contains_key(key),
        ensures
            final(self)@ == old(self)@.remove(key),
            r == old(self)@[key],
    {
        match self.remove(key) {
            Ok(v) => v,
            Err(_) => vstd::pervasive::unreached(),
        }
    }

    /// Returns `true` if the registry contains state with key `key`.
    pub fn contains(&self, key: TypeKey) -> (r: bool)
        ensures
            r == self@.contains_key(key),
    {
        self.map.contains_key(&key)
    }

    /// Returns a reference to the state with key `key`, or `Err` if there is none.
    pub fn try_borrow(&self, key: TypeKey) -> (r: StateResult<&S>)
        ensures
            r is Ok <==> self@.contains_key(key),
            r matches Ok(v) ==> *v == self@[key],
            r is Err ==> r == Err::<&S, StateError>(StateError::NotFound(key)),
    {
        match self.map.get(&key) {
            Some(v) => Ok(v),
            None => Err(StateError::not_found(key)),
        }
    }

    /// Returns a reference to the state with key `key`; the state must be present.
    pub fn borrow(&self, key: TypeKey) -> (r: &S)
        requires
            self@.contains_key(key),
        ensures
            *r == self@[key],
    {
        match self.try_borrow(key) {
            Ok(v) => v,
            Err(_) => vstd::pervasive::unreached(),
        }
    }

    /// Returns a mutable reference to the state with key `key`, or `Err` if there is none.
    pub fn try_borrow_mut(&mut self, key: TypeKey) -> (r: StateResult<&mut S>)
        ensures
            r is Ok <==> old(self)@.contains_key(key),
            r matches Ok(v) ==> *v == old(self)@[key] && final(self)@ == old(self)@.insert(
                key,
                *final(v),
            ),
            r is Err ==> r == Err::<&mut S, StateError>(StateError::NotFound(key)),
            r is Err ==> final(self)@ == old(self)@,
    {
        let ghost m0 = self.map@;
        match self.map.entry(key) {
            hash_map::Entry::Occupied(e) => Ok(e.into_mut()),
            hash_map::Entry::Vacant(_) => {
                proof {
                    assert(m0.remove(key) =~= m0);
                }
                Err(StateError::not_found(key))
            },
        }
    }

    /// Returns a mutable reference to the state with key `key`; the state must be present.
    pub fn borrow_mut(&mut self, key: TypeKey) -> (r: &mut S)
        requires
            old(self)@.contains_key(key),
        ensures
            *r == old(self)@[key],
            final(self)@ == old(self)@.insert(key, *final(r)),
    {
        match self.try_borrow_mut(key) {
            Ok(v) => v,
            Err(_) => vstd::pervasive::unreached(),
        }
    }

    /// Returns a reference to the value of the state with key `key`, or `Err` if there is
    /// none. The value of a state is the state itself.
    pub fn try_borrow_value(&self, key: TypeKey) -> (r: StateResult<&S>)
        ensures
            r is Ok <==> self@.contains_key(key),
            r matches Ok(v) ==> *v == self@[key],
            r is Err ==> r == Err::<&S, StateError>(StateError::NotFound(key)),
    {
        self.try_borrow(key)
    }

    /// Returns a reference to the value of the state with key `key`; the state must be
    /// present. The value of a state is the state itself.
    pub fn borrow_value(&self, key: TypeKey) -> (r: &S)
        requires
            self@.contains_key(key),
        ensures
            *r == self@[key],
    {
        self.borrow(key)
    }

    /// Returns a mutable reference to the value of the state with key `key`, or `Err` if
    /// there is none. The value of a state is the state itself.
    pub fn try_borrow_value_mut(&mut self, key: TypeKey) -> (r: StateResult<&mut S>)
        ensures
            r is Ok <==> old(self)@.contains_key(key),
            r matches Ok(v) ==> *v == old(self)@[key] && final(self)@ == old(self)@.insert(
                key,
                *final(v),
            ),
            r is Err ==> r == Err::<&mut S, StateError>(StateError::NotFound(key)),
            r is Err ==> final(self)@ == old(self)@,
    {
        self.try_borrow_mut(key)
    }

    /// Returns a mutable reference to the value of the state with key `key`; the state must
    /// be present. The value of a state is the state itself.
    pub fn borrow_value_mut(&mut self, key: TypeKey) -> (r: &mut S)
        requires
            old(self)@.contains_key(key),
        ensures
            *r == old(self)@[key],
            final(self)@ == old(self)@.insert(key, *final(r)),
    {
        self.borrow_mut(key)
    }

    /// Replaces the state with key `key` by `value` and returns the previous state; if there
    /// is no such state, nothing is inserted and `None` is returned.
    pub fn set_value(&mut self, key: TypeKey, value: S) -> (r: Option<S>)
        ensures
            old(self)@.contains_key(key) ==> r == Some(old(self)@[key]) && final(self)@ == old(
                self,
            )@.insert(key, value),
            !old(self)@.contains_key(key) ==> r is None && final(self)@ == old(self)@,
    {
        match self.try_borrow_mut(key) {
            Ok(v) => {
                let mut value = value;
                std::mem::swap(v, &mut value);
                Some(value)
            },
            Err(_) => None,
        }
    }

    /// Returns a mutable reference to the state with key `key`, or `None` if there is none.
    pub fn get_mut(&mut self, key: TypeKey) -> (r: Option<&mut S>)
        ensures
            r is Some <==> old(self)@.contains_key(key),
            r matches Some(v) ==> *v == old(self)@[key] && final(self)@ == old(self)@.insert(
                key,
                *final(v),
            ),
            r is None ==> final(self)@ == old(self)@,
    {
        match self.try_borrow_mut(key) {
            Ok(v) => Some(v),
            Err(_) => None,
        }
    }
}

impl<S: Clone> LocalStateRegistry<S> {
    /// Returns a clone of the state with key `key`, or `Err` if there is none.
    pub fn try_get_value(&self, key: TypeKey) -> (r: StateResult<S>)
        ensures
            r is Ok <==> self@.contains_key(key),
            r matches Ok(v) ==> cloned(self@[key], v),
            r is Err ==> r == Err::<S, StateError>(StateError::NotFound(key)),
    {
        match self.try_borrow(key) {
            Ok(v) => Ok(v.clone()),
            Err(e) => Err(e),
        }
    }

    /// Returns a clone of the state with key `key`; the state must be present.
    pub fn get_value(&self, key: TypeKey) -> (r: S)
        requires
            self@.contains_key(key),
        ensures
            cloned(self@[key], r),
    {
        self.borrow(key).clone()
    }
}

impl<S: Clone> Clone for LocalStateRegistry<S> {
    /// Clones the registry with all of its state.
    fn clone(&self) -> (r: Self)
        ensures
            r@ == self@,
    {
        LocalStateRegistry { map: self.map.clone() }
    }
}

} // verus!
