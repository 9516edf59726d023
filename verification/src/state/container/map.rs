//! The map of one level of a [`State`](crate::state::container::State).

use std::collections::BTreeMap;

use vstd::prelude::*;

use crate::state::registry::TypeKey;

verus! {

broadcast use vstd::std_specs::btree::group_btree_axioms;

/// Gives mutable access to the value stored under `key`, or `None` if there is none.
///
/// Trusted: `BTreeMap::get_mut` has no specification in vstd. The contract states what the
/// standard library documents: the result is `Some` exactly when the map holds `key`, it
/// refers to the stored value, and writing through it changes that value and nothing else.
#[verifier::external_body]
fn btree_get_mut<S>(map: &mut BTreeMap<TypeKey, S>, key: TypeKey) -> (r: Option<&mut S>)
    ensures
        r is Some <==> old(map)@.contains_key(key),
        r matches Some(v) ==> *v == old(map)@[key] && final(map)@ == old(map)@.insert(
            key,
            *final(v),
        ),
        r is None ==> final(map)@ == old(map)@,
{
    map.get_mut(&key)
}

/// Stores custom state, indexed by [`TypeKey`].
pub struct StateMap<S> {
    map: BTreeMap<TypeKey, S>,
}

impl<S> View for StateMap<S> {
    type V = Map<TypeKey, S>;

    closed spec fn view(&self) -> Map<TypeKey, S> {
        self.map@
    }
}

impl<S> StateMap<S> {
    /// Creates an empty map.
    pub(crate) fn new() -> (r: Self)
        ensures
            r@ == Map::<TypeKey, S>::empty(),
    {
        StateMap { map: BTreeMap::new() }
    }

    /// Inserts state, overriding existing state with the same key.
    pub fn insert(&mut self, key: TypeKey, state: S)
        ensures
            final(self)@ == old(self)@.insert(key, state),
    {
        self.map.insert(key, state);
    }

    /// Checks whether state with key `key` exists.
    pub fn has(&self, key: TypeKey) -> (r: bool)
        ensures
            r == self@.contains_key(key),
    {
        self.map.contains_key(&key)
    }

    /// Returns the state with key `key`, which must exist.
    pub fn get(&self, key: TypeKey) -> (r: &S)
        requires
            self@.contains_key(key),
        ensures
            *r == self@[key],
    {
        match self.map.get(&key) {
            Some(v) => v,
            None => vstd::pervasive::unreached(),
        }
    }

    /// Returns the state with key `key` mutably; it must exist.
    pub fn get_mut(&mut self, key: TypeKey) -> (r: &mut S)
        requires
            old(self)@.contains_key(key),
        ensures
            *r == old(self)@[key],
            final(self)@ == old(self)@.insert(key, *final(r)),
    {
        match btree_get_mut(&mut self.map, key) {
            Some(v) => v,
            None => vstd::pervasive::unreached(),
        }
    }

    /// Removes the state with key `key`, which must exist, and returns it.
    pub(crate) fn take(&mut self, key: TypeKey) -> (r: S)
        requires
            old(self)@.contains_key(key),
        ensures
            r == old(self)@[key],
            final(self)@ == old(self)@.remove(key),
    {
        match self.map.remove(&key) {
            Some(v) => v,
            None => vstd::pervasive::unreached(),
        }
    }
}

impl<S: Default> StateMap<S> {
    /// Returns the state with key `key` mutably, inserting the default state first if there
    /// is none.
    pub fn get_or_insert_default(&mut self, key: TypeKey) -> (r: &mut S)
        ensures
            old(self)@.contains_key(key) ==> *r == old(self)@[key],
            !old(self)@.contains_key(key) ==> call_ensures(S::default, (), *r),
            final(self)@ == old(self)@.insert(key, *final(r)),
    {
        if !self.map.contains_key(&key) {
            self.map.insert(key, S::default());
        }
        let ghost m1 = self.map@;
        proof {
            assert forall|x: S| #[trigger] m1.insert(key, x) == old(self)@.insert(key, x) by {
                assert(m1.insert(key, x) =~= old(self)@.insert(key, x));
            }
        }
        match btree_get_mut(&mut self.map, key) {
            Some(v) => v,
            None => vstd::pervasive::unreached(),
        }
    }
}

} // verus!
