//! The entry API of a hash map, for a [`StateRegistry`](crate::StateRegistry).
//!
//! An entry is a view into a single key of one registry on the stack. Its contracts speak of
//! the key, the state it currently holds, and the state it holds once the entry is dropped:
//! the latter is what the registry holds for the key afterwards (see
//! [`StateRegistry::entry`](crate::StateRegistry::entry)).

use std::collections::hash_map;

use vstd::prelude::*;
use vstd::std_specs::hash::{OccupiedEntrySpecFns, VacantEntrySpecFns};

use crate::state::registry::TypeKey;

verus! {

/// `f` may be called on a mutable reference to a state equal to `v`.
pub open spec fn modify_requires<S, F: FnOnce(&mut S)>(f: F, v: S) -> bool {
    forall|r: &mut S| *r == v ==> f.requires((r,))
}

/// A view into a single entry in a state registry, which may either be vacant or occupied.
///
/// This `enum` is constructed from the [`entry`](crate::StateRegistry::entry) method on
/// [`StateRegistry`](crate::StateRegistry).
pub enum Entry<'a, S> {
    Occupied(OccupiedEntry<'a, S>),
    Vacant(VacantEntry<'a, S>),
}

/// A view into an occupied entry in a [`StateRegistry`](crate::StateRegistry).
pub struct OccupiedEntry<'a, S> {
    pub base: hash_map::OccupiedEntry<'a, TypeKey, S>,
}

/// A view into a vacant entry in a [`StateRegistry`](crate::StateRegistry).
pub struct VacantEntry<'a, S> {
    pub base: hash_map::VacantEntry<'a, TypeKey, S>,
}

impl<'a, S> Entry<'a, S> {
    /// The key of the entry.
    pub open spec fn key(self) -> TypeKey {
        match self {
            Entry::Occupied(o) => o.base.spec_key(),
            Entry::Vacant(v) => v.base.spec_key(),
        }
    }

    /// The state that the entry currently holds, if any.
    pub open spec fn current(self) -> Option<S> {
        match self {
            Entry::Occupied(o) => Some(o.base.value()),
            Entry::Vacant(_) => None,
        }
    }

    /// Wraps an entry of the underlying map.
    pub(crate) fn new(entry: hash_map::Entry<'a, TypeKey, S>) -> (r: Self)
        ensures
            match entry {
                hash_map::Entry::Occupied(o) => r matches Entry::Occupied(e) && e.base == o,
                hash_map::Entry::Vacant(v) => r matches Entry::Vacant(e) && e.base == v,
            },
    {
        match entry {
            hash_map::Entry::Occupied(base) => Entry::Occupied(OccupiedEntry { base }),
            hash_map::Entry::Vacant(base) => Entry::Vacant(VacantEntry { base }),
        }
    }

    /// Provides in-place mutable access to an occupied entry before any potential inserts into
    /// the registry.
    pub fn and_modify<F: FnOnce(&mut S)>(self, f: F) -> (r: Self)
        requires
            self matches Entry::Occupied(o) ==> modify_requires(f, o.base.value()),
        ensures
            match self {
                Entry::Occupied(o) => r matches Entry::Occupied(p) && p.base.spec_key()
                    == o.base.spec_key() && p.base.final_value() == o.base.final_value()
                    && exists|m: &mut S|
                    *m == o.base.value() && *final(m) == p.base.value() && f.ensures((m,), ()),
                Entry::Vacant(_) => r == self,
            },
    {
        match self {
            Entry::Occupied(mut entry) => {
                f(entry.get_mut());
                Entry::Occupied(entry)
            },
            Entry::Vacant(entry) => Entry::Vacant(entry),
        }
    }

    /// Provides in-place mutable access to the value of an occupied entry before any potential
    /// inserts into the registry.
    ///
    /// The value of a state is the state itself, so this is [`and_modify`](Self::and_modify).
    pub fn and_modify_value<F: FnOnce(&mut S)>(self, f: F) -> (r: Self)
        requires
            self matches Entry::Occupied(o) ==> modify_requires(f, o.base.value()),
        ensures
            match self {
                Entry::Occupied(o) => r matches Entry::Occupied(p) && p.base.spec_key()
                    == o.base.spec_key() && p.base.final_value() == o.base.final_value()
                    && exists|m: &mut S|
                    *m == o.base.value() && *final(m) == p.base.value() && f.ensures((m,), ()),
                Entry::Vacant(_) => r == self,
            },
    {
        self.and_modify(f)
    }

    /// Ensures the entry holds state by inserting the result of `default` if it is vacant, and
    /// returns a mutable reference to the state in the entry.
    pub fn or_insert_with<F: FnOnce() -> S>(self, default: F) -> (r: &'a mut S)
        requires
            self is Vacant ==> default.requires(()),
        ensures
            match self {
                Entry::Occupied(o) => *r == o.base.value() && o.base.final_value() == Some(
                    *final(r),
                ),
                Entry::Vacant(v) => default.ensures((), *r) && v.base.final_value() == Some(
                    *final(r),
                ),
            },
    {
        match self {
            Entry::Occupied(entry) => entry.into_mut(),
            Entry::Vacant(entry) => entry.insert(default()),
        }
    }

    /// Ensures the entry holds state by inserting `default` if it is vacant, and returns a
    /// mutable reference to the state in the entry.
    pub fn or_insert(self, default: S) -> (r: &'a mut S)
        ensures
            match self {
                Entry::Occupied(o) => *r == o.base.value() && o.base.final_value() == Some(
                    *final(r),
                ),
                Entry::Vacant(v) => *r == default && v.base.final_value() == Some(*final(r)),
            },
    {
        match self {
            Entry::Occupied(entry) => entry.into_mut(),
            Entry::Vacant(entry) => entry.insert(default),
        }
    }
}

impl<'a, S: Default> Entry<'a, S> {
    /// Ensures the entry holds state by inserting the default state if it is vacant, and
    /// returns a mutable reference to the state in the entry.
    pub fn or_default(self) -> (r: &'a mut S)
        ensures
            match self {
                Entry::Occupied(o) => *r == o.base.value() && o.base.final_value() == Some(
                    *final(r),
                ),
                Entry::Vacant(v) => call_ensures(S::default, (), *r) && v.base.final_value()
                    == Some(*final(r)),
            },
    {
        match self {
            Entry::Occupied(entry) => entry.into_mut(),
            Entry::Vacant(entry) => entry.insert(S::default()),
        }
    }
}

impl<'a, S> OccupiedEntry<'a, S> {
    /// Gets a reference to the state in the entry.
    pub fn get(&self) -> (r: &S)
        ensures
            *r == self.base.value(),
    {
        self.base.get()
    }

    /// Gets a mutable reference to the state in the entry.
    ///
    /// The entry stays usable after the reference is dropped; see
    /// [`into_mut`](Self::into_mut) for a reference bound to the registry itself.
    pub fn get_mut(&mut self) -> (r: &mut S)
        ensures
            *r == old(self).base.value(),
            final(self).base.spec_key() == old(self).base.spec_key(),
            final(self).base.value() == *final(r),
            final(self).base.final_value() == old(self).base.final_value(),
    {
        self.base.get_mut()
    }

    /// Converts the entry into a mutable reference to the state in the entry, with a lifetime
    /// bound to the registry itself.
    pub fn into_mut(self) -> (r: &'a mut S)
        ensures
            *r == self.base.value(),
            self.base.final_value() == Some(*final(r)),
    {
        self.base.into_mut()
    }

    /// Sets the state of the entry, and returns the entry's old state.
    pub fn insert(&mut self, value: S) -> (r: S)
        ensures
            r == old(self).base.value(),
            final(self).base.spec_key() == old(self).base.spec_key(),
            final(self).base.value() == value,
            final(self).base.final_value() == old(self).base.final_value(),
    {
        self.base.insert(value)
    }

    /// Takes the state out of the entry, and returns it.
    pub fn remove(self) -> (r: S)
        ensures
            r == self.base.value(),
            self.base.final_value() == None::<S>,
    {
        self.base.remove()
    }
}

impl<'a, S> VacantEntry<'a, S> {
    /// Sets the state of the entry, and returns a mutable reference to it.
    pub fn insert(self, value: S) -> (r: &'a mut S)
        ensures
            *r == value,
            self.base.final_value() == Some(*final(r)),
    {
        self.base.insert(value)
    }
}

} // verus!
