//! State management: registries of custom state shared by components.
//!
//! The [`State`] acts as a shared variable storage (blackboard), which supports inserting,
//! reading, writing, and removing custom state. It is a thin wrapper around
//! [`StateRegistry`].

use vstd::prelude::*;

pub mod archive;
pub mod common;
pub mod container;
pub mod entry;
pub mod extract;
pub mod lens;
pub mod multi;
pub mod pso;
pub mod registry;
mod require;

pub use registry::{CustomState, StateError, StateRegistry, StateResult};

use container::{bottom_index, holding_pre, put_back};
pub use require::StateReq;

verus! {

/// Runtime state of a metaheuristic: a [`StateRegistry`] of custom state.
pub struct State<S> {
    registry: StateRegistry<S>,
}

impl<S> State<S> {
    /// The registry that the state wraps.
    pub closed spec fn spec_registry(&self) -> StateRegistry<S> {
        self.registry
    }

    /// Creates a new, empty `State`.
    pub fn new() -> (r: Self)
        ensures
            r.spec_registry()@ == seq![Map::<registry::TypeKey, S>::empty()],
    {
        State { registry: StateRegistry::new() }
    }

    /// Wraps an existing registry.
    pub fn from_registry(registry: StateRegistry<S>) -> (r: Self)
        ensures
            r.spec_registry() == registry,
    {
        State { registry }
    }

    /// Unwraps the registry.
    pub fn into_registry(self) -> (r: StateRegistry<S>)
        ensures
            r == self.spec_registry(),
    {
        self.registry
    }

    /// The registry of the state.
    pub fn registry(&self) -> (r: &StateRegistry<S>)
        ensures
            *r == self.spec_registry(),
    {
        &self.registry
    }

    /// The registry of the state, mutably.
    pub fn registry_mut(&mut self) -> (r: &mut StateRegistry<S>)
        ensures
            *r == old(self).spec_registry(),
            final(self).spec_registry() == *final(r),
    {
        &mut self.registry
    }

    /// Enables checking if specific custom state is present in the state.
    pub(crate) fn requirements(&self) -> (r: StateReq<'_, S>)
        ensures
            r.state() == self,
    {
        StateReq::new(self)
    }

    /// Calls `f` with a child state, which is discarded afterwards.
    ///
    /// Only the child's own registry is discarded, whether `f` succeeds or fails: the state
    /// keeps the changes `f` made to the registries below it, and `f`'s result is returned.
    /// `f` must leave the child a child, i.e. with its parent registry.
    pub fn with_inner_state<E, F: FnOnce(&mut Self) -> Result<(), E>>(&mut self, f: F) -> (r:
        Result<(), E>)
        requires
            forall|c: &mut Self|
                (*c).spec_registry()@ == seq![Map::<registry::TypeKey, S>::empty()] + old(
                    self,
                ).spec_registry()@ ==> f.requires((c,)),
            forall|c: &mut Self, res: Result<(), E>|
                #![trigger f.ensures((c,), res)]
                (*c).spec_registry()@ == seq![Map::<registry::TypeKey, S>::empty()] + old(
                    self,
                ).spec_registry()@ && f.ensures((c,), res) ==> final(c).spec_registry()@.len()
                    >= 2,
        ensures
            exists|c: &mut Self|
                #![trigger f.ensures((c,), r)]
                (*c).spec_registry()@ == seq![Map::<registry::TypeKey, S>::empty()] + old(
                    self,
                ).spec_registry()@ && f.ensures((c,), r) && final(self).spec_registry()@
                    == final(c).spec_registry()@.drop_first(),
    {
        let mut registry = StateRegistry::new();
        std::mem::swap(&mut self.registry, &mut registry);
        let mut state = State { registry: registry.into_child() };
        proof {
            assert(state.spec_registry()@ == seq![Map::<registry::TypeKey, S>::empty()] + old(
                self,
            ).spec_registry()@);
        }
        let res = f(&mut state);
        let (registry, _) = state.registry.into_parent();
        match registry {
            Some(registry) => {
                self.registry = registry;
            },
            None => vstd::pervasive::unreached(),
        }
        res
    }
}

impl<S> State<S> {
    /// Gives `f` the state with key `key` and the remaining state mutably at the same time:
    /// the state is taken out of the first registry that holds it, handed to `f` along with
    /// the state, and put back into that registry afterwards.
    ///
    /// The registry is found again by its position from the bottom of the stack. If the state
    /// does not exist, or the registry it belongs to is gone after `f`, the error is
    /// `NotFound(key)`. If `f` fails, the state is put back all the same and `f`'s error is
    /// returned.
    pub fn holding<E: From<StateError>, F: FnOnce(&mut S, &mut Self) -> Result<(), E>>(
        &mut self,
        key: registry::TypeKey,
        f: F,
    ) -> (r: Result<(), E>)
        requires
            old(self).spec_registry()@.len() <= usize::MAX,
            forall|t: &mut S, st: &mut Self|
                #![trigger f.requires((t, st))]
                holding_pre(old(self).spec_registry()@, key, *t, (*st).spec_registry()@)
                    ==> f.requires((t, st)),
            forall|t: &mut S, st: &mut Self, res: Result<(), E>|
                #![trigger f.ensures((t, st), res)]
                holding_pre(old(self).spec_registry()@, key, *t, (*st).spec_registry()@)
                    && f.ensures((t, st), res) ==> final(st).spec_registry()@.len() <= usize::MAX,
        ensures
            !registry::stack_has(old(self).spec_registry()@, key) ==> {
                &&& r matches Err(e) && call_ensures(E::from, (StateError::NotFound(key),), e)
                &&& final(self).spec_registry()@ == old(self).spec_registry()@
            },
            registry::stack_has(old(self).spec_registry()@, key) ==> exists|
                t: &mut S,
                st: &mut Self,
                res: Result<(), E>,
            |
                #![trigger f.ensures((t, st), res)]
                {
                    let b = bottom_index(old(self).spec_registry()@, key);
                    let after = final(st).spec_registry()@;
                    &&& holding_pre(old(self).spec_registry()@, key, *t, (*st).spec_registry()@)
                    &&& f.ensures((t, st), res)
                    &&& res is Err ==> r == res
                    &&& b < after.len() ==> final(self).spec_registry()@ == put_back(
                        after,
                        b,
                        key,
                        *final(t),
                    )
                    &&& b >= after.len() ==> final(self).spec_registry()@ == after
                    &&& res is Ok && b < after.len() ==> r is Ok
                    &&& res is Ok && b >= after.len() ==> (r matches Err(e) && call_ensures(
                        E::from,
                        (StateError::NotFound(key),),
                        e,
                    ))
                },
    {
        if !self.registry.has(key) {
            return Err(E::from(StateError::NotFound(key)));
        }
        proof {
            registry::lemma_depth_of(old(self).spec_registry()@, key);
        }
        let levels = self.registry.levels();
        let d = self.registry.depth(key);
        let b = levels - 1 - d;
        let mut instance = self.registry.take(key);
        proof {
            assert(holding_pre(old(self).spec_registry()@, key, instance, self.spec_registry()@));
        }
        let res = f(&mut instance, self);
        let levels_after = self.registry.levels();
        if levels_after <= b {
            if res.is_err() {
                return res;
            }
            return Err(E::from(StateError::NotFound(key)));
        }
        let d_after = levels_after - 1 - b;
        let ghost mid = self.spec_registry()@;
        let reg = self.registry.level_mut(d_after);
        proof {
            reg.lemma_nonempty();
        }
        reg.insert(key, instance);
        proof {
            registry::lemma_splice(mid, d_after as int, mid[d_after as int].insert(key, instance));
        }
        res
    }
}

/// The stack of maps `s` after the first `i` of the states with keys `keys` were taken out of
/// the maps at the depths where `s` holds them.
pub open spec fn taken_all<S>(
    s: Seq<Map<registry::TypeKey, S>>,
    keys: Seq<registry::TypeKey>,
    i: nat,
) -> Seq<Map<registry::TypeKey, S>>
    decreases i,
{
    if i == 0 || i > keys.len() {
        s
    } else {
        let t = taken_all(s, keys, (i - 1) as nat);
        let d = registry::depth_of(s, keys[i - 1])->0 as int;
        t.update(d, t[d].remove(keys[i - 1]))
    }
}

/// The stack of maps `t` after the states `values` with the keys `keys`, from position `k` on,
/// were put back into the maps at the depths where `s` held them.
pub open spec fn put_back_from<S>(
    t: Seq<Map<registry::TypeKey, S>>,
    s: Seq<Map<registry::TypeKey, S>>,
    keys: Seq<registry::TypeKey>,
    values: Seq<S>,
    k: nat,
) -> Seq<Map<registry::TypeKey, S>>
    decreases keys.len() - k,
{
    if k >= keys.len() {
        t
    } else {
        let u = put_back_from(t, s, keys, values, k + 1);
        let d = registry::depth_of(s, keys[k as int])->0 as int;
        u.update(d, u[d].insert(keys[k as int], values[k as int]))
    }
}

/// What [`State::holding_multiple`] hands its closure: the states `v` of the keys `keys`, in
/// order, and the stack `st` they were taken out of.
pub open spec fn holding_multiple_pre<S>(
    s: Seq<Map<registry::TypeKey, S>>,
    keys: Seq<registry::TypeKey>,
    v: Seq<S>,
    st: Seq<Map<registry::TypeKey, S>>,
) -> bool {
    &&& v.len() == keys.len()
    &&& forall|i: int| 0 <= i < keys.len() ==> #[trigger] v[i] == registry::lookup(s, keys[i])->0
    &&& st == taken_all(s, keys, keys.len())
}

impl<S> State<S> {
    /// Gives `f` the states with the keys `keys` and the remaining state mutably at the same
    /// time: the states are taken out of the registries that hold them, handed to `f` in the
    /// order of `keys` along with the state, and put back into those registries afterwards,
    /// whether `f` succeeds or fails.
    ///
    /// Naming a key twice is the error `MultipleBorrowConflict`, and a missing state the error
    /// `NotFound` of the first key whose state is missing; the state is left unchanged then.
    /// `f` must keep the number of states it is handed, and the number of registries.
    pub fn holding_multiple<E: From<StateError>, F: FnOnce(&mut Vec<S>, &mut Self) -> Result<(), E>>(
        &mut self,
        keys: &[registry::TypeKey],
        f: F,
    ) -> (r: Result<(), E>)
        requires
            old(self).spec_registry()@.len() <= usize::MAX,
            forall|v: &mut Vec<S>, st: &mut Self|
                #![trigger f.requires((v, st))]
                holding_multiple_pre(old(self).spec_registry()@, keys@, (*v)@, (*st).spec_registry()@)
                    ==> f.requires((v, st)),
            forall|v: &mut Vec<S>, st: &mut Self, res: Result<(), E>|
                #![trigger f.ensures((v, st), res)]
                holding_multiple_pre(old(self).spec_registry()@, keys@, (*v)@, (*st).spec_registry()@)
                    && f.ensures((v, st), res) ==> final(v)@.len() == keys@.len()
                    && final(st).spec_registry()@.len() == old(self).spec_registry()@.len(),
        ensures
            !keys@.no_duplicates() ==> {
                &&& r matches Err(e) && call_ensures(E::from, (StateError::MultipleBorrowConflict,), e)
                &&& final(self).spec_registry()@ == old(self).spec_registry()@
            },
            keys@.no_duplicates() && (exists|j: int| 0 <= j < keys@.len() && !registry::stack_has(
                old(self).spec_registry()@,
                #[trigger] keys@[j],
            )) ==> {
                &&& final(self).spec_registry()@ == old(self).spec_registry()@
                &&& exists|j: int|
                    0 <= j < keys@.len() && !registry::stack_has(old(self).spec_registry()@, #[trigger] keys@[j])
                        && (forall|i: int| 0 <= i < j ==> registry::stack_has(old(self).spec_registry()@, keys@[i]))
                        && (r matches Err(e) && call_ensures(E::from, (StateError::NotFound(keys@[j]),), e))
            },
            keys@.no_duplicates() && (forall|j: int| 0 <= j < keys@.len() ==> registry::stack_has(
                old(self).spec_registry()@,
                #[trigger] keys@[j],
            )) ==> exists|v: &mut Vec<S>, st: &mut Self, res: Result<(), E>|
                #![trigger f.ensures((v, st), res)]
                {
                    &&& holding_multiple_pre(old(self).spec_registry()@, keys@, (*v)@, (*st).spec_registry()@)
                    &&& f.ensures((v, st), res)
                    &&& r == res
                    &&& final(self).spec_registry()@ == put_back_from(
                        final(st).spec_registry()@,
                        old(self).spec_registry()@,
                        keys@,
                        final(v)@,
                        0,
                    )
                },
    {
        let ghost s = old(self).spec_registry()@;
        let n = keys.len();
        if !registry::multi::all_distinct(keys) {
            return Err(E::from(StateError::MultipleBorrowConflict));
        }
        let mut i: usize = 0;
        while i < n
            invariant
                i <= n,
                n == keys@.len(),
                s == self.spec_registry()@,
                keys@.no_duplicates(),
                forall|j: int| 0 <= j < i ==> registry::stack_has(s, #[trigger] keys@[j]),
            decreases n - i,
        {
            if !self.registry.has(keys[i]) {
                return Err(E::from(StateError::NotFound(keys[i])));
            }
            i = i + 1;
        }
        let (depths, mut values) = self.registry.take_all(keys);
        proof {
            assert(holding_multiple_pre(s, keys@, values@, self.spec_registry()@));
        }
        let res = f(&mut values, self);
        self.registry.put_all_back(keys, &depths, values, Ghost(s));
        res
    }
}

} // verus!
