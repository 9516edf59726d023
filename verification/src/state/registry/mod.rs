//! A registry for arbitrary state.
//!
//! A [`StateRegistry`] is a stack of maps from [`TypeKey`]s to state values. Lookups search the
//! stack from the top-most map downwards, so state inserted into a child registry shadows state
//! of the same key in its parents.

use std::collections::HashMap;

use vstd::prelude::*;

mod custom;
pub mod error;
pub mod laws;
pub mod local;
pub mod multi;

pub use custom::CustomState;
pub use error::{StateError, StateResult};
pub use local::LocalStateRegistry;
pub use multi::MultiStateTuple;

pub use crate::state::entry::{Entry, OccupiedEntry, VacantEntry};
use vstd::std_specs::hash::{OccupiedEntrySpecFns, VacantEntrySpecFns};

verus! {

broadcast use vstd::std_specs::hash::group_hash_axioms;

/// The key that identifies a kind of custom state.
pub type TypeKey = u64;

/// A single level of the registry stack.
pub type StateMap<S> = HashMap<TypeKey, S>;

/// The index of the first map in `s` (from the top of the stack) that contains `key`.
pub open spec fn depth_of<S>(s: Seq<Map<TypeKey, S>>, key: TypeKey) -> Option<nat>
    decreases s.len(),
{
    if s.len() == 0 {
        None
    } else if s[0].contains_key(key) {
        Some(0)
    } else {
        match depth_of(s.drop_first(), key) {
            Some(d) => Some(d + 1),
            None => None,
        }
    }
}

/// Whether any map of the stack `s` contains `key`.
pub open spec fn stack_has<S>(s: Seq<Map<TypeKey, S>>, key: TypeKey) -> bool {
    depth_of(s, key) is Some
}

/// The value that a lookup of `key` in the stack `s` finds: the value in the first map that
/// contains `key`.
pub open spec fn lookup<S>(s: Seq<Map<TypeKey, S>>, key: TypeKey) -> Option<S> {
    match depth_of(s, key) {
        Some(d) => Some(s[d as int][key]),
        None => None,
    }
}

/// The stack `s` after the map at depth `d` was replaced by `m`.
pub open spec fn replace_level<S>(s: Seq<Map<TypeKey, S>>, d: int, m: Map<TypeKey, S>) -> Seq<
    Map<TypeKey, S>,
> {
    s.update(d, m)
}

/// `depth_of` finds the first map that contains the key, and nothing else.
pub proof fn lemma_depth_of<S>(s: Seq<Map<TypeKey, S>>, key: TypeKey)
    ensures
        depth_of(s, key) matches Some(d) ==> d < s.len() && s[d as int].contains_key(key)
            && forall|j: int| 0 <= j < d ==> !#[trigger] s[j].contains_key(key),
        depth_of(s, key) is None ==> forall|j: int|
            0 <= j < s.len() ==> !#[trigger] s[j].contains_key(key),
    decreases s.len(),
{
    if s.len() > 0 {
        let t = s.drop_first();
        lemma_depth_of(t, key);
        if !s[0].contains_key(key) {
            if depth_of(t, key) is None {
                assert forall|j: int| 0 <= j < s.len() implies !#[trigger] s[j].contains_key(
                    key,
                ) by {
                    if j > 0 {
                        assert(s[j] == t[j - 1]);
                    }
                }
            } else {
                let d = depth_of(t, key)->0;
                assert forall|j: int| 0 <= j < d + 1 implies !#[trigger] s[j].contains_key(
                    key,
                ) by {
                    if j > 0 {
                        assert(s[j] == t[j - 1]);
                    }
                }
                assert(s[d + 1int] == t[d as int]);
            }
        }
    }
}

/// A characterization of `depth_of` by the first map containing the key.
pub proof fn lemma_depth_of_unique<S>(s: Seq<Map<TypeKey, S>>, key: TypeKey, d: int)
    requires
        0 <= d < s.len(),
        s[d].contains_key(key),
        forall|j: int| 0 <= j < d ==> !#[trigger] s[j].contains_key(key),
    ensures
        depth_of(s, key) == Some(d as nat),
{
    lemma_depth_of(s, key);
    if depth_of(s, key) is Some {
        let e = depth_of(s, key)->0;
        if e < d {
            assert(!s[e as int].contains_key(key));
        }
    }
}

/// A [`CustomState`]-keyed container, which provides methods to insert, access and manage
/// the contained state.
///
/// It is essentially a set of keys with a value each. The registry allows shadowing state
/// through an internal owned stack of registries: see [`insert`](Self::insert).
pub struct StateRegistry<S> {
    parent: Option<Box<StateRegistry<S>>>,
    map: StateMap<S>,
}

impl<S> View for StateRegistry<S> {
    type V = Seq<Map<TypeKey, S>>;

    /// The stack of maps, top-most first.
    closed spec fn view(&self) -> Seq<Map<TypeKey, S>> {
        self.stack()
    }
}

impl<S> StateRegistry<S> {
    closed spec fn stack(&self) -> Seq<Map<TypeKey, S>>
        decreases self,
    {
        match self.parent {
            Some(p) => seq![self.map@].add(p.stack()),
            None => seq![self.map@],
        }
    }

    proof fn lemma_view(&self)
        ensures
            self@.len() >= 1,
            self@[0] == self.map@,
            self.parent is None ==> self@.len() == 1,
            self.parent matches Some(p) ==> self@.drop_first() == p@ && self@.len() >= 2,
        decreases self,
    {
        match self.parent {
            Some(p) => {
                p.lemma_view();
                assert(self@.drop_first() =~= p@);
            },
            None => {},
        }
    }

    /// Every registry holds at least one map.
    pub proof fn lemma_nonempty(&self)
        ensures
            self@.len() >= 1,
    {
        self.lemma_view();
    }

    /// Creates an empty `StateRegistry`.
    pub fn new() -> (r: Self)
        ensures
            r@ == seq![Map::<TypeKey, S>::empty()],
    {
        StateRegistry { parent: None, map: HashMap::new() }
    }

    /// Returns the parent registry, and `None` if this is the only registry on the stack.
    pub fn parent(&self) -> (r: Option<&Self>)
        ensures
            r is Some <==> self@.len() > 1,
            r matches Some(p) ==> p@ == self@.drop_first(),
    {
        proof {
            self.lemma_view();
        }
        match &self.parent {
            Some(p) => Some(&**p),
            None => None,
        }
    }

    /// Returns the parent registry mutably, and `None` if this is the only registry on the stack.
    pub fn parent_mut(&mut self) -> (r: Option<&mut Self>)
        ensures
            r is Some <==> old(self)@.len() > 1,
            r matches Some(p) ==> p@ == old(self)@.drop_first() && final(self)@ == seq![
                old(self)@[0],
            ] + final(p)@,
            r is None ==> final(self)@ == old(self)@,
    {
        proof {
            self.lemma_view();
        }
        match &mut self.parent {
            Some(p) => Some(&mut **p),
            None => None,
        }
    }

    /// Pushes a new registry on the stack and returns it, taking ownership of the old registry.
    pub fn into_child(self) -> (r: Self)
        ensures
            r@ == seq![Map::<TypeKey, S>::empty()] + self@,
    {
        let r = StateRegistry { parent: Some(Box::new(self)), map: HashMap::new() };
        proof {
            r.lemma_view();
            assert(r@ =~= seq![Map::<TypeKey, S>::empty()] + self@);
        }
        r
    }

    /// Pops the current registry from the stack and returns it along with the parent registry.
    pub fn into_parent(self) -> (r: (Option<Self>, StateMap<S>))
        ensures
            r.1@ == self@[0],
            r.0 is Some <==> self@.len() > 1,
            r.0 matches Some(p) ==> p@ == self@.drop_first(),
    {
        proof {
            self.lemma_view();
        }
        match self.parent {
            Some(p) => (Some(*p), self.map),
            None => (None, self.map),
        }
    }

    /// Returns `true` if the top-most registry contains state with key `key`.
    ///
    /// For searching the entire stack, see [`has`](Self::has).
    pub fn contains(&self, key: TypeKey) -> (r: bool)
        ensures
            r == self@[0].contains_key(key),
    {
        proof {
            self.lemma_view();
        }
        self.map.contains_key(&key)
    }

    /// Returns a reference to the first registry which contains `key`.
    pub fn find(&self, key: TypeKey) -> (r: StateResult<&Self>)
        ensures
            r is Ok <==> stack_has(self@, key),
            r matches Ok(reg) ==> reg@ == self@.skip(depth_of(self@, key)->0 as int),
            r is Err ==> r == Err::<&Self, StateError>(StateError::NotFound(key)),
        decreases self,
    {
        proof {
            self.lemma_view();
        }
        if self.map.contains_key(&key) {
            proof {
                assert(self@.skip(0) =~= self@);
            }
            Ok(self)
        } else {
            match &self.parent {
                Some(p) => {
                    let r = p.find(key);
                    proof {
                        let s = self@;
                        lemma_depth_of(s.drop_first(), key);
                        if depth_of(s.drop_first(), key) is Some {
                            let d = depth_of(s.drop_first(), key)->0;
                            assert(s.skip(d + 1int) =~= s.drop_first().skip(d as int));
                        }
                    }
                    r
                },
                None => {
                    proof {
                        lemma_depth_of(self@, key);
                    }
                    Err(StateError::not_found(key))
                },
            }
        }
    }

    /// Returns a mutable reference to the first registry which contains `key`.
    pub fn find_mut(&mut self, key: TypeKey) -> (r: StateResult<&mut Self>)
        ensures
            r is Ok <==> stack_has(old(self)@, key),
            r matches Ok(reg) ==> {
                let d = depth_of(old(self)@, key)->0 as int;
                &&& reg@ == old(self)@.skip(d)
                &&& final(self)@ == old(self)@.take(d) + final(reg)@
            },
            r is Err ==> r == Err::<&mut Self, StateError>(StateError::NotFound(key)),
            r is Err ==> final(self)@ == old(self)@,
        decreases *old(self),
    {
        proof {
            self.lemma_view();
        }
        if self.map.contains_key(&key) {
            proof {
                assert(old(self)@.skip(0) =~= old(self)@);
                assert(old(self)@.take(0) + final(self)@ =~= final(self)@);
            }
            Ok(self)
        } else {
            match &mut self.parent {
                Some(p) => {
                    let r = p.find_mut(key);
                    proof {
                        let s = old(self)@;
                        lemma_depth_of(s.drop_first(), key);
                        if depth_of(s.drop_first(), key) is Some {
                            let d = depth_of(s.drop_first(), key)->0;
                            assert(s.skip(d + 1int) =~= s.drop_first().skip(d as int));
                            assert(s.take(d + 1int) =~= seq![s[0]] + s.drop_first().take(d as int));
                        }
                    }
                    r
                },
                None => {
                    proof {
                        lemma_depth_of(old(self)@, key);
                    }
                    Err(StateError::not_found(key))
                },
            }
        }
    }

    /// The number of registries on the stack.
    pub(crate) fn levels(&self) -> (r: usize)
        requires
            self@.len() <= usize::MAX,
        ensures
            r == self@.len(),
        decreases self,
    {
        proof {
            self.lemma_view();
        }
        match &self.parent {
            Some(p) => p.levels() + 1,
            None => 1,
        }
    }

    /// The depth of the first registry that contains `key`.
    pub(crate) fn depth(&self, key: TypeKey) -> (r: usize)
        requires
            stack_has(self@, key),
            self@.len() <= usize::MAX,
        ensures
            r == depth_of(self@, key)->0,
            r < self@.len(),
        decreases self,
    {
        proof {
            self.lemma_view();
            lemma_depth_of(self@, key);
        }
        if self.map.contains_key(&key) {
            0
        } else {
            match &self.parent {
                Some(p) => p.depth(key) + 1,
                None => vstd::pervasive::unreached(),
            }
        }
    }

    /// The registry at depth `d`, mutably.
    pub(crate) fn level_mut(&mut self, d: usize) -> (r: &mut Self)
        requires
            d < old(self)@.len(),
        ensures
            r@ == old(self)@.skip(d as int),
            final(self)@ == old(self)@.take(d as int) + final(r)@,
        decreases d,
    {
        proof {
            self.lemma_view();
        }
        if d == 0 {
            proof {
                assert(old(self)@.skip(0) =~= old(self)@);
                assert(old(self)@.take(0) + final(self)@ =~= final(self)@);
            }
            self
        } else {
            match &mut self.parent {
                Some(p) => {
                    let r = p.level_mut(d - 1);
                    proof {
                        let s = old(self)@;
                        assert(s.skip(d as int) =~= s.drop_first().skip(d - 1));
                        assert(s.take(d as int) =~= seq![s[0]] + s.drop_first().take(d - 1));
                    }
                    r
                },
                None => vstd::pervasive::unreached(),
            }
        }
    }

    /// Returns `true` if any registry on the stack contains state with key `key`.
    ///
    /// For searching only the top-most registry, see [`contains`](Self::contains).
    pub fn has(&self, key: TypeKey) -> (r: bool)
        ensures
            r == stack_has(self@, key),
    {
        self.find(key).is_ok()
    }
}


impl<S> StateRegistry<S> {
    /// Inserts into the top-most map only.
    fn top_insert(&mut self, key: TypeKey, value: S) -> (r: Option<S>)
        ensures
            final(self)@ == old(self)@.update(0, old(self)@[0].insert(key, value)),
            r == (if old(self)@[0].contains_key(key) {
                Some(old(self)@[0][key])
            } else {
                None::<S>
            }),
    {
        proof {
            self.lemma_view();
        }
        let r = self.map.insert(key, value);
        proof {
            self.lemma_view();
            assert(self@ =~= old(self)@.update(0, old(self)@[0].insert(key, value)));
        }
        r
    }

    /// Removes from the top-most map only.
    fn top_remove(&mut self, key: TypeKey) -> (r: Option<S>)
        ensures
            final(self)@ == old(self)@.update(0, old(self)@[0].remove(key)),
            r == (if old(self)@[0].contains_key(key) {
                Some(old(self)@[0][key])
            } else {
                None::<S>
            }),
    {
        proof {
            self.lemma_view();
        }
        let r = self.map.remove(&key);
        proof {
            self.lemma_view();
            assert(self@ =~= old(self)@.update(0, old(self)@[0].remove(key)));
        }
        r
    }

    /// Mutable access to the top-most map.
    fn top_map_mut(&mut self) -> (r: &mut StateMap<S>)
        ensures
            r@ == old(self)@[0],
            final(self)@ == old(self)@.update(0, final(r)@),
    {
        proof {
            self.lemma_view();
        }
        let r = &mut self.map;
        proof {
            assert(old(self)@.update(0, final(r)@) =~= seq![final(r)@] + old(self)@.drop_first());
        }
        r
    }
}


/// Splices a modified suffix back onto an unchanged prefix.
pub(crate) proof fn lemma_splice<S>(s: Seq<Map<TypeKey, S>>, d: int, m: Map<TypeKey, S>)
    requires
        0 <= d < s.len(),
    ensures
        s.take(d) + s.skip(d).update(0, m) == s.update(d, m),
{
    assert(s.take(d) + s.skip(d).update(0, m) =~= s.update(d, m));
}

impl<S> StateRegistry<S> {
    /// Inserts state into the top-most registry on the stack.
    ///
    /// If the top-most registry did not have this key present, `None` is returned; otherwise
    /// the state is updated, and the old state is returned.
    ///
    /// Any state with the same key in a registry below is *shadowed* by the newly inserted
    /// state until it is removed again or the top-most registry is popped.
    pub fn insert(&mut self, key: TypeKey, value: S) -> (r: Option<S>)
        ensures
            final(self)@ == old(self)@.update(0, old(self)@[0].insert(key, value)),
            r == (if old(self)@[0].contains_key(key) {
                Some(old(self)@[0][key])
            } else {
                None::<S>
            }),
    {
        self.top_insert(key, value)
    }

    /// Removes the state with key `key` from the first registry which contains it and returns
    /// its ownership to the caller, or `Err` if no registry contains it.
    pub fn remove(&mut self, key: TypeKey) -> (r: StateResult<S>)
        ensures
            match depth_of(old(self)@, key) {
                Some(d) => r == Ok::<S, StateError>(old(self)@[d as int][key]) && final(self)@
                    == old(self)@.update(d as int, old(self)@[d as int].remove(key)),
                None => r == Err::<S, StateError>(StateError::NotFound(key)) && final(self)@
                    == old(self)@,
            },
    {
        proof {
            lemma_depth_of(old(self)@, key);
        }
        match self.find_mut(key) {
            Ok(reg) => {
                proof {
                    reg.lemma_view();
                }
                let v = reg.top_remove(key);
                proof {
                    let d = depth_of(old(self)@, key)->0 as int;
                    lemma_splice(old(self)@, d, old(self)@[d].remove(key));
                }
                match v {
                    Some(v) => Ok(v),
                    None => Err(StateError::not_found(key)),
                }
            },
            Err(e) => Err(e),
        }
    }

    /// Removes the state with key `key` from the first registry which contains it and returns
    /// its ownership to the caller.
    ///
    /// The state must be present; for a version that reports its absence, see
    /// [`remove`](Self::remove).
    pub fn take(&mut self, key: TypeKey) -> (r: S)
        requires
            stack_has(old(self)@, key),
        ensures
            ({
                let d = depth_of(old(self)@, key)->0 as int;
                &&& 0 <= d < old(self)@.len()
                &&& r == old(self)@[d][key]
                &&& final(self)@ == old(self)@.update(d, old(self)@[d].remove(key))
            }),
    {
        proof {
            lemma_depth_of(old(self)@, key);
        }
        match self.remove(key) {
            Ok(v) => v,
            Err(_) => vstd::pervasive::unreached(),
        }
    }
}


impl<S> StateRegistry<S> {
    /// Mutable access to the state with key `key` in the top-most map only.
    fn top_get_mut(&mut self, key: TypeKey) -> (r: Option<&mut S>)
        ensures
            r is Some <==> old(self)@[0].contains_key(key),
            r matches Some(v) ==> *v == old(self)@[0][key] && final(self)@ == old(self)@.update(
                0,
                old(self)@[0].insert(key, *final(v)),
            ),
            r is None ==> final(self)@ == old(self)@,
    {
        let m = self.top_map_mut();
        let ghost m0 = m@;
        match m.entry(key) {
            std::collections::hash_map::Entry::Occupied(e) => Some(e.into_mut()),
            std::collections::hash_map::Entry::Vacant(_) => {
                proof {
                    assert(m0.remove(key) =~= m0);
                    assert(old(self)@.update(0, m0) =~= old(self)@);
                }
                None
            },
        }
    }

    /// Returns a reference to the first state with key `key` in the registry if it exists,
    /// and `Err` otherwise.
    pub fn try_borrow(&self, key: TypeKey) -> (r: StateResult<&S>)
        ensures
            r is Ok <==> stack_has(self@, key),
            r matches Ok(v) ==> *v == lookup(self@, key)->0,
            r is Err ==> r == Err::<&S, StateError>(StateError::NotFound(key)),
    {
        proof {
            lemma_depth_of(self@, key);
        }
        match self.find(key) {
            Ok(reg) => {
                proof {
                    reg.lemma_view();
                }
                match reg.map.get(&key) {
                    Some(v) => Ok(v),
                    None => Err(StateError::not_found(key)),
                }
            },
            Err(e) => Err(e),
        }
    }

    /// Returns a reference to the first state with key `key` in the registry.
    ///
    /// The state must be present; for a version that reports its absence, see
    /// [`try_borrow`](Self::try_borrow).
    pub fn borrow(&self, key: TypeKey) -> (r: &S)
        requires
            stack_has(self@, key),
        ensures
            *r == lookup(self@, key)->0,
    {
        match self.try_borrow(key) {
            Ok(v) => v,
            Err(_) => vstd::pervasive::unreached(),
        }
    }

    /// Returns a mutable reference to the first state with key `key` in the registry if it
    /// exists, and `Err` otherwise.
    pub fn try_borrow_mut(&mut self, key: TypeKey) -> (r: StateResult<&mut S>)
        ensures
            r is Ok <==> stack_has(old(self)@, key),
            r matches Ok(v) ==> {
                let d = depth_of(old(self)@, key)->0 as int;
                &&& *v == old(self)@[d][key]
                &&& final(self)@ == old(self)@.update(d, old(self)@[d].insert(key, *final(v)))
            },
            r is Err ==> r == Err::<&mut S, StateError>(StateError::NotFound(key)),
            r is Err ==> final(self)@ == old(self)@,
    {
        proof {
            lemma_depth_of(old(self)@, key);
        }
        match self.find_mut(key) {
            Ok(reg) => {
                proof {
                    reg.lemma_view();
                }
                match reg.top_get_mut(key) {
                    Some(v) => {
                        proof {
                            let d = depth_of(old(self)@, key)->0 as int;
                            lemma_splice(old(self)@, d, old(self)@[d].insert(key, *final(v)));
                        }
                        Ok(v)
                    },
                    None => Err(StateError::not_found(key)),
                }
            },
            Err(e) => Err(e),
        }
    }

    /// Returns a mutable reference to the first state with key `key` in the registry.
    ///
    /// The state must be present; for a version that reports its absence, see
    /// [`try_borrow_mut`](Self::try_borrow_mut).
    pub fn borrow_mut(&mut self, key: TypeKey) -> (r: &mut S)
        requires
            stack_has(old(self)@, key),
        ensures
            ({
                let d = depth_of(old(self)@, key)->0 as int;
                &&& *r == old(self)@[d][key]
                &&& final(self)@ == old(self)@.update(d, old(self)@[d].insert(key, *final(r)))
            }),
    {
        match self.try_borrow_mut(key) {
            Ok(v) => v,
            Err(_) => vstd::pervasive::unreached(),
        }
    }

    /// Returns a mutable reference to the first state with key `key` in the registry, or `None`
    /// if no registry contains it.
    pub fn get_mut(&mut self, key: TypeKey) -> (r: Option<&mut S>)
        ensures
            r is Some <==> stack_has(old(self)@, key),
            r matches Some(v) ==> {
                let d = depth_of(old(self)@, key)->0 as int;
                &&& *v == old(self)@[d][key]
                &&& final(self)@ == old(self)@.update(d, old(self)@[d].insert(key, *final(v)))
            },
            r is None ==> final(self)@ == old(self)@,
    {
        match self.try_borrow_mut(key) {
            Ok(v) => Some(v),
            Err(_) => None,
        }
    }

    /// Sets the first state with key `key` in the registry to `value`, and returns the previous
    /// state if it exists, and `None` otherwise.
    ///
    /// If no registry contains `key`, the state is **not** inserted and `value` is discarded.
    pub fn set_value(&mut self, key: TypeKey, value: S) -> (r: Option<S>)
        ensures
            match depth_of(old(self)@, key) {
                Some(d) => r == Some(old(self)@[d as int][key]) && final(self)@ == old(
                    self,
                )@.update(d as int, old(self)@[d as int].insert(key, value)),
                None => r is None && final(self)@ == old(self)@,
            },
    {
        match self.try_borrow_mut(key) {
            Ok(v) => {
                let mut value = value;
                std::mem::swap(v, &mut value);
                Some(value)
            },
            Err(_) => None,
        }
    }
}

impl<S: Clone> StateRegistry<S> {
    /// Returns a clone of the first state with key `key` in the registry if it exists, and
    /// `Err` otherwise.
    pub fn try_get_value(&self, key: TypeKey) -> (r: StateResult<S>)
        ensures
            r is Ok <==> stack_has(self@, key),
            r matches Ok(v) ==> cloned(lookup(self@, key)->0, v),
            r is Err ==> r == Err::<S, StateError>(StateError::NotFound(key)),
    {
        match self.try_borrow(key) {
            Ok(v) => Ok(v.clone()),
            Err(e) => Err(e),
        }
    }

    /// Returns a clone of the first state with key `key` in the registry.
    ///
    /// The state must be present; for a version that reports its absence, see
    /// [`try_get_value`](Self::try_get_value).
    pub fn get_value(&self, key: TypeKey) -> (r: S)
        requires
            stack_has(self@, key),
        ensures
            cloned(lookup(self@, key)->0, r),
    {
        self.borrow(key).clone()
    }
}


impl<S> StateRegistry<S> {
    /// Gets the entry of `key` in the registry for in-place manipulation.
    ///
    /// The entry belongs to the first registry which contains `key`, or to the top-most
    /// registry if none does. Once the entry is dropped, that registry holds for `key` exactly
    /// what the entry held last.
    pub fn entry(&mut self, key: TypeKey) -> (r: Entry<'_, S>)
        ensures
            ({
                let d = if stack_has(old(self)@, key) {
                    depth_of(old(self)@, key)->0 as int
                } else {
                    0
                };
                &&& 0 <= d < old(self)@.len()
                &&& r.key() == key
                &&& r.current() == lookup(old(self)@, key)
                &&& final(self)@ == old(self)@.update(
                    d,
                    match (match r {
                        Entry::Occupied(o) => o.base.final_value(),
                        Entry::Vacant(v) => v.base.final_value(),
                    }) {
                        Some(v) => old(self)@[d].insert(key, v),
                        None => old(self)@[d].remove(key),
                    },
                )
            }),
    {
        proof {
            self.lemma_view();
            lemma_depth_of(old(self)@, key);
        }
        if self.has(key) {
            match self.find_mut(key) {
                Ok(reg) => {
                    proof {
                        reg.lemma_view();
                    }
                    let m = reg.top_map_mut();
                    proof {
                        let d = depth_of(old(self)@, key)->0 as int;
                        assert forall|nm: Map<TypeKey, S>|
                            old(self)@.take(d) + #[trigger] old(self)@.skip(d).update(0, nm)
                                == old(self)@.update(d, nm) by {
                            lemma_splice(old(self)@, d, nm);
                        }
                    }
                    Entry::new(m.entry(key))
                },
                Err(_) => vstd::pervasive::unreached(),
            }
        } else {
            let m = self.top_map_mut();
            Entry::new(m.entry(key))
        }
    }

    /// Returns a reference to the value of the first state with key `key` in the registry if
    /// it exists, and `Err` otherwise.
    ///
    /// The value of a state is the state itself, so this is [`try_borrow`](Self::try_borrow).
    pub fn try_borrow_value(&self, key: TypeKey) -> (r: StateResult<&S>)
        ensures
            r is Ok <==> stack_has(self@, key),
            r matches Ok(v) ==> *v == lookup(self@, key)->0,
            r is Err ==> r == Err::<&S, StateError>(StateError::NotFound(key)),
    {
        self.try_borrow(key)
    }

    /// Returns a reference to the value of the first state with key `key` in the registry.
    ///
    /// The value of a state is the state itself, so this is [`borrow`](Self::borrow).
    pub fn borrow_value(&self, key: TypeKey) -> (r: &S)
        requires
            stack_has(self@, key),
        ensures
            *r == lookup(self@, key)->0,
    {
        self.borrow(key)
    }

    /// Returns a mutable reference to the value of the first state with key `key` in the
    /// registry if it exists, and `Err` otherwise.
    ///
    /// The value of a state is the state itself, so this is
    /// [`try_borrow_mut`](Self::try_borrow_mut).
    pub fn try_borrow_value_mut(&mut self, key: TypeKey) -> (r: StateResult<&mut S>)
        ensures
            r is Ok <==> stack_has(old(self)@, key),
            r matches Ok(v) ==> {
                let d = depth_of(old(self)@, key)->0 as int;
                &&& *v == old(self)@[d][key]
                &&& final(self)@ == old(self)@.update(d, old(self)@[d].insert(key, *final(v)))
            },
            r is Err ==> r == Err::<&mut S, StateError>(StateError::NotFound(key)),
            r is Err ==> final(self)@ == old(self)@,
    {
        self.try_borrow_mut(key)
    }

    /// Returns a mutable reference to the value of the first state with key `key` in the
    /// registry.
    ///
    /// The value of a state is the state itself, so this is [`borrow_mut`](Self::borrow_mut).
    pub fn borrow_value_mut(&mut self, key: TypeKey) -> (r: &mut S)
        requires
            stack_has(old(self)@, key),
        ensures
            ({
                let d = depth_of(old(self)@, key)->0 as int;
                &&& *r == old(self)@[d][key]
                &&& final(self)@ == old(self)@.update(d, old(self)@[d].insert(key, *final(r)))
            }),
    {
        self.borrow_mut(key)
    }
}

} // verus!
