//! A stack of state maps, where access to missing state is a caller error.
//!
//! [`State`] holds a [`StateMap`] and, optionally, the parent `State` it was opened in.
//! Lookups search from the innermost map outwards. Unlike
//! [`StateRegistry`](crate::StateRegistry), the accessors here require the state to be present.

use vstd::prelude::*;

pub mod map;

pub use map::StateMap;
pub use crate::state::registry::CustomState;

use crate::state::registry::multi::MultiStateTuple;
use crate::state::registry::{
    depth_of, lemma_depth_of, lemma_depth_of_unique, lookup, stack_has, TypeKey,
};
use crate::state::{put_back_from, taken_all};

verus! {

/// Container for storing and managing state.
pub struct State<S> {
    parent: Option<Box<State<S>>>,
    map: StateMap<S>,
}

impl<S> View for State<S> {
    type V = Seq<Map<TypeKey, S>>;

    /// The stack of maps, innermost first.
    closed spec fn view(&self) -> Seq<Map<TypeKey, S>> {
        self.stack()
    }
}

/// Splices a modified suffix back onto an unchanged prefix.
proof fn lemma_splice<S>(s: Seq<Map<TypeKey, S>>, d: int, m: Map<TypeKey, S>)
    requires
        0 <= d < s.len(),
    ensures
        s.take(d) + s.skip(d).update(0, m) == s.update(d, m),
{
    assert(s.take(d) + s.skip(d).update(0, m) =~= s.update(d, m));
}

/// Where a state of key `key` was taken from the stack `s`, counted from the bottom of the
/// stack.
pub open spec fn bottom_index<S>(s: Seq<Map<TypeKey, S>>, key: TypeKey) -> int {
    s.len() - 1 - depth_of(s, key)->0
}

/// What [`State::holding`] hands its closure: the state `t` of key `key`, and the stack `st`
/// it was taken out of.
pub open spec fn holding_pre<S>(s: Seq<Map<TypeKey, S>>, key: TypeKey, t: S, st: Seq<Map<TypeKey, S>>) -> bool {
    let d = depth_of(s, key)->0 as int;
    &&& t == s[d][key]
    &&& st == s.update(d, s[d].remove(key))
}

/// The stack `s` after the state `t` of key `key` was put back into the map at position `b`
/// from the bottom.
pub open spec fn put_back<S>(s: Seq<Map<TypeKey, S>>, b: int, key: TypeKey, t: S) -> Seq<Map<TypeKey, S>> {
    let d = s.len() - 1 - b;
    s.update(d, s[d].insert(key, t))
}

impl<S> State<S> {
    closed spec fn stack(&self) -> Seq<Map<TypeKey, S>>
        decreases self,
    {
        match self.parent {
            Some(p) => seq![self.map@].add(p.stack()),
            None => seq![self.map@],
        }
    }

    proof fn lemma_view(&self)
        ensures
            self@.len() >= 1,
            self@[0] == self.map@,
            self.parent is None ==> self@.len() == 1,
            self.parent matches Some(p) ==> self@.drop_first() == p@ && self@.len() >= 2,
        decreases self,
    {
        match self.parent {
            Some(p) => {
                p.lemma_view();
                assert(self@.drop_first() =~= p@);
            },
            None => {},
        }
    }

    /// Every state holds at least one map.
    pub proof fn lemma_nonempty(&self)
        ensures
            self@.len() >= 1,
    {
        self.lemma_view();
    }

    /// Creates a new state container.
    pub fn new() -> (r: Self)
        ensures
            r@ == seq![Map::<TypeKey, S>::empty()],
    {
        State { parent: None, map: StateMap::new() }
    }

    /// Runs a closure within a new scope: `fun` receives a child state, whose innermost map
    /// is discarded afterwards.
    ///
    /// `fun` must leave the child state a child, i.e. with a parent.
    pub fn with_substate<F: FnOnce(&mut State<S>)>(&mut self, fun: F)
        requires
            forall|r: &mut State<S>|
                (*r)@ == seq![Map::<TypeKey, S>::empty()] + old(self)@ ==> fun.requires((r,)),
            forall|r: &mut State<S>|
                #![trigger fun.ensures((r,), ())]
                (*r)@ == seq![Map::<TypeKey, S>::empty()] + old(self)@ && fun.ensures((r,), ())
                    ==> final(r)@.len() >= 2,
        ensures
            exists|r: &mut State<S>|
                (*r)@ == seq![Map::<TypeKey, S>::empty()] + old(self)@ && fun.ensures((r,), ())
                    && final(self)@ == final(r)@.drop_first(),
    {
        let mut outer = State::new();
        std::mem::swap(self, &mut outer);
        let mut substate = State { parent: Some(Box::new(outer)), map: StateMap::new() };
        proof {
            substate.lemma_view();
            assert(substate@ =~= seq![Map::<TypeKey, S>::empty()] + old(self)@);
        }
        fun(&mut substate);
        proof {
            substate.lemma_view();
        }
        match substate.parent {
            Some(p) => {
                *self = *p;
            },
            None => vstd::pervasive::unreached(),
        }
    }

    /// Returns the parent state.
    pub fn parent(&self) -> (r: Option<&Self>)
        ensures
            r is Some <==> self@.len() > 1,
            r matches Some(p) ==> p@ == self@.drop_first(),
    {
        proof {
            self.lemma_view();
        }
        match &self.parent {
            Some(p) => Some(&**p),
            None => None,
        }
    }

    /// Returns the mutable parent state.
    pub fn parent_mut(&mut self) -> (r: Option<&mut Self>)
        ensures
            r is Some <==> old(self)@.len() > 1,
            r matches Some(p) ==> p@ == old(self)@.drop_first() && final(self)@ == seq![
                old(self)@[0],
            ] + final(p)@,
            r is None ==> final(self)@ == old(self)@,
    {
        proof {
            self.lemma_view();
        }
        match &mut self.parent {
            Some(p) => Some(&mut **p),
            None => None,
        }
    }

    /// Inserts new state into the innermost map, overriding existing state there.
    pub fn insert(&mut self, key: TypeKey, state: S)
        ensures
            final(self)@ == old(self)@.update(0, old(self)@[0].insert(key, state)),
    {
        proof {
            self.lemma_view();
        }
        self.map.insert(key, state);
        proof {
            self.lemma_view();
            assert(self@ =~= old(self)@.update(0, old(self)@[0].insert(key, state)));
        }
    }

    /// Tries to find the state whose map contains `key`.
    fn find(&self, key: TypeKey) -> (r: Option<&Self>)
        ensures
            r is Some <==> stack_has(self@, key),
            r matches Some(st) ==> st@ == self@.skip(depth_of(self@, key)->0 as int),
        decreases self,
    {
        proof {
            self.lemma_view();
        }
        if self.map.has(key) {
            proof {
                assert(self@.skip(0) =~= self@);
            }
            Some(self)
        } else {
            match &self.parent {
                Some(p) => {
                    let r = p.find(key);
                    proof {
                        let s = self@;
                        lemma_depth_of(s.drop_first(), key);
                        if depth_of(s.drop_first(), key) is Some {
                            let d = depth_of(s.drop_first(), key)->0;
                            assert(s.skip(d + 1int) =~= s.drop_first().skip(d as int));
                        }
                    }
                    r
                },
                None => {
                    proof {
                        lemma_depth_of(self@, key);
                    }
                    None
                },
            }
        }
    }

    /// Tries to find the state whose map contains `key`, mutably.
    fn find_mut(&mut self, key: TypeKey) -> (r: Option<&mut Self>)
        ensures
            r is Some <==> stack_has(old(self)@, key),
            r matches Some(st) ==> {
                let d = depth_of(old(self)@, key)->0 as int;
                &&& st@ == old(self)@.skip(d)
                &&& final(self)@ == old(self)@.take(d) + final(st)@
            },
            r is None ==> final(self)@ == old(self)@,
        decreases *old(self),
    {
        proof {
            self.lemma_view();
        }
        if self.map.has(key) {
            proof {
                assert(old(self)@.skip(0) =~= old(self)@);
                assert(old(self)@.take(0) + final(self)@ =~= final(self)@);
            }
            Some(self)
        } else {
            match &mut self.parent {
                Some(p) => {
                    let r = p.find_mut(key);
                    proof {
                        let s = old(self)@;
                        lemma_depth_of(s.drop_first(), key);
                        if depth_of(s.drop_first(), key) is Some {
                            let d = depth_of(s.drop_first(), key)->0;
                            assert(s.skip(d + 1int) =~= s.drop_first().skip(d as int));
                            assert(s.take(d + 1int) =~= seq![s[0]] + s.drop_first().take(d as int));
                        }
                    }
                    r
                },
                None => {
                    proof {
                        lemma_depth_of(old(self)@, key);
                    }
                    None
                },
            }
        }
    }

    /// The number of maps on the stack.
    fn levels(&self) -> (r: usize)
        requires
            self@.len() <= usize::MAX,
        ensures
            r == self@.len(),
        decreases self,
    {
        proof {
            self.lemma_view();
        }
        match &self.parent {
            Some(p) => p.levels() + 1,
            None => 1,
        }
    }

    /// The depth of the innermost map that contains `key`.
    fn depth(&self, key: TypeKey) -> (r: usize)
        requires
            stack_has(self@, key),
            self@.len() <= usize::MAX,
        ensures
            r == depth_of(self@, key)->0,
            r < self@.len(),
        decreases self,
    {
        proof {
            self.lemma_view();
            lemma_depth_of(self@, key);
        }
        if self.map.has(key) {
            0
        } else {
            match &self.parent {
                Some(p) => p.depth(key) + 1,
                None => vstd::pervasive::unreached(),
            }
        }
    }

    /// The state whose innermost map is the map at depth `d`, mutably.
    fn level_mut(&mut self, d: usize) -> (r: &mut Self)
        requires
            d < old(self)@.len(),
        ensures
            r@ == old(self)@.skip(d as int),
            final(self)@ == old(self)@.take(d as int) + final(r)@,
        decreases d,
    {
        proof {
            self.lemma_view();
        }
        if d == 0 {
            proof {
                assert(old(self)@.skip(0) =~= old(self)@);
                assert(old(self)@.take(0) + final(self)@ =~= final(self)@);
            }
            self
        } else {
            match &mut self.parent {
                Some(p) => {
                    let r = p.level_mut(d - 1);
                    proof {
                        let s = old(self)@;
                        assert(s.skip(d as int) =~= s.drop_first().skip(d - 1));
                        assert(s.take(d as int) =~= seq![s[0]] + s.drop_first().take(d - 1));
                    }
                    r
                },
                None => vstd::pervasive::unreached(),
            }
        }
    }

    /// Gives `code` the state with key `key` and the remaining state mutably at the same time:
    /// the state is taken out of the innermost map that holds it, handed to `code` along with
    /// the container, and put back into that map afterwards.
    ///
    /// The map is found again by its position from the bottom of the stack, so `code` may push
    /// maps, but must not pop the map the state belongs to.
    pub fn holding<F: FnOnce(&mut S, &mut Self)>(&mut self, key: TypeKey, code: F)
        requires
            stack_has(old(self)@, key),
            old(self)@.len() <= usize::MAX,
            forall|t: &mut S, st: &mut State<S>|
                #![trigger code.requires((t, st))]
                holding_pre(old(self)@, key, *t, (*st)@) ==> code.requires((t, st)),
            forall|t: &mut S, st: &mut State<S>|
                #![trigger code.ensures((t, st), ())]
                holding_pre(old(self)@, key, *t, (*st)@) && code.ensures((t, st), ())
                    ==> bottom_index(old(self)@, key) < final(st)@.len() <= usize::MAX,
        ensures
            exists|t: &mut S, st: &mut State<S>|
                #![trigger code.ensures((t, st), ())]
                holding_pre(old(self)@, key, *t, (*st)@) && code.ensures((t, st), ())
                    && final(self)@ == put_back(final(st)@, bottom_index(old(self)@, key), key, *final(t)),
    {
        proof {
            lemma_depth_of(old(self)@, key);
        }
        let levels = self.levels();
        let d = self.depth(key);
        let b = levels - 1 - d;
        let mut instance = self.take(key);
        proof {
            assert(holding_pre(old(self)@, key, instance, self@));
        }
        code(&mut instance, self);
        let levels_after = self.levels();
        let d_after = levels_after - 1 - b;
        let ghost mid = self@;
        let st = self.level_mut(d_after);
        proof {
            st.lemma_view();
        }
        st.insert(key, instance);
        proof {
            lemma_splice(mid, d_after as int, mid[d_after as int].insert(key, instance));
        }
    }

    /// Checks whether the state exists.
    pub fn has(&self, key: TypeKey) -> (r: bool)
        ensures
            r == stack_has(self@, key),
    {
        self.find(key).is_some()
    }

    /// Checks that the state with key `key`, needed by the component with key `source`, exists.
    ///
    /// A component calls this while it is initialized; the requirement is part of the
    /// contract, so a missing state is a caller error.
    pub fn require(&self, source: TypeKey, key: TypeKey)
        requires
            stack_has(self@, key),
    {
    }

    /// Removes the state with key `key` from the innermost map that contains it and returns it.
    pub fn take(&mut self, key: TypeKey) -> (r: S)
        requires
            stack_has(old(self)@, key),
        ensures
            ({
                let d = depth_of(old(self)@, key)->0 as int;
                &&& 0 <= d < old(self)@.len()
                &&& r == old(self)@[d][key]
                &&& final(self)@ == old(self)@.update(d, old(self)@[d].remove(key))
            }),
    {
        proof {
            lemma_depth_of(old(self)@, key);
        }
        match self.find_mut(key) {
            Some(st) => {
                proof {
                    st.lemma_view();
                }
                let r = st.map.take(key);
                proof {
                    st.lemma_view();
                    let d = depth_of(old(self)@, key)->0 as int;
                    assert(st@ =~= old(self)@.skip(d).update(0, old(self)@[d].remove(key)));
                    lemma_splice(old(self)@, d, old(self)@[d].remove(key));
                }
                r
            },
            None => vstd::pervasive::unreached(),
        }
    }

    /// Returns the state with key `key`, which must exist.
    pub fn get(&self, key: TypeKey) -> (r: &S)
        requires
            stack_has(self@, key),
        ensures
            *r == lookup(self@, key)->0,
    {
        proof {
            lemma_depth_of(self@, key);
        }
        match self.find(key) {
            Some(st) => {
                proof {
                    st.lemma_view();
                }
                st.map.get(key)
            },
            None => vstd::pervasive::unreached(),
        }
    }

    /// Returns the state with key `key` mutably; it must exist.
    pub fn get_mut(&mut self, key: TypeKey) -> (r: &mut S)
        requires
            stack_has(old(self)@, key),
        ensures
            ({
                let d = depth_of(old(self)@, key)->0 as int;
                &&& 0 <= d < old(self)@.len()
                &&& *r == old(self)@[d][key]
                &&& final(self)@ == old(self)@.update(d, old(self)@[d].insert(key, *final(r)))
            }),
    {
        proof {
            lemma_depth_of(old(self)@, key);
        }
        match self.find_mut(key) {
            Some(st) => {
                proof {
                    st.lemma_view();
                    let d = depth_of(old(self)@, key)->0 as int;
                    assert forall|m: Map<TypeKey, S>|
                        old(self)@.take(d) + #[trigger] old(self)@.skip(d).update(0, m)
                            == old(self)@.update(d, m) by {
                        lemma_splice(old(self)@, d, m);
                    }
                }
                st.top_get_mut(key)
            },
            None => vstd::pervasive::unreached(),
        }
    }

    /// Mutable access to the state with key `key` in the innermost map, which must hold it.
    fn top_get_mut(&mut self, key: TypeKey) -> (r: &mut S)
        requires
            old(self)@[0].contains_key(key),
        ensures
            *r == old(self)@[0][key],
            final(self)@ == old(self)@.update(0, old(self)@[0].insert(key, *final(r))),
    {
        proof {
            self.lemma_view();
        }
        let r = self.map.get_mut(key);
        proof {
            assert(old(self)@.update(0, old(self)@[0].insert(key, *final(r))) =~= seq![
                old(self)@[0].insert(key, *final(r)),
            ] + old(self)@.drop_first());
        }
        r
    }

    /// Returns the value of the state with key `key`, which must exist.
    ///
    /// The value of a state is the state itself.
    pub fn get_value_mut(&mut self, key: TypeKey) -> (r: &mut S)
        requires
            stack_has(old(self)@, key),
        ensures
            ({
                let d = depth_of(old(self)@, key)->0 as int;
                &&& 0 <= d < old(self)@.len()
                &&& *r == old(self)@[d][key]
                &&& final(self)@ == old(self)@.update(d, old(self)@[d].insert(key, *final(r)))
            }),
    {
        self.get_mut(key)
    }

    /// Updates the value of the state with key `key`, which must exist.
    pub fn set_value(&mut self, key: TypeKey, value: S)
        requires
            stack_has(old(self)@, key),
        ensures
            ({
                let d = depth_of(old(self)@, key)->0 as int;
                &&& 0 <= d < old(self)@.len()
                &&& final(self)@ == old(self)@.update(d, old(self)@[d].insert(key, value))
            }),
    {
        let r = self.get_value_mut(key);
        *r = value;
    }
}

impl<S: Copy> State<S> {
    /// Returns the value of the state with key `key`, which must exist.
    pub fn get_value(&self, key: TypeKey) -> (r: S)
        requires
            stack_has(self@, key),
        ensures
            r == lookup(self@, key)->0,
    {
        *self.get(key)
    }
}

impl<S: Default> State<S> {
    /// Returns the state with key `key` in the innermost map, inserting the default state
    /// there first if it has none.
    pub fn get_or_insert_default(&mut self, key: TypeKey) -> (r: &mut S)
        ensures
            old(self)@[0].contains_key(key) ==> *r == old(self)@[0][key],
            !old(self)@[0].contains_key(key) ==> call_ensures(S::default, (), *r),
            final(self)@ == old(self)@.update(0, old(self)@[0].insert(key, *final(r))),
    {
        proof {
            self.lemma_view();
        }
        let r = self.map.get_or_insert_default(key);
        proof {
            assert(old(self)@.update(0, old(self)@[0].insert(key, *final(r))) =~= seq![
                old(self)@[0].insert(key, *final(r)),
            ] + old(self)@.drop_first());
        }
        r
    }
}

impl<S> State<S> {
    /// Takes the states with the keys `keys`, which are distinct and present, out of the
    /// maps that hold them; returns the depths of those registries and the states, in
    /// the order of `keys`.
    fn take_all(&mut self, keys: &[TypeKey]) -> (r: (Vec<usize>, Vec<S>))
        requires
            old(self)@.len() <= usize::MAX,
            keys@.no_duplicates(),
            forall|j: int| 0 <= j < keys@.len() ==> stack_has(old(self)@, #[trigger] keys@[j]),
        ensures
            r.0@.len() == keys@.len(),
            forall|j: int|
                0 <= j < keys@.len() ==> #[trigger] r.0@[j] == depth_of(old(self)@, keys@[j])->0
                    && r.0@[j] < old(self)@.len(),
            r.1@.len() == keys@.len(),
            forall|j: int| 0 <= j < keys@.len() ==> #[trigger] r.1@[j] == lookup(old(self)@, keys@[j])->0,
            final(self)@ == taken_all(old(self)@, keys@, keys@.len()),
            final(self)@.len() == old(self)@.len(),
    {
        let ghost s = old(self)@;
        let n = keys.len();
        let levels = self.levels();
        let mut depths: Vec<usize> = Vec::new();
        let mut i: usize = 0;
        while i < n
            invariant
                i <= n,
                n == keys@.len(),
                s == self@,
                s.len() == levels,
                forall|j: int| 0 <= j < n ==> stack_has(s, #[trigger] keys@[j]),
                depths@.len() == i,
                forall|j: int|
                    0 <= j < i ==> #[trigger] depths@[j] == depth_of(s, keys@[j])->0
                        && depths@[j] < s.len(),
            decreases n - i,
        {
            let d = self.depth(keys[i]);
            depths.push(d);
            i = i + 1;
        }
        let mut values: Vec<S> = Vec::new();
        let mut i: usize = 0;
        proof {
            assert forall|j: int| 0 <= j < n implies self@[depths@[j] as int].contains_key(
                #[trigger] keys@[j],
            ) by {
                lemma_depth_of(s, keys@[j]);
            }
        }
        while i < n
            invariant
                i <= n,
                n == keys@.len(),
                keys@.no_duplicates(),
                self@ == taken_all(s, keys@, i as nat),
                self@.len() == s.len(),
                forall|j: int| 0 <= j < n ==> stack_has(s, #[trigger] keys@[j]),
                depths@.len() == n,
                forall|j: int|
                    0 <= j < n ==> #[trigger] depths@[j] == depth_of(s, keys@[j])->0
                        && depths@[j] < s.len(),
                forall|j: int|
                    i <= j < n ==> self@[depths@[j] as int].contains_key(#[trigger] keys@[j])
                        && self@[depths@[j] as int][keys@[j]] == s[depths@[j] as int][keys@[j]],
                values@.len() == i,
                forall|j: int| 0 <= j < i ==> #[trigger] values@[j] == lookup(s, keys@[j])->0,
            decreases n - i,
        {
            let ghost cur = self@;
            let d = depths[i];
            let key = keys[i];
            proof {
                lemma_depth_of(s, key);
            }
            let reg = self.level_mut(d);
            proof {
                reg.lemma_view();
                assert(reg@[0] == cur[d as int]);
                lemma_depth_of_unique(reg@, key, 0);
            }
            let v = reg.take(key);
            proof {
                lemma_splice(cur, d as int, cur[d as int].remove(key));
                assert forall|j: int| i < j < n implies self@[depths@[j] as int].contains_key(
                    #[trigger] keys@[j],
                ) && self@[depths@[j] as int][keys@[j]] == s[depths@[j] as int][keys@[j]] by {
                    assert(keys@[j] != keys@[i as int]);
                }
            }
            values.push(v);
            i = i + 1;
        }
        (depths, values)
    }

    /// Puts the states `values` with the keys `keys` back into the maps at the depths
    /// `depths`, where the stack `s` held them.
    fn put_all_back(
        &mut self,
        keys: &[TypeKey],
        depths: &Vec<usize>,
        values: Vec<S>,
        Ghost(s): Ghost<Seq<Map<TypeKey, S>>>,
    )
        requires
            keys@.len() == depths@.len(),
            keys@.len() == values@.len(),
            old(self)@.len() == s.len(),
            forall|j: int|
                0 <= j < keys@.len() ==> #[trigger] depths@[j] == depth_of(s, keys@[j])->0
                    && depths@[j] < s.len(),
        ensures
            final(self)@ == put_back_from(old(self)@, s, keys@, values@, 0),
    {
        let ghost after = old(self)@;
        let ghost fv = values@;
        let n = keys.len();
        let mut values = values;
        let mut i: usize = n;
        proof {
            assert(values@ =~= fv.take(n as int));
        }
        while i > 0
            invariant
                i <= n,
                n == keys@.len(),
                fv.len() == n,
                values@ == fv.take(i as int),
                after.len() == s.len(),
                self@ == put_back_from(after, s, keys@, fv, i as nat),
                self@.len() == s.len(),
                depths@.len() == n,
                forall|j: int|
                    0 <= j < n ==> #[trigger] depths@[j] == depth_of(s, keys@[j])->0
                        && depths@[j] < s.len(),
            decreases i,
        {
            let ghost cur = self@;
            let v = match values.pop() {
                Some(v) => v,
                None => vstd::pervasive::unreached(),
            };
            let d = depths[i - 1];
            let key = keys[i - 1];
            let reg = self.level_mut(d);
            proof {
                reg.lemma_view();
            }
            reg.insert(key, v);
            proof {
                lemma_splice(cur, d as int, cur[d as int].insert(key, v));
                assert(values@ =~= fv.take(i - 1));
            }
            i = i - 1;
        }
    }


    /// Gives `f` the states of the kinds in the tuple `T` mutably at the same time, in the
    /// order of the tuple, and returns what `f` returns; the kinds must be distinct and their
    /// states present. The states are taken out of the maps that hold them and put back
    /// afterwards; `f` must keep the number of states.
    pub fn get_multiple_mut<T: MultiStateTuple, R, F: FnOnce(&mut Vec<S>) -> R>(
        &mut self,
        f: F,
    ) -> (r: R)
        requires
            old(self)@.len() <= usize::MAX,
            T::spec_ids().no_duplicates(),
            forall|j: int|
                0 <= j < T::spec_ids().len() ==> stack_has(old(self)@, #[trigger] T::spec_ids()[j]),
            forall|v: &mut Vec<S>|
                #![trigger f.requires((v,))]
                (*v)@.len() == T::spec_ids().len() && (forall|i: int|
                    0 <= i < T::spec_ids().len() ==> #[trigger] (*v)@[i] == lookup(
                        old(self)@,
                        T::spec_ids()[i],
                    )->0) ==> f.requires((v,)),
            forall|v: &mut Vec<S>, res: R|
                #![trigger f.ensures((v,), res)]
                f.ensures((v,), res) ==> final(v)@.len() == (*v)@.len(),
        ensures
            exists|v: &mut Vec<S>, res: R|
                #![trigger f.ensures((v,), res)]
                {
                    &&& (*v)@.len() == T::spec_ids().len()
                    &&& forall|i: int|
                        0 <= i < T::spec_ids().len() ==> #[trigger] (*v)@[i] == lookup(
                            old(self)@,
                            T::spec_ids()[i],
                        )->0
                    &&& f.ensures((v,), res)
                    &&& r == res
                    &&& final(self)@ == put_back_from(
                        taken_all(old(self)@, T::spec_ids(), T::spec_ids().len()),
                        old(self)@,
                        T::spec_ids(),
                        final(v)@,
                        0,
                    )
                },
    {
        let ghost s = old(self)@;
        let keys = T::ids();
        let (depths, mut values) = self.take_all(keys.as_slice());
        let res = f(&mut values);
        self.put_all_back(keys.as_slice(), &depths, values, Ghost(s));
        res
    }
}

} // verus!
