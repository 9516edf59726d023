//! Requests for several kinds of custom state at once.

use vstd::prelude::*;

use crate::state::registry::{
    depth_of, lemma_depth_of, lemma_depth_of_unique, lemma_splice, lookup, stack_has,
    CustomState, StateError, StateRegistry, StateResult, TypeKey,
};
use crate::state::registry::laws::lemma_agree_on_key;
use crate::state::{put_back_from, taken_all};

verus! {

/// Returns whether the keys in `keys` are pairwise distinct.
pub fn all_distinct(keys: &[TypeKey]) -> (r: bool)
    ensures
        r == keys@.no_duplicates(),
{
    let mut i: usize = 0;
    while i < keys.len()
        invariant
            0 <= i <= keys.len(),
            keys@.subrange(0, i as int).no_duplicates(),
        decreases keys.len() - i,
    {
        let mut j: usize = 0;
        while j < i
            invariant
                0 <= j <= i < keys.len(),
                forall|k: int| 0 <= k < j ==> keys@[k] != keys@[i as int],
            decreases i - j,
        {
            if keys[j] == keys[i] {
                return false;
            }
            j += 1;
        }
        assert(keys@.subrange(0, i + 1) =~= keys@.subrange(0, i as int).push(keys@[i as int]));
        i += 1;
    }
    assert(keys@.subrange(0, keys.len() as int) =~= keys@);
    true
}

/// A tuple of kinds of custom state, requested together.
///
/// Borrowing the same state more than once at the same time is not possible, so a request is
/// only sound when the kinds in the tuple are [`distinct`](Self::distinct).
pub trait MultiStateTuple {
    /// The keys of the kinds in the tuple, in order.
    spec fn spec_ids() -> Seq<TypeKey>;

    /// Returns the keys of the kinds in the tuple, in order.
    fn ids() -> (r: Vec<TypeKey>)
        ensures
            r@ == Self::spec_ids(),
    ;

    /// Checks if the kinds in the tuple are distinct.
    fn distinct() -> (r: bool)
        ensures
            r == Self::spec_ids().no_duplicates(),
    {
        let ids = Self::ids();
        all_distinct(ids.as_slice())
    }
}

impl<T1: CustomState, T2: CustomState> MultiStateTuple for (T1, T2) {
    open spec fn spec_ids() -> Seq<TypeKey> {
        seq![T1::spec_id(), T2::spec_id()]
    }

    fn ids() -> (r: Vec<TypeKey>) {
        let mut r: Vec<TypeKey> = Vec::new();
        r.push(T1::id());
        r.push(T2::id());
        proof {
            assert(r@ =~= seq![T1::spec_id(), T2::spec_id()]);
        }
        r
    }
}

impl<T1: CustomState, T2: CustomState, T3: CustomState> MultiStateTuple for (T1, T2, T3) {
    open spec fn spec_ids() -> Seq<TypeKey> {
        seq![T1::spec_id(), T2::spec_id(), T3::spec_id()]
    }

    fn ids() -> (r: Vec<TypeKey>) {
        let mut r: Vec<TypeKey> = Vec::new();
        r.push(T1::id());
        r.push(T2::id());
        r.push(T3::id());
        proof {
            assert(r@ =~= seq![T1::spec_id(), T2::spec_id(), T3::spec_id()]);
        }
        r
    }
}

impl<T1: CustomState, T2: CustomState, T3: CustomState, T4: CustomState> MultiStateTuple for (T1, T2, T3, T4) {
    open spec fn spec_ids() -> Seq<TypeKey> {
        seq![T1::spec_id(), T2::spec_id(), T3::spec_id(), T4::spec_id()]
    }

    fn ids() -> (r: Vec<TypeKey>) {
        let mut r: Vec<TypeKey> = Vec::new();
        r.push(T1::id());
        r.push(T2::id());
        r.push(T3::id());
        r.push(T4::id());
        proof {
            assert(r@ =~= seq![T1::spec_id(), T2::spec_id(), T3::spec_id(), T4::spec_id()]);
        }
        r
    }
}

impl<T1: CustomState, T2: CustomState, T3: CustomState, T4: CustomState, T5: CustomState> MultiStateTuple for (T1, T2, T3, T4, T5) {
    open spec fn spec_ids() -> Seq<TypeKey> {
        seq![T1::spec_id(), T2::spec_id(), T3::spec_id(), T4::spec_id(), T5::spec_id()]
    }

    fn ids() -> (r: Vec<TypeKey>) {
        let mut r: Vec<TypeKey> = Vec::new();
        r.push(T1::id());
        r.push(T2::id());
        r.push(T3::id());
        r.push(T4::id());
        r.push(T5::id());
        proof {
            assert(r@ =~= seq![T1::spec_id(), T2::spec_id(), T3::spec_id(), T4::spec_id(), T5::spec_id()]);
        }
        r
    }
}

impl<T1: CustomState, T2: CustomState, T3: CustomState, T4: CustomState, T5: CustomState, T6: CustomState> MultiStateTuple for (T1, T2, T3, T4, T5, T6) {
    open spec fn spec_ids() -> Seq<TypeKey> {
        seq![T1::spec_id(), T2::spec_id(), T3::spec_id(), T4::spec_id(), T5::spec_id(), T6::spec_id()]
    }

    fn ids() -> (r: Vec<TypeKey>) {
        let mut r: Vec<TypeKey> = Vec::new();
        r.push(T1::id());
        r.push(T2::id());
        r.push(T3::id());
        r.push(T4::id());
        r.push(T5::id());
        r.push(T6::id());
        proof {
            assert(r@ =~= seq![T1::spec_id(), T2::spec_id(), T3::spec_id(), T4::spec_id(), T5::spec_id(), T6::spec_id()]);
        }
        r
    }
}

impl<T1: CustomState, T2: CustomState, T3: CustomState, T4: CustomState, T5: CustomState, T6: CustomState, T7: CustomState> MultiStateTuple for (T1, T2, T3, T4, T5, T6, T7) {
    open spec fn spec_ids() -> Seq<TypeKey> {
        seq![T1::spec_id(), T2::spec_id(), T3::spec_id(), T4::spec_id(), T5::spec_id(), T6::spec_id(), T7::spec_id()]
    }

    fn ids() -> (r: Vec<TypeKey>) {
        let mut r: Vec<TypeKey> = Vec::new();
        r.push(T1::id());
        r.push(T2::id());
        r.push(T3::id());
        r.push(T4::id());
        r.push(T5::id());
        r.push(T6::id());
        r.push(T7::id());
        proof {
            assert(r@ =~= seq![T1::spec_id(), T2::spec_id(), T3::spec_id(), T4::spec_id(), T5::spec_id(), T6::spec_id(), T7::spec_id()]);
        }
        r
    }
}

impl<T1: CustomState, T2: CustomState, T3: CustomState, T4: CustomState, T5: CustomState, T6: CustomState, T7: CustomState, T8: CustomState> MultiStateTuple for (T1, T2, T3, T4, T5, T6, T7, T8) {
    open spec fn spec_ids() -> Seq<TypeKey> {
        seq![T1::spec_id(), T2::spec_id(), T3::spec_id(), T4::spec_id(), T5::spec_id(), T6::spec_id(), T7::spec_id(), T8::spec_id()]
    }

    fn ids() -> (r: Vec<TypeKey>) {
        let mut r: Vec<TypeKey> = Vec::new();
        r.push(T1::id());
        r.push(T2::id());
        r.push(T3::id());
        r.push(T4::id());
        r.push(T5::id());
        r.push(T6::id());
        r.push(T7::id());
        r.push(T8::id());
        proof {
            assert(r@ =~= seq![T1::spec_id(), T2::spec_id(), T3::spec_id(), T4::spec_id(), T5::spec_id(), T6::spec_id(), T7::spec_id(), T8::spec_id()]);
        }
        r
    }
}

impl<S> StateRegistry<S> {
    /// Takes the states with the keys `keys`, which are distinct and present, out of the
    /// registries that hold them; returns the depths of those registries and the states, in
    /// the order of `keys`.
    pub(crate) fn take_all(&mut self, keys: &[TypeKey]) -> (r: (Vec<usize>, Vec<S>))
        requires
            old(self)@.len() <= usize::MAX,
            keys@.no_duplicates(),
            forall|j: int| 0 <= j < keys@.len() ==> stack_has(old(self)@, #[trigger] keys@[j]),
        ensures
            r.0@.len() == keys@.len(),
            forall|j: int|
                0 <= j < keys@.len() ==> #[trigger] r.0@[j] == depth_of(old(self)@, keys@[j])->0
                    && r.0@[j] < old(self)@.len(),
            r.1@.len() == keys@.len(),
            forall|j: int| 0 <= j < keys@.len() ==> #[trigger] r.1@[j] == lookup(old(self)@, keys@[j])->0,
            final(self)@ == taken_all(old(self)@, keys@, keys@.len()),
            final(self)@.len() == old(self)@.len(),
    {
        let ghost s = old(self)@;
        let n = keys.len();
        let levels = self.levels();
        let mut depths: Vec<usize> = Vec::new();
        let mut i: usize = 0;
        while i < n
            invariant
                i <= n,
                n == keys@.len(),
                s == self@,
                s.len() == levels,
                forall|j: int| 0 <= j < n ==> stack_has(s, #[trigger] keys@[j]),
                depths@.len() == i,
                forall|j: int|
                    0 <= j < i ==> #[trigger] depths@[j] == depth_of(s, keys@[j])->0
                        && depths@[j] < s.len(),
            decreases n - i,
        {
            let d = self.depth(keys[i]);
            depths.push(d);
            i = i + 1;
        }
        let mut values: Vec<S> = Vec::new();
        let mut i: usize = 0;
        proof {
            assert forall|j: int| 0 <= j < n implies self@[depths@[j] as int].contains_key(
                #[trigger] keys@[j],
            ) by {
                lemma_depth_of(s, keys@[j]);
            }
        }
        while i < n
            invariant
                i <= n,
                n == keys@.len(),
                keys@.no_duplicates(),
                self@ == taken_all(s, keys@, i as nat),
                self@.len() == s.len(),
                forall|j: int| 0 <= j < n ==> stack_has(s, #[trigger] keys@[j]),
                depths@.len() == n,
                forall|j: int|
                    0 <= j < n ==> #[trigger] depths@[j] == depth_of(s, keys@[j])->0
                        && depths@[j] < s.len(),
                forall|j: int|
                    i <= j < n ==> self@[depths@[j] as int].contains_key(#[trigger] keys@[j])
                        && self@[depths@[j] as int][keys@[j]] == s[depths@[j] as int][keys@[j]],
                values@.len() == i,
                forall|j: int| 0 <= j < i ==> #[trigger] values@[j] == lookup(s, keys@[j])->0,
            decreases n - i,
        {
            let ghost cur = self@;
            let d = depths[i];
            let key = keys[i];
            proof {
                lemma_depth_of(s, key);
            }
            let reg = self.level_mut(d);
            proof {
                reg.lemma_nonempty();
                assert(reg@[0] == cur[d as int]);
                lemma_depth_of_unique(reg@, key, 0);
            }
            let v = reg.take(key);
            proof {
                lemma_splice(cur, d as int, cur[d as int].remove(key));
                assert forall|j: int| i < j < n implies self@[depths@[j] as int].contains_key(
                    #[trigger] keys@[j],
                ) && self@[depths@[j] as int][keys@[j]] == s[depths@[j] as int][keys@[j]] by {
                    assert(keys@[j] != keys@[i as int]);
                }
            }
            values.push(v);
            i = i + 1;
        }
        (depths, values)
    }

    /// Puts the states `values` with the keys `keys` back into the registries at the depths
    /// `depths`, where the registry `s` held them.
    pub(crate) fn put_all_back(
        &mut self,
        keys: &[TypeKey],
        depths: &Vec<usize>,
        values: Vec<S>,
        Ghost(s): Ghost<Seq<Map<TypeKey, S>>>,
    )
        requires
            keys@.len() == depths@.len(),
            keys@.len() == values@.len(),
            old(self)@.len() == s.len(),
            forall|j: int|
                0 <= j < keys@.len() ==> #[trigger] depths@[j] == depth_of(s, keys@[j])->0
                    && depths@[j] < s.len(),
        ensures
            final(self)@ == put_back_from(old(self)@, s, keys@, values@, 0),
    {
        let ghost after = old(self)@;
        let ghost fv = values@;
        let n = keys.len();
        let mut values = values;
        let mut i: usize = n;
        proof {
            assert(values@ =~= fv.take(n as int));
        }
        while i > 0
            invariant
                i <= n,
                n == keys@.len(),
                fv.len() == n,
                values@ == fv.take(i as int),
                after.len() == s.len(),
                self@ == put_back_from(after, s, keys@, fv, i as nat),
                self@.len() == s.len(),
                depths@.len() == n,
                forall|j: int|
                    0 <= j < n ==> #[trigger] depths@[j] == depth_of(s, keys@[j])->0
                        && depths@[j] < s.len(),
            decreases i,
        {
            let ghost cur = self@;
            let v = match values.pop() {
                Some(v) => v,
                None => vstd::pervasive::unreached(),
            };
            let d = depths[i - 1];
            let key = keys[i - 1];
            let reg = self.level_mut(d);
            proof {
                reg.lemma_nonempty();
            }
            reg.insert(key, v);
            proof {
                lemma_splice(cur, d as int, cur[d as int].insert(key, v));
                assert(values@ =~= fv.take(i - 1));
            }
            i = i - 1;
        }
    }

    /// Gives `f` the states of the kinds in the tuple `T` mutably at the same time, in the
    /// order of the tuple, and returns what `f` returns. The states are taken out of the
    /// registries that hold them and put back afterwards.
    ///
    /// Naming a kind twice is the error `MultipleBorrowConflict`, checked before any state is
    /// looked at, and a missing state the error `NotFound` of the first kind whose state is
    /// missing; the registry is left unchanged then. `f` must keep the number of states.
    pub fn try_get_multiple_mut<T: MultiStateTuple, R, F: FnOnce(&mut Vec<S>) -> R>(
        &mut self,
        f: F,
    ) -> (r: StateResult<R>)
        requires
            old(self)@.len() <= usize::MAX,
            forall|v: &mut Vec<S>|
                #![trigger f.requires((v,))]
                (*v)@.len() == T::spec_ids().len() && (forall|i: int|
                    0 <= i < T::spec_ids().len() ==> #[trigger] (*v)@[i] == lookup(
                        old(self)@,
                        T::spec_ids()[i],
                    )->0) ==> f.requires((v,)),
            forall|v: &mut Vec<S>, res: R|
                #![trigger f.ensures((v,), res)]
                f.ensures((v,), res) ==> final(v)@.len() == (*v)@.len(),
        ensures
            !T::spec_ids().no_duplicates() ==> r == Err::<R, StateError>(
                StateError::MultipleBorrowConflict,
            ) && final(self)@ == old(self)@,
            T::spec_ids().no_duplicates() && (exists|j: int|
                0 <= j < T::spec_ids().len() && !stack_has(old(self)@, #[trigger] T::spec_ids()[j]))
                ==> final(self)@ == old(self)@ && exists|j: int|
                0 <= j < T::spec_ids().len() && !stack_has(old(self)@, #[trigger] T::spec_ids()[j])
                    && (forall|i: int| 0 <= i < j ==> stack_has(old(self)@, T::spec_ids()[i]))
                    && r == Err::<R, StateError>(StateError::NotFound(T::spec_ids()[j])),
            T::spec_ids().no_duplicates() && (forall|j: int|
                0 <= j < T::spec_ids().len() ==> stack_has(old(self)@, #[trigger] T::spec_ids()[j]))
                ==> exists|v: &mut Vec<S>, res: R|
                #![trigger f.ensures((v,), res)]
                {
                    &&& (*v)@.len() == T::spec_ids().len()
                    &&& forall|i: int|
                        0 <= i < T::spec_ids().len() ==> #[trigger] (*v)@[i] == lookup(
                            old(self)@,
                            T::spec_ids()[i],
                        )->0
                    &&& f.ensures((v,), res)
                    &&& r == Ok::<R, StateError>(res)
                    &&& final(self)@ == put_back_from(
                        taken_all(old(self)@, T::spec_ids(), T::spec_ids().len()),
                        old(self)@,
                        T::spec_ids(),
                        final(v)@,
                        0,
                    )
                },
    {
        let ghost s = old(self)@;
        let keys = T::ids();
        let n = keys.len();
        if !all_distinct(keys.as_slice()) {
            return Err(StateError::MultipleBorrowConflict);
        }
        let mut i: usize = 0;
        while i < n
            invariant
                i <= n,
                n == keys@.len(),
                keys@ == T::spec_ids(),
                keys@.no_duplicates(),
                s == self@,
                forall|j: int| 0 <= j < i ==> stack_has(s, #[trigger] keys@[j]),
            decreases n - i,
        {
            if !self.has(keys[i]) {
                return Err(StateError::NotFound(keys[i]));
            }
            i = i + 1;
        }
        let (depths, mut values) = self.take_all(keys.as_slice());
        let res = f(&mut values);
        self.put_all_back(keys.as_slice(), &depths, values, Ghost(s));
        Ok(res)
    }

    /// Gives `f` the states of the kinds in the tuple `T` mutably at the same time, in the
    /// order of the tuple, and returns what `f` returns; the kinds must be distinct and their
    /// states present. For a version that reports a conflict or a missing state, see
    /// [`try_get_multiple_mut`](Self::try_get_multiple_mut).
    pub fn get_multiple_mut<T: MultiStateTuple, R, F: FnOnce(&mut Vec<S>) -> R>(
        &mut self,
        f: F,
    ) -> (r: R)
        requires
            old(self)@.len() <= usize::MAX,
            T::spec_ids().no_duplicates(),
            forall|j: int|
                0 <= j < T::spec_ids().len() ==> stack_has(old(self)@, #[trigger] T::spec_ids()[j]),
            forall|v: &mut Vec<S>|
                #![trigger f.requires((v,))]
                (*v)@.len() == T::spec_ids().len() && (forall|i: int|
                    0 <= i < T::spec_ids().len() ==> #[trigger] (*v)@[i] == lookup(
                        old(self)@,
                        T::spec_ids()[i],
                    )->0) ==> f.requires((v,)),
            forall|v: &mut Vec<S>, res: R|
                #![trigger f.ensures((v,), res)]
                f.ensures((v,), res) ==> final(v)@.len() == (*v)@.len(),
        ensures
            exists|v: &mut Vec<S>, res: R|
                #![trigger f.ensures((v,), res)]
                {
                    &&& (*v)@.len() == T::spec_ids().len()
                    &&& forall|i: int|
                        0 <= i < T::spec_ids().len() ==> #[trigger] (*v)@[i] == lookup(
                            old(self)@,
                            T::spec_ids()[i],
                        )->0
                    &&& f.ensures((v,), res)
                    &&& r == res
                    &&& final(self)@ == put_back_from(
                        taken_all(old(self)@, T::spec_ids(), T::spec_ids().len()),
                        old(self)@,
                        T::spec_ids(),
                        final(v)@,
                        0,
                    )
                },
    {
        match self.try_get_multiple_mut::<T, R, F>(f) {
            Ok(r) => r,
            Err(_) => vstd::pervasive::unreached(),
        }
    }
}

/// Putting back, from position `k` on, the states that were taken out of `s` unchanged gives
/// the stack after only the first `k` were taken out.
proof fn lemma_put_back_undoes<S>(s: Seq<Map<TypeKey, S>>, keys: Seq<TypeKey>, k: nat)
    requires
        k <= keys.len(),
        keys.no_duplicates(),
        forall|j: int| 0 <= j < keys.len() ==> stack_has(s, #[trigger] keys[j]),
    ensures
        put_back_from(
            taken_all(s, keys, keys.len()),
            s,
            keys,
            keys.map_values(|key: TypeKey| lookup(s, key)->0),
            k,
        ) == taken_all(s, keys, k),
    decreases keys.len() - k,
{
    if k < keys.len() {
        lemma_put_back_undoes(s, keys, k + 1);
        let key = keys[k as int];
        let t = taken_all(s, keys, k);
        assert forall|j: int| 0 <= j < k implies keys[j] != key by {
            assert(keys[j] != keys[k as int]);
        }
        lemma_depth_of(s, key);
        let d = depth_of(s, key)->0 as int;
        lemma_taken_all_at(s, keys, k, key, d);
        let v = keys.map_values(|key: TypeKey| lookup(s, key)->0)[k as int];
        assert(v == s[d][key]);
        assert(t[d].contains_key(key) && t[d][key] == v);
        assert(t[d].remove(key).insert(key, v) =~= t[d]);
        let u = taken_all(s, keys, k + 1);
        assert(u == t.update(d, t[d].remove(key)));
        assert(u.update(d, u[d].insert(key, v)) =~= t);
    }
}

/// Borrowing the states of distinct keys that are present, and handing them back unchanged,
/// leaves the stack of maps exactly as it was.
pub proof fn law_take_all_then_put_back<S>(s: Seq<Map<TypeKey, S>>, keys: Seq<TypeKey>)
    requires
        keys.no_duplicates(),
        forall|j: int| 0 <= j < keys.len() ==> stack_has(s, #[trigger] keys[j]),
    ensures
        put_back_from(
            taken_all(s, keys, keys.len()),
            s,
            keys,
            keys.map_values(|key: TypeKey| lookup(s, key)->0),
            0,
        ) == s,
{
    lemma_put_back_undoes(s, keys, 0);
}

/// Taking states out of `s` leaves the map at depth `d` as it was for `key`, where none of
/// the first `i` keys taken out is `key` at that depth.
proof fn lemma_taken_all_at<S>(
    s: Seq<Map<TypeKey, S>>,
    keys: Seq<TypeKey>,
    i: nat,
    key: TypeKey,
    d: int,
)
    requires
        i <= keys.len(),
        0 <= d < s.len(),
        forall|j: int| 0 <= j < i ==> keys[j] != key || depth_of(s, keys[j])->0 != d,
        forall|j: int| 0 <= j < keys.len() ==> stack_has(s, #[trigger] keys[j]),
    ensures
        taken_all(s, keys, i).len() == s.len(),
        taken_all(s, keys, i)[d].contains_key(key) <==> s[d].contains_key(key),
        s[d].contains_key(key) ==> taken_all(s, keys, i)[d][key] == s[d][key],
    decreases i,
{
    if i > 0 {
        lemma_taken_all_at(s, keys, (i - 1) as nat, key, d);
        lemma_depth_of(s, keys[i - 1]);
    }
}

/// Putting states back, from position `k` on, into `t` leaves the map at depth `d` as it was
/// for `key`, where none of the keys put back is `key` at that depth.
proof fn lemma_put_back_at<S>(
    t: Seq<Map<TypeKey, S>>,
    s: Seq<Map<TypeKey, S>>,
    keys: Seq<TypeKey>,
    w: Seq<S>,
    k: nat,
    key: TypeKey,
    d: int,
)
    requires
        t.len() == s.len(),
        0 <= d < s.len(),
        forall|j: int| k <= j < keys.len() ==> keys[j] != key || depth_of(s, keys[j])->0 != d,
        forall|j: int| 0 <= j < keys.len() ==> stack_has(s, #[trigger] keys[j]),
    ensures
        put_back_from(t, s, keys, w, k).len() == t.len(),
        put_back_from(t, s, keys, w, k)[d].contains_key(key) <==> t[d].contains_key(key),
        t[d].contains_key(key) ==> put_back_from(t, s, keys, w, k)[d][key] == t[d][key],
    decreases keys.len() - k,
{
    if k < keys.len() {
        lemma_put_back_at(t, s, keys, w, k + 1, key, d);
        lemma_depth_of(s, keys[k as int]);
    }
}

/// Taking states out keeps the number of maps.
proof fn lemma_taken_all_len<S>(s: Seq<Map<TypeKey, S>>, keys: Seq<TypeKey>, i: nat)
    requires
        i <= keys.len(),
        forall|j: int| 0 <= j < keys.len() ==> stack_has(s, #[trigger] keys[j]),
    ensures
        taken_all(s, keys, i).len() == s.len(),
    decreases i,
{
    if i > 0 {
        lemma_taken_all_len(s, keys, (i - 1) as nat);
        lemma_depth_of(s, keys[i - 1]);
    }
}

/// Putting states back keeps the number of maps.
proof fn lemma_put_back_len<S>(
    t: Seq<Map<TypeKey, S>>,
    s: Seq<Map<TypeKey, S>>,
    keys: Seq<TypeKey>,
    w: Seq<S>,
    k: nat,
)
    requires
        t.len() == s.len(),
        forall|j: int| 0 <= j < keys.len() ==> stack_has(s, #[trigger] keys[j]),
    ensures
        put_back_from(t, s, keys, w, k).len() == t.len(),
    decreases keys.len() - k,
{
    if k < keys.len() {
        lemma_put_back_len(t, s, keys, w, k + 1);
        lemma_depth_of(s, keys[k as int]);
    }
}

/// After the states `w` were put back from position `k` on, the map at the depth of the
/// `j`-th key, for `j >= k`, holds `w[j]` for that key.
proof fn lemma_put_back_holds<S>(
    t: Seq<Map<TypeKey, S>>,
    s: Seq<Map<TypeKey, S>>,
    keys: Seq<TypeKey>,
    w: Seq<S>,
    k: nat,
    j: int,
)
    requires
        t.len() == s.len(),
        w.len() == keys.len(),
        k <= j < keys.len(),
        keys.no_duplicates(),
        forall|i: int| 0 <= i < keys.len() ==> stack_has(s, #[trigger] keys[i]),
    ensures
        ({
            let d = depth_of(s, keys[j])->0 as int;
            &&& put_back_from(t, s, keys, w, k)[d].contains_key(keys[j])
            &&& put_back_from(t, s, keys, w, k)[d][keys[j]] == w[j]
        }),
    decreases j - k,
{
    lemma_depth_of(s, keys[j]);
    lemma_depth_of(s, keys[k as int]);
    lemma_put_back_len(t, s, keys, w, k + 1);
    if k < j {
        lemma_put_back_holds(t, s, keys, w, k + 1, j);
        assert(keys[k as int] != keys[j]);
    }
}

/// Borrowing the states of distinct keys that are present and handing back the states `w`:
/// afterwards a lookup of the `j`-th key finds `w[j]`, and a lookup of any other key finds
/// what it found before.
pub proof fn law_put_back_gives_new_states<S>(
    s: Seq<Map<TypeKey, S>>,
    keys: Seq<TypeKey>,
    w: Seq<S>,
    j: int,
    other: TypeKey,
)
    requires
        keys.no_duplicates(),
        forall|i: int| 0 <= i < keys.len() ==> stack_has(s, #[trigger] keys[i]),
        w.len() == keys.len(),
        0 <= j < keys.len(),
        !keys.contains(other),
    ensures
        lookup(put_back_from(taken_all(s, keys, keys.len()), s, keys, w, 0), keys[j]) == Some(
            w[j],
        ),
        lookup(put_back_from(taken_all(s, keys, keys.len()), s, keys, w, 0), other) == lookup(
            s,
            other,
        ),
{
    let t = taken_all(s, keys, keys.len());
    let r = put_back_from(t, s, keys, w, 0);
    let key = keys[j];
    lemma_depth_of(s, key);
    let d = depth_of(s, key)->0 as int;
    lemma_taken_all_len(s, keys, keys.len());
    lemma_put_back_len(t, s, keys, w, 0);
    assert forall|e: int| 0 <= e < d implies !#[trigger] r[e].contains_key(key) by {
        assert forall|i: int| 0 <= i < keys.len() implies keys[i] != key || depth_of(
            s,
            keys[i],
        )->0 != e by {
            if keys[i] == key {
                assert(i == j);
            }
        }
        lemma_taken_all_at(s, keys, keys.len(), key, e);
        lemma_put_back_at(t, s, keys, w, 0, key, e);
    }
    lemma_put_back_holds(t, s, keys, w, 0, j);
    lemma_depth_of_unique(r, key, d);
    assert forall|e: int| 0 <= e < s.len() implies (#[trigger] s[e].contains_key(other)
        <==> r[e].contains_key(other)) && (s[e].contains_key(other) ==> s[e][other] == r[e][other]) by {
        assert forall|i: int| 0 <= i < keys.len() implies keys[i] != other by {
            assert(keys[i] == other ==> keys.contains(other));
        }
        lemma_taken_all_at(s, keys, keys.len(), other, e);
        lemma_put_back_at(t, s, keys, w, 0, other, e);
    }
    lemma_agree_on_key(s, r, other);
}

} // verus!
