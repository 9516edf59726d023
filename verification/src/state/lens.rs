//! Lenses: values that name a piece of the state and read or write it.
//!
//! A lens is handed to a component to tell it which state to work on. [`IdLens`] and
//! [`ValueOf`] name the state of a [`CustomState`] kind; [`PopulationSizeLens`] maps the
//! population stack to the size of its top-most population.

use std::marker::PhantomData;

use vstd::prelude::*;

use crate::state::common::Populations;
use crate::state::registry::{
    depth_of, lookup, stack_has, CustomState, StateError, StateResult, TypeKey,
};
use crate::state::State;

verus! {

/// A lens, by the type of what it gives.
pub trait AnyLens {
    /// The type of what the lens gives.
    type Target;
}

/// A lens that gives a value taken from a state.
pub trait Lens<S>: AnyLens {
    /// Whether the lens finds its value in a state whose registry has the stack of maps `s`.
    spec fn spec_found(&self, s: Seq<Map<TypeKey, S>>) -> bool;

    /// Whether `v` is a value that the lens may give from the stack of maps `s`.
    spec fn spec_gives(&self, s: Seq<Map<TypeKey, S>>, v: Self::Target) -> bool;

    /// The error of the lens on the stack of maps `s` where it finds no value.
    spec fn spec_missing(&self, s: Seq<Map<TypeKey, S>>) -> StateError;

    /// Takes the value from `state`.
    fn get(&self, state: &State<S>) -> (r: StateResult<Self::Target>)
        ensures
            r is Ok <==> self.spec_found(state.spec_registry()@),
            r matches Ok(v) ==> self.spec_gives(state.spec_registry()@, v),
            r is Err ==> r == Err::<Self::Target, StateError>(
                self.spec_missing(state.spec_registry()@),
            ),
    ;
}

/// A lens that computes its value from one piece of state, its source.
pub trait LensMap: AnyLens {
    /// The type of the piece of state the value is computed from.
    type Source;

    /// Computes the value from `source`.
    fn map(&self, source: &Self::Source) -> Self::Target;
}

impl<E: LensMap> Lens<E::Source> for E where E::Source: CustomState {
    /// The source's kind is on the stack.
    open spec fn spec_found(&self, s: Seq<Map<TypeKey, E::Source>>) -> bool {
        stack_has(s, E::Source::spec_id())
    }

    /// `v` is what `map` may give on the top-most state of the source's kind.
    open spec fn spec_gives(&self, s: Seq<Map<TypeKey, E::Source>>, v: E::Target) -> bool {
        call_ensures(E::map, (self, &lookup(s, E::Source::spec_id())->0), v)
    }

    open spec fn spec_missing(&self, s: Seq<Map<TypeKey, E::Source>>) -> StateError {
        StateError::NotFound(E::Source::spec_id())
    }

    /// Computes the value from the state of the source's kind.
    fn get(&self, state: &State<E::Source>) -> (r: StateResult<E::Target>) {
        match state.registry().try_borrow(E::Source::id()) {
            Ok(source) => Ok(self.map(source)),
            Err(e) => Err(e),
        }
    }
}

/// A lens that gives a reference into a state.
pub trait LensRef<S>: AnyLens {
    /// Whether the lens finds what it refers to in a state whose registry has the stack of
    /// maps `s`.
    spec fn spec_ref_found(&self, s: Seq<Map<TypeKey, S>>) -> bool;

    /// Whether `v` is what the lens may refer to in the stack of maps `s`.
    spec fn spec_ref_gives(&self, s: Seq<Map<TypeKey, S>>, v: Self::Target) -> bool;

    /// The error of the lens on the stack of maps `s` where it finds nothing.
    spec fn spec_ref_missing(&self, s: Seq<Map<TypeKey, S>>) -> StateError;

    /// Borrows the value from `state`.
    fn get_ref<'a>(&self, state: &'a State<S>) -> (r: StateResult<&'a Self::Target>)
        ensures
            r is Ok <==> self.spec_ref_found(state.spec_registry()@),
            r matches Ok(v) ==> self.spec_ref_gives(state.spec_registry()@, *v),
            r is Err ==> r == Err::<&Self::Target, StateError>(
                self.spec_ref_missing(state.spec_registry()@),
            ),
    ;
}

/// A lens that gives a reference into a state that computes from its source.
pub trait LensMapRef: AnyLens {
    /// The type of the piece of state the reference points into.
    type Source;

    /// Borrows the value from `source`.
    fn map<'a>(&self, source: &'a Self::Source) -> &'a Self::Target;
}

impl<E: LensMapRef> LensRef<E::Source> for E where E::Source: CustomState {
    /// The source's kind is on the stack.
    open spec fn spec_ref_found(&self, s: Seq<Map<TypeKey, E::Source>>) -> bool {
        stack_has(s, E::Source::spec_id())
    }

    /// `v` is what `map` may give on the top-most state of the source's kind.
    open spec fn spec_ref_gives(&self, s: Seq<Map<TypeKey, E::Source>>, v: E::Target) -> bool {
        call_ensures(E::map, (self, &lookup(s, E::Source::spec_id())->0), &v)
    }

    open spec fn spec_ref_missing(&self, s: Seq<Map<TypeKey, E::Source>>) -> StateError {
        StateError::NotFound(E::Source::spec_id())
    }

    /// Borrows the value from the state of the source's kind.
    fn get_ref<'a>(&self, state: &'a State<E::Source>) -> (r: StateResult<&'a E::Target>) {
        match state.registry().try_borrow(E::Source::id()) {
            Ok(source) => Ok(self.map(source)),
            Err(e) => Err(e),
        }
    }
}

/// A lens that gives a mutable reference into a state.
pub trait LensMut<S>: LensRef<S> {
    /// Whether a state whose registry has the stack of maps `s` holds what the lens names.
    spec fn spec_present(&self, s: Seq<Map<TypeKey, S>>) -> bool;

    /// What the lens names in the stack of maps `s`.
    spec fn spec_get(&self, s: Seq<Map<TypeKey, S>>) -> Self::Target;

    /// The stack of maps `s` after what the lens names was overwritten with `value`.
    spec fn spec_put(&self, s: Seq<Map<TypeKey, S>>, value: Self::Target) -> Seq<Map<TypeKey, S>>;

    /// The error of a lookup in the stack of maps `s` that does not hold what the lens names.
    spec fn spec_error(&self, s: Seq<Map<TypeKey, S>>) -> StateError;

    /// Borrows the value from `state` mutably.
    fn get_mut<'a>(&self, state: &'a mut State<S>) -> (r: StateResult<&'a mut Self::Target>)
        ensures
            r is Ok <==> self.spec_present(old(state).spec_registry()@),
            r matches Ok(v) ==> *v == self.spec_get(old(state).spec_registry()@)
                && final(state).spec_registry()@ == self.spec_put(
                old(state).spec_registry()@,
                *final(v),
            ),
            r is Err ==> r == Err::<&mut Self::Target, StateError>(
                self.spec_error(old(state).spec_registry()@),
            ) && final(state).spec_registry()@ == old(state).spec_registry()@,
    ;
}

/// A lens through which a value can be written into a state.
pub trait LensAssign<S>: LensMut<S> {
    /// Overwrites the value in `state` with `value`.
    fn assign(&self, value: Self::Target, state: &mut State<S>) -> (r: StateResult<()>)
        ensures
            r is Ok <==> self.spec_present(old(state).spec_registry()@),
            r is Ok ==> final(state).spec_registry()@ == self.spec_put(
                old(state).spec_registry()@,
                value,
            ),
            r is Err ==> r == Err::<(), StateError>(self.spec_error(old(state).spec_registry()@))
                && final(state).spec_registry()@ == old(state).spec_registry()@,
    ;
}

impl<S, E: LensMut<S>> LensAssign<S> for E {
    fn assign(&self, value: Self::Target, state: &mut State<S>) -> (r: StateResult<()>) {
        match self.get_mut(state) {
            Ok(t) => {
                *t = value;
                Ok(())
            },
            Err(e) => Err(e),
        }
    }
}

/// The lens that names the state of kind `T` itself.
pub struct IdLens<T>(PhantomData<T>);

impl<T> IdLens<T> {
    /// Creates the lens.
    pub fn new() -> (r: Self) {
        IdLens(PhantomData)
    }
}

impl<T> AnyLens for IdLens<T> {
    type Target = T;
}

impl<T: CustomState + Clone> Lens<T> for IdLens<T> {
    open spec fn spec_found(&self, s: Seq<Map<TypeKey, T>>) -> bool {
        stack_has(s, T::spec_id())
    }

    /// `v` is a clone of the top-most state of kind `T`.
    open spec fn spec_gives(&self, s: Seq<Map<TypeKey, T>>, v: T) -> bool {
        cloned(lookup(s, T::spec_id())->0, v)
    }

    open spec fn spec_missing(&self, s: Seq<Map<TypeKey, T>>) -> StateError {
        StateError::NotFound(T::spec_id())
    }

    fn get(&self, state: &State<T>) -> (r: StateResult<T>) {
        state.registry().try_get_value(T::id())
    }
}

impl<T: CustomState> LensRef<T> for IdLens<T> {
    open spec fn spec_ref_found(&self, s: Seq<Map<TypeKey, T>>) -> bool {
        stack_has(s, T::spec_id())
    }

    /// `v` is the top-most state of kind `T`.
    open spec fn spec_ref_gives(&self, s: Seq<Map<TypeKey, T>>, v: T) -> bool {
        v == lookup(s, T::spec_id())->0
    }

    open spec fn spec_ref_missing(&self, s: Seq<Map<TypeKey, T>>) -> StateError {
        StateError::NotFound(T::spec_id())
    }

    fn get_ref<'a>(&self, state: &'a State<T>) -> (r: StateResult<&'a T>) {
        state.registry().try_borrow(T::id())
    }
}

impl<T: CustomState> LensMut<T> for IdLens<T> {
    open spec fn spec_present(&self, s: Seq<Map<TypeKey, T>>) -> bool {
        stack_has(s, T::spec_id())
    }

    open spec fn spec_get(&self, s: Seq<Map<TypeKey, T>>) -> T {
        s[depth_of(s, T::spec_id())->0 as int][T::spec_id()]
    }

    open spec fn spec_put(&self, s: Seq<Map<TypeKey, T>>, value: T) -> Seq<Map<TypeKey, T>> {
        let d = depth_of(s, T::spec_id())->0 as int;
        s.update(d, s[d].insert(T::spec_id(), value))
    }

    open spec fn spec_error(&self, s: Seq<Map<TypeKey, T>>) -> StateError {
        StateError::NotFound(T::spec_id())
    }

    fn get_mut<'a>(&self, state: &'a mut State<T>) -> (r: StateResult<&'a mut T>)
        ensures
            r is Ok <==> stack_has(old(state).spec_registry()@, T::spec_id()),
            r matches Ok(v) ==> {
                let s = old(state).spec_registry()@;
                let d = crate::state::registry::depth_of(s, T::spec_id())->0 as int;
                &&& *v == s[d][T::spec_id()]
                &&& final(state).spec_registry()@ == s.update(d, s[d].insert(T::spec_id(), *final(v)))
            },
            r is Err ==> r == Err::<&mut T, StateError>(StateError::NotFound(T::spec_id())),
            r is Err ==> final(state).spec_registry()@ == old(state).spec_registry()@,
    {
        state.registry_mut().try_borrow_mut(T::id())
    }
}

/// The lens that names the value of the state of kind `T`.
pub struct ValueOf<T>(PhantomData<T>);

impl<T> ValueOf<T> {
    /// Creates the lens.
    pub fn new() -> (r: Self) {
        ValueOf(PhantomData)
    }
}

impl<T> AnyLens for ValueOf<T> {
    type Target = T;
}

impl<T: CustomState + Clone> Lens<T> for ValueOf<T> {
    open spec fn spec_found(&self, s: Seq<Map<TypeKey, T>>) -> bool {
        stack_has(s, T::spec_id())
    }

    /// `v` is a clone of the top-most state of kind `T`.
    open spec fn spec_gives(&self, s: Seq<Map<TypeKey, T>>, v: T) -> bool {
        cloned(lookup(s, T::spec_id())->0, v)
    }

    open spec fn spec_missing(&self, s: Seq<Map<TypeKey, T>>) -> StateError {
        StateError::NotFound(T::spec_id())
    }

    fn get(&self, state: &State<T>) -> (r: StateResult<T>) {
        match state.registry().try_borrow_value(T::id()) {
            Ok(v) => Ok(v.clone()),
            Err(e) => Err(e),
        }
    }
}

impl<T: CustomState> LensRef<T> for ValueOf<T> {
    open spec fn spec_ref_found(&self, s: Seq<Map<TypeKey, T>>) -> bool {
        stack_has(s, T::spec_id())
    }

    /// `v` is the top-most state of kind `T`.
    open spec fn spec_ref_gives(&self, s: Seq<Map<TypeKey, T>>, v: T) -> bool {
        v == lookup(s, T::spec_id())->0
    }

    open spec fn spec_ref_missing(&self, s: Seq<Map<TypeKey, T>>) -> StateError {
        StateError::NotFound(T::spec_id())
    }

    fn get_ref<'a>(&self, state: &'a State<T>) -> (r: StateResult<&'a T>) {
        state.registry().try_borrow_value(T::id())
    }
}

impl<T: CustomState> LensMut<T> for ValueOf<T> {
    open spec fn spec_present(&self, s: Seq<Map<TypeKey, T>>) -> bool {
        stack_has(s, T::spec_id())
    }

    open spec fn spec_get(&self, s: Seq<Map<TypeKey, T>>) -> T {
        s[depth_of(s, T::spec_id())->0 as int][T::spec_id()]
    }

    open spec fn spec_put(&self, s: Seq<Map<TypeKey, T>>, value: T) -> Seq<Map<TypeKey, T>> {
        let d = depth_of(s, T::spec_id())->0 as int;
        s.update(d, s[d].insert(T::spec_id(), value))
    }

    open spec fn spec_error(&self, s: Seq<Map<TypeKey, T>>) -> StateError {
        StateError::NotFound(T::spec_id())
    }

    fn get_mut<'a>(&self, state: &'a mut State<T>) -> (r: StateResult<&'a mut T>)
        ensures
            r is Ok <==> stack_has(old(state).spec_registry()@, T::spec_id()),
            r matches Ok(v) ==> {
                let s = old(state).spec_registry()@;
                let d = crate::state::registry::depth_of(s, T::spec_id())->0 as int;
                &&& *v == s[d][T::spec_id()]
                &&& final(state).spec_registry()@ == s.update(d, s[d].insert(T::spec_id(), *final(v)))
            },
            r is Err ==> r == Err::<&mut T, StateError>(StateError::NotFound(T::spec_id())),
            r is Err ==> final(state).spec_registry()@ == old(state).spec_registry()@,
    {
        state.registry_mut().try_borrow_value_mut(T::id())
    }
}

/// The lens that gives the size of the top-most population.
pub struct PopulationSizeLens<I>(PhantomData<I>);

impl<I> PopulationSizeLens<I> {
    /// Creates the lens.
    pub fn new() -> (r: Self) {
        PopulationSizeLens(PhantomData)
    }
}

impl<I> AnyLens for PopulationSizeLens<I> {
    type Target = u32;
}

impl<I> PopulationSizeLens<I> {
    /// The size of the top-most population of `source`, truncated to 32 bits; there must be a
    /// population.
    pub fn map(&self, source: &Populations<I>) -> (r: u32)
        requires
            source@.len() > 0,
        ensures
            r == source@.last().len() as u32,
    {
        let n = source.current().len();
        #[verifier::truncate]
        (n as u32)
    }
}

} // verus!
