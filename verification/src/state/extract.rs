//! Extractors: types that name a piece of a registry and read or write it.
//!
//! Unlike a lens, an extractor carries no value: the type alone says what it extracts.

use std::marker::PhantomData;

use vstd::prelude::*;

use crate::state::common::Populations;
use crate::state::registry::{
    depth_of, lookup, stack_has, CustomState, StateError, StateRegistry, StateResult, TypeKey,
};

verus! {

/// An extractor of a value from a registry.
pub trait Extract<S> {
    /// The type of what is extracted.
    type Target;

    /// Whether the extractor finds its value in the registry whose stack of maps is `s`.
    spec fn spec_found(s: Seq<Map<TypeKey, S>>) -> bool;

    /// Whether `v` is a value that the extractor may give from the stack of maps `s`.
    spec fn spec_gives(s: Seq<Map<TypeKey, S>>, v: Self::Target) -> bool;

    /// The error of the extractor on the stack of maps `s` where it finds no value.
    spec fn spec_missing(s: Seq<Map<TypeKey, S>>) -> StateError;

    /// Extracts the value from `state`.
    fn extract(state: &StateRegistry<S>) -> (r: StateResult<Self::Target>)
        ensures
            r is Ok <==> Self::spec_found(state@),
            r matches Ok(v) ==> Self::spec_gives(state@, v),
            r is Err ==> r == Err::<Self::Target, StateError>(Self::spec_missing(state@)),
    ;
}

/// An extractor that computes its value from one piece of state, its source.
pub trait ExtractMap {
    /// The type of the piece of state the value is computed from.
    type Source;

    /// The type of what is extracted.
    type Target;

    /// Computes the value from `source`.
    fn map(source: &Self::Source) -> Self::Target;
}

impl<E: ExtractMap> Extract<E::Source> for E where E::Source: CustomState {
    type Target = E::Target;

    /// The source's kind is on the stack.
    open spec fn spec_found(s: Seq<Map<TypeKey, E::Source>>) -> bool {
        stack_has(s, E::Source::spec_id())
    }

    /// `v` is what `map` may give on the top-most state of the source's kind.
    open spec fn spec_gives(s: Seq<Map<TypeKey, E::Source>>, v: E::Target) -> bool {
        call_ensures(E::map, (&lookup(s, E::Source::spec_id())->0,), v)
    }

    open spec fn spec_missing(s: Seq<Map<TypeKey, E::Source>>) -> StateError {
        StateError::NotFound(E::Source::spec_id())
    }

    /// Computes the value from the state of the source's kind.
    fn extract(state: &StateRegistry<E::Source>) -> (r: StateResult<E::Target>) {
        match state.try_borrow(E::Source::id()) {
            Ok(source) => Ok(E::map(source)),
            Err(e) => Err(e),
        }
    }
}

/// An extractor of a reference into a registry.
pub trait ExtractRef<S> {
    /// The type of what is referenced.
    type Target;

    /// Whether the extractor finds what it refers to in the registry whose stack of maps is `s`.
    spec fn spec_ref_found(s: Seq<Map<TypeKey, S>>) -> bool;

    /// Whether `v` is what the extractor may refer to in the stack of maps `s`.
    spec fn spec_ref_gives(s: Seq<Map<TypeKey, S>>, v: Self::Target) -> bool;

    /// The error of the extractor on the stack of maps `s` where it finds nothing.
    spec fn spec_ref_missing(s: Seq<Map<TypeKey, S>>) -> StateError;

    /// Borrows the value from `state`.
    fn extract_ref<'a>(state: &'a StateRegistry<S>) -> (r: StateResult<&'a Self::Target>)
        ensures
            r is Ok <==> Self::spec_ref_found(state@),
            r matches Ok(v) ==> Self::spec_ref_gives(state@, *v),
            r is Err ==> r == Err::<&Self::Target, StateError>(Self::spec_ref_missing(state@)),
    ;
}

/// An extractor of a reference into a registry that computes from its source.
pub trait ExtractMapRef {
    /// The type of the piece of state the reference points into.
    type Source;

    /// The type of what is referenced.
    type Target;

    /// Borrows the value from `source`.
    fn map(source: &Self::Source) -> &Self::Target;
}

impl<E: ExtractMapRef> ExtractRef<E::Source> for E where E::Source: CustomState {
    type Target = E::Target;

    /// The source's kind is on the stack.
    open spec fn spec_ref_found(s: Seq<Map<TypeKey, E::Source>>) -> bool {
        stack_has(s, E::Source::spec_id())
    }

    /// `v` is what `map` may give on the top-most state of the source's kind.
    open spec fn spec_ref_gives(s: Seq<Map<TypeKey, E::Source>>, v: E::Target) -> bool {
        call_ensures(E::map, (&lookup(s, E::Source::spec_id())->0,), &v)
    }

    open spec fn spec_ref_missing(s: Seq<Map<TypeKey, E::Source>>) -> StateError {
        StateError::NotFound(E::Source::spec_id())
    }

    /// Borrows the value from the state of the source's kind.
    fn extract_ref<'a>(state: &'a StateRegistry<E::Source>) -> (r: StateResult<&'a E::Target>) {
        match state.try_borrow(E::Source::id()) {
            Ok(source) => Ok(E::map(source)),
            Err(e) => Err(e),
        }
    }
}

/// An extractor of a mutable reference into a registry.
pub trait ExtractMutRef<S>: ExtractRef<S> {
    /// Whether the registry whose stack of maps is `s` holds what the extractor names.
    spec fn spec_present(s: Seq<Map<TypeKey, S>>) -> bool;

    /// What the extractor names in the stack of maps `s`.
    spec fn spec_get(s: Seq<Map<TypeKey, S>>) -> Self::Target;

    /// The stack of maps `s` after what the extractor names was overwritten with `value`.
    spec fn spec_put(s: Seq<Map<TypeKey, S>>, value: Self::Target) -> Seq<Map<TypeKey, S>>;

    /// The error of an extraction from the stack of maps `s` that does not hold what the
    /// extractor names.
    spec fn spec_error(s: Seq<Map<TypeKey, S>>) -> StateError;

    /// Borrows the value from `state` mutably.
    fn extract_mut<'a>(state: &'a mut StateRegistry<S>) -> (r: StateResult<&'a mut Self::Target>)
        ensures
            r is Ok <==> Self::spec_present(old(state)@),
            r matches Ok(v) ==> *v == Self::spec_get(old(state)@) && final(state)@
                == Self::spec_put(old(state)@, *final(v)),
            r is Err ==> r == Err::<&mut Self::Target, StateError>(
                Self::spec_error(old(state)@),
            ) && final(state)@ == old(state)@,
    ;
}

/// An extractor through which a value can be written into a registry.
pub trait Assign<S>: ExtractMutRef<S> {
    /// Overwrites the value in `state` with `value`.
    fn assign(value: Self::Target, state: &mut StateRegistry<S>) -> (r: StateResult<()>)
        ensures
            r is Ok <==> Self::spec_present(old(state)@),
            r is Ok ==> final(state)@ == Self::spec_put(old(state)@, value),
            r is Err ==> r == Err::<(), StateError>(Self::spec_error(old(state)@))
                && final(state)@ == old(state)@,
    ;
}

impl<S, E: ExtractMutRef<S>> Assign<S> for E {
    fn assign(value: Self::Target, state: &mut StateRegistry<S>) -> (r: StateResult<()>) {
        match Self::extract_mut(state) {
            Ok(t) => {
                *t = value;
                Ok(())
            },
            Err(e) => Err(e),
        }
    }
}

/// The extractor of the state of kind `T` itself.
pub struct IdFn<T>(PhantomData<T>);

impl<T: CustomState + Clone> Extract<T> for IdFn<T> {
    type Target = T;

    open spec fn spec_found(s: Seq<Map<TypeKey, T>>) -> bool {
        stack_has(s, T::spec_id())
    }

    /// `v` is a clone of the top-most state of kind `T`.
    open spec fn spec_gives(s: Seq<Map<TypeKey, T>>, v: T) -> bool {
        cloned(lookup(s, T::spec_id())->0, v)
    }

    open spec fn spec_missing(s: Seq<Map<TypeKey, T>>) -> StateError {
        StateError::NotFound(T::spec_id())
    }

    fn extract(state: &StateRegistry<T>) -> (r: StateResult<T>) {
        state.try_get_value(T::id())
    }
}

impl<T: CustomState> ExtractRef<T> for IdFn<T> {
    type Target = T;

    open spec fn spec_ref_found(s: Seq<Map<TypeKey, T>>) -> bool {
        stack_has(s, T::spec_id())
    }

    /// `v` is the top-most state of kind `T`.
    open spec fn spec_ref_gives(s: Seq<Map<TypeKey, T>>, v: T) -> bool {
        v == lookup(s, T::spec_id())->0
    }

    open spec fn spec_ref_missing(s: Seq<Map<TypeKey, T>>) -> StateError {
        StateError::NotFound(T::spec_id())
    }

    fn extract_ref<'a>(state: &'a StateRegistry<T>) -> (r: StateResult<&'a T>) {
        state.try_borrow(T::id())
    }
}

impl<T: CustomState> ExtractMutRef<T> for IdFn<T> {
    open spec fn spec_present(s: Seq<Map<TypeKey, T>>) -> bool {
        stack_has(s, T::spec_id())
    }

    open spec fn spec_get(s: Seq<Map<TypeKey, T>>) -> T {
        s[depth_of(s, T::spec_id())->0 as int][T::spec_id()]
    }

    open spec fn spec_put(s: Seq<Map<TypeKey, T>>, value: T) -> Seq<Map<TypeKey, T>> {
        let d = depth_of(s, T::spec_id())->0 as int;
        s.update(d, s[d].insert(T::spec_id(), value))
    }

    open spec fn spec_error(s: Seq<Map<TypeKey, T>>) -> StateError {
        StateError::NotFound(T::spec_id())
    }

    fn extract_mut<'a>(state: &'a mut StateRegistry<T>) -> (r: StateResult<&'a mut T>)
        ensures
            r is Ok <==> stack_has(old(state)@, T::spec_id()),
            r matches Ok(v) ==> {
                let d = depth_of(old(state)@, T::spec_id())->0 as int;
                &&& *v == old(state)@[d][T::spec_id()]
                &&& final(state)@ == old(state)@.update(
                    d,
                    old(state)@[d].insert(T::spec_id(), *final(v)),
                )
            },
            r is Err ==> r == Err::<&mut T, StateError>(StateError::NotFound(T::spec_id())),
            r is Err ==> final(state)@ == old(state)@,
    {
        state.try_borrow_mut(T::id())
    }
}

/// The extractor of the value of the state of kind `T`.
pub struct ValueOf<T>(PhantomData<T>);

impl<T: CustomState + Clone> Extract<T> for ValueOf<T> {
    type Target = T;

    open spec fn spec_found(s: Seq<Map<TypeKey, T>>) -> bool {
        stack_has(s, T::spec_id())
    }

    /// `v` is a clone of the top-most state of kind `T`.
    open spec fn spec_gives(s: Seq<Map<TypeKey, T>>, v: T) -> bool {
        cloned(lookup(s, T::spec_id())->0, v)
    }

    open spec fn spec_missing(s: Seq<Map<TypeKey, T>>) -> StateError {
        StateError::NotFound(T::spec_id())
    }

    fn extract(state: &StateRegistry<T>) -> (r: StateResult<T>) {
        state.try_get_value(T::id())
    }
}

impl<T: CustomState> ExtractRef<T> for ValueOf<T> {
    type Target = T;

    open spec fn spec_ref_found(s: Seq<Map<TypeKey, T>>) -> bool {
        stack_has(s, T::spec_id())
    }

    /// `v` is the top-most state of kind `T`.
    open spec fn spec_ref_gives(s: Seq<Map<TypeKey, T>>, v: T) -> bool {
        v == lookup(s, T::spec_id())->0
    }

    open spec fn spec_ref_missing(s: Seq<Map<TypeKey, T>>) -> StateError {
        StateError::NotFound(T::spec_id())
    }

    fn extract_ref<'a>(state: &'a StateRegistry<T>) -> (r: StateResult<&'a T>) {
        state.try_borrow_value(T::id())
    }
}

impl<T: CustomState> ExtractMutRef<T> for ValueOf<T> {
    open spec fn spec_present(s: Seq<Map<TypeKey, T>>) -> bool {
        stack_has(s, T::spec_id())
    }

    open spec fn spec_get(s: Seq<Map<TypeKey, T>>) -> T {
        s[depth_of(s, T::spec_id())->0 as int][T::spec_id()]
    }

    open spec fn spec_put(s: Seq<Map<TypeKey, T>>, value: T) -> Seq<Map<TypeKey, T>> {
        let d = depth_of(s, T::spec_id())->0 as int;
        s.update(d, s[d].insert(T::spec_id(), value))
    }

    open spec fn spec_error(s: Seq<Map<TypeKey, T>>) -> StateError {
        StateError::NotFound(T::spec_id())
    }

    fn extract_mut<'a>(state: &'a mut StateRegistry<T>) -> (r: StateResult<&'a mut T>)
        ensures
            r is Ok <==> stack_has(old(state)@, T::spec_id()),
            r matches Ok(v) ==> {
                let d = depth_of(old(state)@, T::spec_id())->0 as int;
                &&& *v == old(state)@[d][T::spec_id()]
                &&& final(state)@ == old(state)@.update(
                    d,
                    old(state)@[d].insert(T::spec_id(), *final(v)),
                )
            },
            r is Err ==> r == Err::<&mut T, StateError>(StateError::NotFound(T::spec_id())),
            r is Err ==> final(state)@ == old(state)@,
    {
        state.try_borrow_value_mut(T::id())
    }
}

/// The extractor of the size of the top-most population.
pub struct ExPopulationSize<I>(PhantomData<I>);

impl<I> ExPopulationSize<I> {
    /// The size of the top-most population of `source`, truncated to 32 bits; there must be a
    /// population.
    pub fn map(source: &Populations<I>) -> (r: u32)
        requires
            source@.len() > 0,
        ensures
            r == source@.last().len() as u32,
    {
        let n = source.current().len();
        #[verifier::truncate]
        (n as u32)
    }
}

} // verus!
