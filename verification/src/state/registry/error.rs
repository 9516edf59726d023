//! Error type for [`StateRegistry`](crate::StateRegistry) errors.

use vstd::prelude::*;

use crate::state::registry::TypeKey;

verus! {

/// An error returned by fallible registry methods such as `try_borrow`.
///
/// State is identified by its [`TypeKey`], so each error names the key involved.
#[derive(Debug, Clone, Copy, PartialEq, Eq, Structural)]
pub enum StateError {
    /// The state with the given key does not exist in the registry.
    NotFound(TypeKey),
    /// A request for several states at once named the same state more than once.
    MultipleBorrowConflict,
    /// The state with the first key is missing, but the source with the second key requires it.
    RequiredMissing(TypeKey, TypeKey),
}

impl StateError {
    pub(crate) fn not_found(key: TypeKey) -> (r: Self)
        ensures
            r == StateError::NotFound(key),
    {
        StateError::NotFound(key)
    }

    pub(crate) fn multiple_borrow_conflict() -> (r: Self)
        ensures
            r == StateError::MultipleBorrowConflict,
    {
        StateError::MultipleBorrowConflict
    }

    pub(crate) fn required_missing(source: TypeKey, key: TypeKey) -> (r: Self)
        ensures
            r == StateError::RequiredMissing(key, source),
    {
        StateError::RequiredMissing(key, source)
    }
}

/// A specialized result type for registry operations.
pub type StateResult<T> = Result<T, StateError>;

} // verus!
