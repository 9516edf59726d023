//! Trait for types that identify custom state.

use vstd::prelude::*;

use crate::state::registry::TypeKey;

verus! {

/// A type that names a kind of custom state.
///
/// Every custom state kind is identified by a [`TypeKey`], which doubles as its index in a
/// registry. Implementors choose the key; two kinds of state are the same state exactly when
/// their keys are equal.
///
/// Nothing keeps two different kinds from choosing the same key: they then share one entry of
/// every registry, and each reads and overwrites the other's state. Give every kind a key of
/// its own.
pub trait CustomState {
    /// The key of this kind of state.
    spec fn spec_id() -> TypeKey;

    /// Returns the key of this kind of state.
    fn id() -> (r: TypeKey)
        ensures
            r == Self::spec_id(),
    ;
}

} // verus!
