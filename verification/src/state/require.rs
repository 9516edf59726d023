//! State requirements.

use vstd::prelude::*;

use crate::state::registry::{stack_has, CustomState, StateError, StateResult};
use crate::state::State;

verus! {

/// Helper to check if specific custom state is present in the state.
pub struct StateReq<'a, S>(&'a State<S>);

impl<'a, S> StateReq<'a, S> {
    /// The state whose requirements are checked.
    pub closed spec fn state(&self) -> &'a State<S> {
        self.0
    }

    /// Creates the helper for `state`.
    pub fn new(state: &'a State<S>) -> (r: Self)
        ensures
            r.state() == state,
    {
        StateReq(state)
    }

    /// Checks whether `T`, which is required by `Source`, is present in the state.
    pub fn require<Source: CustomState, T: CustomState>(&self) -> (r: StateResult<()>)
        ensures
            r is Ok <==> stack_has(self.state().spec_registry()@, T::spec_id()),
            r is Err ==> r == Err::<(), StateError>(
                StateError::RequiredMissing(T::spec_id(), Source::spec_id()),
            ),
    {
        if self.0.registry().has(T::id()) {
            Ok(())
        } else {
            Err(StateError::required_missing(Source::id(), T::id()))
        }
    }
}

} // verus!
