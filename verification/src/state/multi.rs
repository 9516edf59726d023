//! Requests for several kinds of custom state at once.

pub use crate::state::registry::multi::{all_distinct, MultiStateTuple};
