//! Ownership tokens: shared, payload-less counted handles.
//!
//! Every cache entry owns one token; every open file handle holds a clone of
//! that entry's token.  The number of live clones is the only observable
//! property: an entry is *busy* (ineligible for eviction) exactly when more
//! holders than the index itself are alive.  The count is global, mutable
//! state shared between threads, so nothing more than "at least the handle
//! we hold exists" can be promised about any single observation.

use vstd::prelude::*;
use std::sync::Arc;

verus! {

/// A shared, payload-less counted handle.
///
/// Cloning increments the live count; dropping a clone decrements it.
pub struct UsageToken {
    handle: Arc<()>,
}

impl UsageToken {
    /// A fresh token with exactly one live holder (the returned value).
    pub fn new() -> UsageToken {
        UsageToken { handle: Arc::new(()) }
    }

    /// A new holder of the same token.
    ///
    /// Relies on `Arc::clone`: returns a handle to the same allocation and
    /// increments its reference count.
    #[verifier::external_body]
    pub fn duplicate(&self) -> UsageToken {
        UsageToken { handle: Arc::clone(&self.handle) }
    }

    /// Relies on `Arc::strong_count`: the number of live handles to this
    /// token's allocation at some moment during the call.  The count is
    /// shared state, so no two observations need to agree; at least the
    /// handle `self` holds is alive.
    #[verifier::external_body]
    fn live_count(&self) -> (count: usize)
        ensures
            count >= 1,
    {
        Arc::strong_count(&self.handle)
    }

    /// Whether any holder besides a single owner is alive at the moment of
    /// the observation.  An entry whose token reports `true` here is busy:
    /// some reader or writer still references the entry's file.
    pub fn is_shared(&self) -> bool {
        self.live_count() > 1
    }
}

} // verus!
