//! Values that several owners share.
use std::sync::Arc;
use vstd::prelude::*;

verus! {

/// Calls `Arc::clone`: returns another pointer to the same value.
#[verifier::external_body]
pub(crate) fn share<T>(value: &Arc<T>) -> (shared: Arc<T>)
    ensures
        shared == *value,
{
    value.clone()
}

} // verus!
