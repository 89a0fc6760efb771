//! Shared-ownership helper used by the registry and the role tables.

use vstd::prelude::*;

verus! {

/// Relies on `std::sync::Arc::clone`: the clone is the same shared value.
#[verifier::external_body]
pub fn arc_clone<T>(a: &std::sync::Arc<T>) -> (r: std::sync::Arc<T>)
    ensures
        r == *a,
{
    std::sync::Arc::clone(a)
}

} // verus!
