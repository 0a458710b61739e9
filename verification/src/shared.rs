//! Handles to values that many validators share.
use std::sync::Arc;
use vstd::prelude::*;

verus! {

/// Makes one more handle to a shared value with `Arc::clone` of the standard
/// library, which is documented to point the new handle at the same
/// allocation: both handles read the same value.
#[verifier::external_body]
pub(crate) fn share<T>(handle: &Arc<T>) -> (other: Arc<T>)
    ensures
        *other == **handle,
{
    Arc::clone(handle)
}

/// Asks `Arc::ptr_eq` of the standard library whether two handles point at
/// the same allocation. Where they do they read the same value; where they
/// do not, nothing is claimed.
#[verifier::external_body]
pub(crate) fn same<T>(a: &Arc<T>, b: &Arc<T>) -> (same: bool)
    ensures
        same ==> **a == **b,
{
    Arc::ptr_eq(a, b)
}

} // verus!
