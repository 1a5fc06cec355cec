//! Values shared between their holders.

use vstd::prelude::*;
use std::sync::Arc;

verus! {

/// `Arc::clone` of std. Trusted: the new handle points to the same value as
/// the old one.
#[verifier::external_body]
pub(crate) fn share<T>(value: &Arc<T>) -> (r: Arc<T>)
    ensures
        r == *value,
{
    Arc::clone(value)
}

} // verus!
