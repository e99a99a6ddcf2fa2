//! Random operation ids.
use vstd::prelude::*;

verus! {

/// A fresh random id, from `uuid::Uuid::new_v4`, as its 128 bits. Nothing is stated of the
/// value: it is random.
#[verifier::external_body]
pub(crate) fn new_random_id() -> u128 {
    uuid::Uuid::new_v4().as_u128()
}

} // verus!
