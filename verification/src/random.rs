use rand::Rng;
use vstd::prelude::*;

verus! {

/// Wrapper: a uniformly random `i32` in `low..=high`.
/// Trusted: calls `rand::Rng::gen_range` on the thread-local generator with the inclusive range;
/// rand documents that the value lies in the range and that the call panics on an empty range,
/// which `requires` rules out.
#[verifier::external_body]
pub(crate) fn random_in_range(low: i32, high: i32) -> (r: i32)
    requires
        low <= high,
    ensures
        low <= r <= high,
{
    rand::thread_rng().gen_range(low..=high)
}

/// Wrapper: a fresh random identifier (for trades, trade requests and crafting jobs).
/// Trusted: calls `uuid::Uuid::new_v4` and reads it as a `u128`; its value is random, so nothing
/// is stated of it.
#[verifier::external_body]
pub(crate) fn new_random_id() -> u128 {
    uuid::Uuid::new_v4().as_u128()
}

} // verus!
