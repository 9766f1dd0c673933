//! Trusted access to the process-wide random source and the system clock.
//!
//! Nothing here is verified: each function wraps one outside call, and the
//! verified code states only what holds of every outcome.

use vstd::prelude::*;

verus! {

/// Relies on rand's `thread_rng` and `Rng::gen::<u8>`: one uniformly random
/// byte. Nothing is promised of the value.
#[verifier::external_body]
pub(crate) fn rand_byte() -> u8 {
    rand::Rng::gen::<u8>(&mut rand::thread_rng())
}

/// Relies on rand's `thread_rng` and `Rng::gen_range` over `0..n`: a value
/// drawn uniformly below `n`. `gen_range` panics only on an empty range,
/// which the precondition rules out.
#[verifier::external_body]
pub(crate) fn rand_below(n: usize) -> (r: usize)
    requires
        n > 0,
    ensures
        r < n,
{
    rand::Rng::gen_range(&mut rand::thread_rng(), 0..n)
}

/// Relies on rand's `thread_rng` and `RngCore::fill_bytes`: fills the buffer
/// with random bytes. Nothing is promised of the values.
#[verifier::external_body]
pub(crate) fn rand_payload() -> [u8; 8] {
    let mut buf = [0u8; 8];
    rand::RngCore::fill_bytes(&mut rand::thread_rng(), &mut buf);
    buf
}

/// Relies on std's `SystemTime`: the milliseconds elapsed since the Unix
/// epoch, truncated to 64 bits. A clock that reads before the epoch is a
/// fatal misconfiguration and aborts here rather than yielding a wrong value.
#[verifier::external_body]
pub(crate) fn unix_millis() -> u64 {
    std::time::SystemTime::now().duration_since(std::time::UNIX_EPOCH).unwrap().as_millis() as u64
}

} // verus!
