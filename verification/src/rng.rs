//! The source of randomness.

use vstd::prelude::*;

verus! {

/// A number drawn by `rand::random::<u32>()` from the thread-local generator
/// of the `rand` crate. The value depends on chance, so nothing is claimed
/// of it: callers are verified for every `u32`. The generator seeds itself
/// from the operating system on first use and panics if that source fails.
#[verifier::external_body]
pub(crate) fn random_u32() -> u32 {
    rand::random::<u32>()
}

} // verus!
