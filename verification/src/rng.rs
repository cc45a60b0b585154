//! The source of the random byte.

use vstd::prelude::*;

verus! {

/// Draws one byte from the thread-local generator of the `rand` crate, by
/// `rand::random::<u8>()`. Nothing is claimed of the byte: every value can
/// come back, and two calls need not agree. The generator is seeded from
/// the operating system when a thread first uses it, and that first use
/// panics if the operating system has no seed to give.
#[verifier::external_body]
pub(crate) fn random_byte() -> (r: u8) {
    rand::random::<u8>()
}

} // verus!
