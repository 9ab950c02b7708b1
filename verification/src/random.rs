use rand::Rng;
use vstd::prelude::*;

verus! {

/// One byte from the thread-local generator of the `rand` crate:
/// `rand::thread_rng().gen()`.
///
/// Nothing is claimed of the byte. Two calls may give different bytes, and
/// every caller is verified for all 256 of them. The generator seeds itself
/// from the operating system when a thread first uses it, and panics if the
/// system cannot give it a seed.
#[verifier::external_body]
pub(crate) fn random_byte() -> (byte: u8) {
    rand::thread_rng().gen()
}

} // verus!
