//! The machine's source of chance.
use vstd::prelude::*;
use rand::Rng;

verus! {

/// One byte from `rand`'s thread-local generator: `rand::thread_rng()` followed
/// by `Rng::gen::<u8>()`. Nothing is claimed of the byte: any value may come,
/// and two calls need not agree.
#[verifier::external_body]
pub(crate) fn random_byte() -> (byte: u8) {
    rand::thread_rng().gen::<u8>()
}

} // verus!
