//! The source of random bytes for the `CXNN` instruction.
use vstd::prelude::*;

verus! {

/// One byte from `rand::random::<u8>()`, which samples the thread-local
/// generator. Nothing is stated of the byte beyond its type: it rests on
/// chance, and two calls may return different bytes.
#[verifier::external_body]
pub(crate) fn random_byte() -> (b: u8) {
    rand::random::<u8>()
}

} // verus!
