//! The random source behind `Cxnn`.

use vstd::prelude::*;

verus! {

/// Relies on `rand::random`: one random byte from the thread-local
/// generator. The result depends on the generator's state, so nothing is
/// promised of it; the instruction that masks it states what holds of every
/// outcome.
#[verifier::external_body]
pub(crate) fn random_byte() -> u8 {
    rand::random()
}

} // verus!
