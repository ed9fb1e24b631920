//! The one source of identifiers.

use rand::Rng;
use vstd::prelude::*;

verus! {

/// `Rng::gen` of rand on the generator that `rand::thread_rng` hands out: one
/// number drawn at random. Nothing is promised of the number.
#[verifier::external_body]
pub(crate) fn random_u64() -> u64 {
    rand::thread_rng().gen()
}

} // verus!
