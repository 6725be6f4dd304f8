//! Blake2s as a random oracle with 32-byte outputs.

use crate::crypto::{blake2s, blake2s_of};
use vstd::prelude::*;

verus! {

/// The Blake2s random oracle; it takes no parameters.
pub struct RO;

impl RO {
    /// The 32-byte Blake2s digest of `input`.
    pub fn evaluate(input: &[u8]) -> (r: Vec<u8>)
        ensures
            r@ == blake2s_of(input@),
            r@.len() == 32,
    {
        blake2s(input)
    }
}

} // verus!
