//! The window shapes of the two Pedersen hashes of the account tree. Each hash
//! takes `WINDOW_SIZE * NUM_WINDOWS` bits of input.

use crate::account::ACCOUNT_INFO_LEN;
use vstd::prelude::*;

verus! {

/// Length in bytes of a tree digest.
pub const DIGEST_LEN: usize = 32;

/// The shape of the hash of two child digests.
pub struct TwoToOneWindow;

impl TwoToOneWindow {
    pub const WINDOW_SIZE: usize = 128;
    pub const NUM_WINDOWS: usize = 4;

    /// The input holds exactly two digests.
    pub fn input_bits() -> (r: usize)
        ensures
            r == 2 * 8 * DIGEST_LEN,
    {
        Self::WINDOW_SIZE * Self::NUM_WINDOWS
    }
}

/// The shape of the hash of a leaf.
pub struct LeafWindow;

impl LeafWindow {
    pub const WINDOW_SIZE: usize = 144;
    pub const NUM_WINDOWS: usize = 4;

    /// The input holds exactly one encoded account record.
    pub fn input_bits() -> (r: usize)
        ensures
            r == 8 * ACCOUNT_INFO_LEN,
    {
        Self::WINDOW_SIZE * Self::NUM_WINDOWS
    }
}

} // verus!
