//! Random numbers, from the `rand` crate's thread-local generator.

use vstd::prelude::*;

verus! {

/// Calls `rand::random` for a `u16`. The value comes from a generator that
/// the operating system seeds, so nothing is claimed about it: any 16-bit
/// value may come back, and two calls need not agree.
#[verifier::external_body]
pub(crate) fn random_u16() -> (value: u16) {
    rand::random()
}

/// Calls `rand::random` for a `u32`. The value comes from a generator that
/// the operating system seeds, so nothing is claimed about it: any 32-bit
/// value may come back, and two calls need not agree.
#[verifier::external_body]
pub(crate) fn random_u32() -> (value: u32) {
    rand::random()
}

} // verus!
