//! The operating system's random source, through the `rand` crate.

use vstd::prelude::*;
use rand::rngs::OsRng;
use rand::RngCore;

verus! {

/// Calls `RngCore::fill_bytes` on `rand::rngs::OsRng` to draw an IV.
///
/// Nothing is claimed of the bytes: to the verifier two calls may return
/// anything, equal or not. `fill_bytes` panics where the operating system
/// cannot deliver random bytes.
#[verifier::external_body]
pub(crate) fn fresh_iv() -> (iv: [u8; 16])
{
    let mut iv: [u8; 16] = [0u8; 16];
    OsRng.fill_bytes(&mut iv);
    iv
}

} // verus!
