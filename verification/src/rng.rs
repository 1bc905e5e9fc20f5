//! Trusted source of random bytes for mask keys and handshake keys.

use vstd::prelude::*;

verus! {

/// Relies on `getrandom::fill`: fills the slice with bytes drawn from the
/// operating system's entropy source.  Nothing is promised of the values;
/// failure reports the entropy source unavailable.
#[verifier::external_body]
pub fn fill_random(buf: &mut Vec<u8>) -> (r: Result<(), ()>)
    ensures
        final(buf)@.len() == old(buf)@.len(),
{
    match getrandom::fill(buf.as_mut_slice()) {
        Ok(()) => Ok(()),
        Err(_) => Err(()),
    }
}

} // verus!
