//! Trusted UTF-8 validation of Text payloads.

use vstd::prelude::*;
use vstd::utf8::valid_utf8;

verus! {

/// Relies on `vatfluid::validate`: it returns `Success::Complete` exactly
/// when the slice is valid, complete UTF-8 under RFC 3629 — continuation
/// byte shapes, no overlong forms, no UTF-16 surrogates, nothing beyond
/// U+10FFFF.  A truncated final sequence reports incomplete, and a final
/// Text frame treats that as invalid too.
#[verifier::external_body]
pub fn utf8_complete(b: &[u8]) -> (r: bool)
    ensures
        r == valid_utf8(b@),
{
    match vatfluid::validate(b) {
        Ok(vatfluid::Success::Complete(_)) => true,
        Ok(vatfluid::Success::Incomplete(_, _)) => false,
        Err(_) => false,
    }
}

} // verus!
