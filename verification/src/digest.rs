//! The Sec-WebSocket-Accept digest: base64 of the SHA-1 of the client's
//! key joined with the RFC 6455 GUID.

use vstd::prelude::*;
use vstd::slice::slice_to_vec;
use sha1::Digest;
use base64::Engine;
use crate::http::ascii_seq;

verus! {

/// The SHA-1 digest of a byte sequence, as a named function of its input.
pub uninterp spec fn sha1_of(s: Seq<u8>) -> Seq<u8>;

/// The standard-alphabet, padded base64 encoding of a byte sequence, as a
/// named function of its input.
pub uninterp spec fn base64_of(s: Seq<u8>) -> Seq<u8>;

/// Relies on `sha1::Sha1` through the `Digest` trait: the digest depends
/// on the input bytes alone and is 160 bits (20 bytes) long.
#[verifier::external_body]
fn sha1_digest(b: &[u8]) -> (r: Vec<u8>)
    ensures
        r@ == sha1_of(b@),
        r@.len() == 20,
{
    let mut h = sha1::Sha1::new();
    h.update(b);
    h.finalize().to_vec()
}

/// Relies on base64's `STANDARD` engine: RFC 4648 base64 with padding,
/// depending on the input bytes alone.
#[verifier::external_body]
pub(crate) fn base64_encode(b: &[u8]) -> (r: Vec<u8>)
    ensures
        r@ == base64_of(b@),
{
    base64::engine::general_purpose::STANDARD.encode(b).into_bytes()
}

/// The fixed GUID every accept digest appends to the key.
pub open spec fn guid_bytes() -> Seq<u8> {
    ascii_seq("258EAFA5-E914-47DA-95CA-C5AB0DC85B11"@)
}

/// The GUID as bytes.
fn guid_vec() -> (r: Vec<u8>)
    ensures
        r@ == guid_bytes(),
{
    let g: &str = "258EAFA5-E914-47DA-95CA-C5AB0DC85B11";
    proof {
        reveal_strlit("258EAFA5-E914-47DA-95CA-C5AB0DC85B11");
        assert(g.is_ascii());
        vstd::string::is_ascii_spec_bytes(g);
        assert(vstd::string::StringSliceAdditionalSpecFns::spec_bytes(g) =~= guid_bytes());
    }
    slice_to_vec(g.as_bytes())
}

/// The Sec-WebSocket-Accept value a key owes: base64 of the SHA-1 digest
/// of the key followed by the GUID.
pub open spec fn accept_of(key: Seq<u8>) -> Seq<u8> {
    base64_of(sha1_of(key + guid_bytes()))
}

/// Compute the accept value for a handshake key.
pub fn accept_value(key: &[u8]) -> (r: Vec<u8>)
    ensures
        r@ == accept_of(key@),
{
    let mut input: Vec<u8> = slice_to_vec(key);
    let g = guid_vec();
    input.extend_from_slice(g.as_slice());
    assert(input@ == key@ + guid_bytes());
    let d = sha1_digest(input.as_slice());
    base64_encode(d.as_slice())
}

} // verus!
