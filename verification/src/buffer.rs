//! Trusted view of the byte buffers the codec consumes and fills.
//!
//! The codec exchanges bytes with its transport through `bytes::BytesMut`.
//! The buffer is declared opaque; [`bytes_view`] names its contents as a
//! byte sequence, and each method the codec relies on gets a wrapper whose
//! contract is stated over that view.

use vstd::prelude::*;
use bytes::BytesMut;

verus! {

#[verifier::external_type_specification]
#[verifier::external_body]
/// `bytes::BytesMut` as an opaque type.
pub struct ExBytesMut(BytesMut);

/// The bytes a `BytesMut` currently holds, in order.
pub uninterp spec fn bytes_view(b: BytesMut) -> Seq<u8>;

/// Relies on `bytes::BytesMut::len`: the number of bytes in the buffer.
#[verifier::external_body]
pub fn buf_len(b: &BytesMut) -> (r: usize)
    ensures
        r == bytes_view(*b).len(),
{
    b.len()
}

/// Relies on `bytes::BytesMut::as_ref`: a slice of the buffer's bytes.
#[verifier::external_body]
pub fn buf_slice(b: &BytesMut) -> (r: &[u8])
    ensures
        r@ == bytes_view(*b),
{
    b.as_ref()
}

/// Relies on `bytes::BytesMut::advance`: drops the first `n` bytes and
/// keeps the rest.
#[verifier::external_body]
pub fn buf_advance(b: &mut BytesMut, n: usize)
    requires
        n <= bytes_view(*old(b)).len(),
    ensures
        bytes_view(*final(b)) == bytes_view(*old(b)).skip(n as int),
{
    b.advance(n);
}

/// Relies on `bytes::BytesMut::extend_from_slice`: appends the slice's
/// bytes, growing the buffer as needed.
#[verifier::external_body]
pub fn buf_extend(b: &mut BytesMut, s: &[u8])
    ensures
        bytes_view(*final(b)) == bytes_view(*old(b)) + s@,
{
    b.extend_from_slice(s);
}

} // verus!
