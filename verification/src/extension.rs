//! The per-message extension interface of the codec.
//!
//! A session owns an ordered chain of extension instances.  Negotiation
//! configures each from the peer's header and lets it claim reserved
//! header bits; once the session is open, final Text and Binary frames
//! run through every enabled member, in registration order, on the way in
//! and out.

use vstd::prelude::*;
use crate::base::rsv_superset;
use crate::frame::Frame;

verus! {

/// One negotiable per-message extension.
///
/// An error from any method carries the extension's own code; the session
/// wraps it and fails.  Implementations must keep the two stated
/// contracts: claiming reserved bits never clears one already claimed,
/// and an incoming transform never changes a frame's opcode or fin flag.
pub trait Extension: Sized {
    /// Whether the extension is enabled, as contracts see it.
    spec fn enabled_spec(&self) -> bool;

    /// Whether the extension is currently enabled.
    fn enabled(&self) -> (r: bool)
        ensures
            r == self.enabled_spec(),
    ;

    /// Configure from the peer's negotiation header value.  An extension
    /// the peer did not name must disable itself.
    fn from_header(&mut self, header: &[u8]) -> (r: Result<(), u64>);

    /// Disable the extension; negotiation does this when its reserved-bit
    /// claim would collide.
    fn disable(&mut self)
        ensures
            !final(self).enabled_spec(),
    ;

    /// Claim RSV bits: the returned mask keeps every bit of `current` and
    /// may set ones not yet taken.
    fn reserve_rsv(&mut self, current: u8) -> (r: Result<u8, u64>)
        ensures
            (match r {
                Ok(m) => rsv_superset(m, current),
                Err(_) => true,
            }),
    ;

    /// The negotiation string to offer or answer with, if any.
    fn into_header(&mut self) -> (r: Result<Option<Vec<u8>>, u64>);

    /// Transform an incoming message frame.
    fn decode(&mut self, frame: &mut Frame) -> (r: Result<(), u64>)
        ensures
            r is Ok ==> final(frame).opcode == old(frame).opcode && final(frame).fin == old(
                frame,
            ).fin,
    ;

    /// Transform an outgoing message frame; it may set RSV bits the
    /// extension reserved.
    fn encode(&mut self, frame: &mut Frame) -> (r: Result<(), u64>);
}

/// The inert extension: never enabled, never transforms.  A session
/// without extensions is a `Twist<NoExtension>` with an empty chain.
pub struct NoExtension;

impl Extension for NoExtension {
    open spec fn enabled_spec(&self) -> bool {
        false
    }

    fn enabled(&self) -> (r: bool) {
        false
    }

    fn from_header(&mut self, header: &[u8]) -> (r: Result<(), u64>) {
        Ok(())
    }

    fn disable(&mut self) {
    }

    fn reserve_rsv(&mut self, current: u8) -> (r: Result<u8, u64>) {
        Ok(current)
    }

    fn into_header(&mut self) -> (r: Result<Option<Vec<u8>>, u64>) {
        Ok(None)
    }

    fn decode(&mut self, frame: &mut Frame) -> (r: Result<(), u64>) {
        Ok(())
    }

    fn encode(&mut self, frame: &mut Frame) -> (r: Result<(), u64>) {
        Ok(())
    }
}

/// A mutable borrow of the chain member at `i`.
pub fn ext_at<E>(v: &mut Vec<E>, i: usize) -> (r: &mut E)
    requires
        i < old(v)@.len(),
    ensures
        *r == old(v)@[i as int],
        final(v)@ == old(v)@.update(i as int, *final(r)),
{
    &mut v[i]
}

} // verus!
