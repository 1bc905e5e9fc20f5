//! Typed errors surfaced by the codec.
//!
//! A short buffer is never an error: the codecs report it as a pending
//! (`Ok(None)`) result instead.  Every value here latches the session into
//! its failed state once surfaced.

use vstd::prelude::*;

verus! {

/// Why a handshake request or response was refused as malformed.
#[derive(Clone, Copy, Debug, PartialEq, Eq, Structural)]
pub enum BadHandshakeReason {
    /// The request line does not have its three parts.
    BadRequestLine,
    /// The status line does not carry a version and a 3-digit code.
    BadStatusLine,
    /// The request method is not GET.
    BadMethod,
    /// The HTTP version is absent or below 1.1.
    BadHttpVersion,
    /// A header line is continued onto the next line (obs-fold).
    ObsoleteLineFolding,
    /// A header line has no colon.
    BadHeaderLine,
    /// The Host header is missing.
    MissingHost,
    /// The Upgrade header is missing or is not `websocket`.
    MissingUpgrade,
    /// The Connection header is missing or does not list `Upgrade`.
    MissingConnection,
    /// The Sec-WebSocket-Key header is missing or empty.
    MissingKey,
    /// The Sec-WebSocket-Version header is not `13`.
    BadWebSocketVersion,
}

/// Why a base frame was refused during decode or encode.
#[derive(Clone, Copy, Debug, PartialEq, Eq, Structural)]
pub enum ProtocolReason {
    /// The opcode is in one of the reserved ranges.
    ReservedOpcode,
    /// An RSV bit is set that no enabled extension has reserved.
    UnreservedRsvBit,
    /// A control frame arrived with its fin bit clear.
    ControlNotFinal,
    /// A control frame carries a payload longer than 125 bytes.
    ControlTooLong,
    /// A server received a frame without the mask bit.
    UnmaskedFrame,
    /// A client received a frame with the mask bit set.
    MaskedFrame,
    /// An extended length field encodes a value its shorter form could hold.
    NonMinimalLength,
    /// The high bit of an 8-byte length field is set.
    LengthHighBit,
    /// A frame's stated payload length differs from the bytes it carries.
    LengthMismatch,
}

/// The error kinds of the codec.
#[derive(Clone, Copy, Debug, PartialEq, Eq, Structural)]
pub enum CodecError {
    /// A handshake request failed validation; maps to an HTTP 400.
    BadHandshake(BadHandshakeReason),
    /// A handshake response carried a Sec-WebSocket-Accept value that does
    /// not match the digest of the key this endpoint issued.
    HandshakeRejected,
    /// An envelope arrived that the current session state cannot accept.
    HandshakeOrdering,
    /// The handshake head grew beyond the configured byte cap.
    HandshakeTooLarge,
    /// A base frame broke a framing rule.
    ProtocolError(ProtocolReason),
    /// A final Text frame's payload is not valid UTF-8.
    InvalidUtf8,
    /// An extension in the chain failed; carries the extension's own code.
    ExtensionError(u64),
    /// Allocation, capacity, or entropy was exhausted.
    ResourceExhausted,
}

} // verus!
