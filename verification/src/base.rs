//! Encoding and decoding of single base frames.
//!
//! [`spec_parse`] is the mathematical parser: it maps a byte sequence (and
//! the codec's settings) to a pending, rejected, or complete outcome, the
//! complete outcome naming the frame denoted and the bytes it occupies.
//! [`FrameCodec::decode`] and [`FrameCodec::encode`] are proved against it.

use vstd::prelude::*;
use vstd::slice::{slice_subrange, slice_to_vec};
use bytes::BytesMut;
use crate::buffer::{buf_advance, buf_extend, buf_len, buf_slice, bytes_view};
use crate::error::{CodecError, ProtocolReason};
use crate::rng::fill_random;
use crate::frame::{
    is_control, op_from, op_num, opcode_from_u8, opcode_is_control, opcode_to_u8, Frame, OpCode,
};

verus! {

/// Settings under which base frames are decoded and encoded.
#[derive(Clone, Copy, Debug)]
pub struct FrameCodec {
    /// Whether this endpoint is the client (it masks what it sends and
    /// refuses masked frames) or the server (the mirror).
    pub client: bool,
    /// Low three bits record which RSV bits enabled extensions reserved.
    pub reserved_bits: u8,
    /// Frames whose payload is longer than this are refused.
    pub max_frame_payload: u64,
    /// Accept unmasked frames on the server; a test-only escape hatch.
    pub allow_unmasked: bool,
    /// Refuse RSV bits no extension reserved.
    pub strict_rsv: bool,
}

/// Default cap on a frame's payload, 16 MiB.
pub const DEFAULT_MAX_FRAME_PAYLOAD: u64 = 16777216;

impl Default for FrameCodec {
    /// Server role, no bits reserved, strict, 16 MiB payload cap.
    fn default() -> (r: FrameCodec)
        ensures
            !r.client,
            r.reserved_bits == 0,
            r.max_frame_payload == DEFAULT_MAX_FRAME_PAYLOAD,
            !r.allow_unmasked,
            r.strict_rsv,
    {
        FrameCodec {
            client: false,
            reserved_bits: 0,
            max_frame_payload: DEFAULT_MAX_FRAME_PAYLOAD,
            allow_unmasked: false,
            strict_rsv: true,
        }
    }
}

impl FrameCodec {
    /// Set the role.
    pub fn set_client(&mut self, client: bool)
        ensures
            *final(self) == (FrameCodec { client, ..*old(self) }),
    {
        self.client = client;
    }

    /// Set the reserved-bit mask.
    pub fn set_reserved_bits(&mut self, reserved_bits: u8)
        ensures
            *final(self) == (FrameCodec { reserved_bits, ..*old(self) }),
    {
        self.reserved_bits = reserved_bits;
    }
}

/// Bit 7 of a byte: fin in the first header byte, mask in the second.
pub open spec fn top_bit(b: u8) -> bool {
    b >= 128
}

/// Bit 6 of a byte: RSV1.
pub open spec fn bit6(b: u8) -> bool {
    (b / 64) % 2 == 1
}

/// Bit 5 of a byte: RSV2.
pub open spec fn bit5(b: u8) -> bool {
    (b / 32) % 2 == 1
}

/// Bit 4 of a byte: RSV3.
pub open spec fn bit4(b: u8) -> bool {
    (b / 16) % 2 == 1
}

/// The low 4 bits: the opcode field.
pub open spec fn low4(b: u8) -> u8 {
    b % 16
}

/// The low 7 bits: the short length field.
pub open spec fn low7(b: u8) -> u8 {
    b % 128
}

/// Whether the mask records RSV1 as reserved by an extension.
pub open spec fn rsv1_reserved(m: u8) -> bool {
    m % 2 == 1
}

/// Whether the mask records RSV2 as reserved.
pub open spec fn rsv2_reserved(m: u8) -> bool {
    (m / 2) % 2 == 1
}

/// Whether the mask records RSV3 as reserved.
pub open spec fn rsv3_reserved(m: u8) -> bool {
    (m / 4) % 2 == 1
}

/// Every reserved bit of `a` is also reserved in `b`.
pub open spec fn rsv_superset(b: u8, a: u8) -> bool {
    &&& rsv1_reserved(a) ==> rsv1_reserved(b)
    &&& rsv2_reserved(a) ==> rsv2_reserved(b)
    &&& rsv3_reserved(a) ==> rsv3_reserved(b)
}

/// An incoming frame's RSV bits are acceptable under the codec's settings.
pub open spec fn rsv_allowed(c: FrameCodec, rsv1: bool, rsv2: bool, rsv3: bool) -> bool {
    !c.strict_rsv || {
        &&& rsv1 ==> rsv1_reserved(c.reserved_bits)
        &&& rsv2 ==> rsv2_reserved(c.reserved_bits)
        &&& rsv3 ==> rsv3_reserved(c.reserved_bits)
    }
}

/// The value of a 2-byte big-endian length field.
pub open spec fn be16(a: u8, b: u8) -> nat {
    (a as nat) * 256 + (b as nat)
}

/// The value of an 8-byte big-endian length field.
pub open spec fn be64(s: Seq<u8>) -> nat
    recommends
        s.len() == 8,
{
    (s[0] as nat) * 0x100000000000000 + (s[1] as nat) * 0x1000000000000 + (s[2] as nat)
        * 0x10000000000 + (s[3] as nat) * 0x100000000 + (s[4] as nat) * 0x1000000 + (s[5] as nat)
        * 0x10000 + (s[6] as nat) * 0x100 + (s[7] as nat) * 1
}

/// XOR of each payload byte with the key byte at its index modulo 4.
/// Masking and unmasking are the same operation.
pub open spec fn unmask(p: Seq<u8>, key: Seq<u8>) -> Seq<u8>
    recommends
        key.len() == 4,
{
    Seq::new(p.len(), |i: int| p[i] ^ key[i % 4])
}

/// The frame a complete parse denotes.
pub ghost struct FrameModel {
    /// Final fragment.
    pub fin: bool,
    /// RSV1 as it stood on the wire.
    pub rsv1: bool,
    /// RSV2 as it stood on the wire.
    pub rsv2: bool,
    /// RSV3 as it stood on the wire.
    pub rsv3: bool,
    /// The opcode; never `Reserved` in a complete parse.
    pub opcode: OpCode,
    /// Whether the frame was masked.
    pub masked: bool,
    /// The 4-byte key when masked, empty otherwise.
    pub mask: Seq<u8>,
    /// The payload length the header stated.
    pub payload_len: nat,
    /// The unmasked payload.
    pub app: Seq<u8>,
}

/// The outcome of parsing a buffer as one base frame.
pub ghost enum Parse {
    /// More bytes are needed; nothing may be consumed.
    Incomplete,
    /// The bytes break a framing rule.
    Reject(CodecError),
    /// A complete frame, and the count of bytes it occupies.
    Complete(FrameModel, nat),
}

/// The parse outcome is a complete frame.
pub open spec fn parse_is_complete(p: Parse) -> bool {
    match p {
        Parse::Complete(_, _) => true,
        _ => false,
    }
}

/// The model of a complete parse.
pub open spec fn parse_model(p: Parse) -> FrameModel
    recommends
        parse_is_complete(p),
{
    match p {
        Parse::Complete(m, _) => m,
        _ => arbitrary(),
    }
}

/// The bytes a complete parse occupies.
pub open spec fn parse_used(p: Parse) -> nat {
    match p {
        Parse::Complete(_, used) => used,
        _ => 0,
    }
}

/// Payload and trailer checkpoints, after the extended length is known:
/// cap the payload, then require the mask key and the payload bytes.
pub open spec fn spec_parse_body(c: FrameCodec, s: Seq<u8>, off: nat, plen: nat) -> Parse
    recommends
        s.len() >= 2,
{
    let masked = top_bit(s[1]);
    if plen > c.max_frame_payload {
        Parse::Reject(CodecError::ResourceExhausted)
    } else {
        let mk: nat = if masked {
            4
        } else {
            0
        };
        if s.len() < off + mk + plen {
            Parse::Incomplete
        } else {
            let key = if masked {
                s.subrange(off as int, (off + 4) as int)
            } else {
                Seq::<u8>::empty()
            };
            let raw = s.subrange((off + mk) as int, (off + mk + plen) as int);
            Parse::Complete(
                FrameModel {
                    fin: top_bit(s[0]),
                    rsv1: bit6(s[0]),
                    rsv2: bit5(s[0]),
                    rsv3: bit4(s[0]),
                    opcode: op_from(low4(s[0])),
                    masked,
                    mask: key,
                    payload_len: plen,
                    app: if masked {
                        unmask(raw, key)
                    } else {
                        raw
                    },
                },
                off + mk + plen,
            )
        }
    }
}

/// The extended-length checkpoint: 0, 2 or 8 further bytes, rejecting a
/// non-minimal form and an 8-byte length with its high bit set.
pub open spec fn spec_parse_len(c: FrameCodec, s: Seq<u8>) -> Parse
    recommends
        s.len() >= 2,
{
    let len7 = low7(s[1]);
    if len7 < 126 {
        spec_parse_body(c, s, 2, len7 as nat)
    } else if len7 == 126 {
        if s.len() < 4 {
            Parse::Incomplete
        } else if be16(s[2], s[3]) < 126 {
            Parse::Reject(CodecError::ProtocolError(ProtocolReason::NonMinimalLength))
        } else {
            spec_parse_body(c, s, 4, be16(s[2], s[3]))
        }
    } else {
        if s.len() < 10 {
            Parse::Incomplete
        } else if s[2] >= 128 {
            Parse::Reject(CodecError::ProtocolError(ProtocolReason::LengthHighBit))
        } else if be64(s.subrange(2, 10)) < 65536 {
            Parse::Reject(CodecError::ProtocolError(ProtocolReason::NonMinimalLength))
        } else {
            spec_parse_body(c, s, 10, be64(s.subrange(2, 10)))
        }
    }
}

/// The parser: the 2-byte prefix checkpoint and its validations, in order
/// RSV discipline, opcode range, control-frame shape, mask direction; then
/// the extended length, mask key and payload checkpoints.
pub open spec fn spec_parse(c: FrameCodec, s: Seq<u8>) -> Parse {
    if s.len() < 2 {
        Parse::Incomplete
    } else {
        let b0 = s[0];
        let b1 = s[1];
        if !rsv_allowed(c, bit6(b0), bit5(b0), bit4(b0)) {
            Parse::Reject(CodecError::ProtocolError(ProtocolReason::UnreservedRsvBit))
        } else if op_from(low4(b0)) == OpCode::Reserved {
            Parse::Reject(CodecError::ProtocolError(ProtocolReason::ReservedOpcode))
        } else if is_control(op_from(low4(b0))) && !top_bit(b0) {
            Parse::Reject(CodecError::ProtocolError(ProtocolReason::ControlNotFinal))
        } else if is_control(op_from(low4(b0))) && low7(b1) > 125 {
            Parse::Reject(CodecError::ProtocolError(ProtocolReason::ControlTooLong))
        } else if !c.client && !top_bit(b1) && !c.allow_unmasked {
            Parse::Reject(CodecError::ProtocolError(ProtocolReason::UnmaskedFrame))
        } else if c.client && top_bit(b1) {
            Parse::Reject(CodecError::ProtocolError(ProtocolReason::MaskedFrame))
        } else {
            spec_parse_len(c, s)
        }
    }
}

/// The decoded frame carries exactly the fields of the model: header flags
/// and opcode as on the wire, the unmasked payload as application data, no
/// extension data.
pub open spec fn frame_matches(f: Frame, m: FrameModel) -> bool {
    &&& f.fin == m.fin
    &&& f.rsv1 == m.rsv1
    &&& f.rsv2 == m.rsv2
    &&& f.rsv3 == m.rsv3
    &&& f.opcode == m.opcode
    &&& f.masked == m.masked
    &&& f.payload_length == m.payload_len
    &&& match f.mask_key {
        Some(k) => m.masked && k@ == m.mask,
        None => !m.masked,
    }
    &&& f.extension_data is None
    &&& f.application_data@ == m.app
}

/// What `FrameCodec::decode` guarantees, as a relation between the buffer
/// before (`s`) and after (`s2`) and the returned value.
pub open spec fn decode_post(
    c: FrameCodec,
    s: Seq<u8>,
    s2: Seq<u8>,
    r: Result<Option<Frame>, CodecError>,
) -> bool {
    match spec_parse(c, s) {
        Parse::Incomplete => r == Ok::<Option<Frame>, CodecError>(None) && s2 == s,
        Parse::Reject(e) => r == Err::<Option<Frame>, CodecError>(e) && s2 == s,
        Parse::Complete(m, used) => {
            &&& s2 == s.skip(used as int)
            &&& match r {
                Ok(Some(f)) => frame_matches(f, m),
                _ => false,
            }
        },
    }
}

impl FrameCodec {
    /// Exec mirror of [`rsv_allowed`].
    fn check_rsv(&self, rsv1: bool, rsv2: bool, rsv3: bool) -> (r: bool)
        ensures
            r == rsv_allowed(*self, rsv1, rsv2, rsv3),
    {
        if !self.strict_rsv {
            true
        } else {
            (!rsv1 || self.reserved_bits % 2 == 1) && (!rsv2 || (self.reserved_bits / 2) % 2 == 1)
                && (!rsv3 || (self.reserved_bits / 4) % 2 == 1)
        }
    }

    /// Decode one base frame from the front of `buf`.
    ///
    /// Returns `Ok(None)` and consumes nothing while the buffer is short of
    /// a checkpoint; returns the frame and consumes exactly its bytes when
    /// complete; returns the framing error the bytes break otherwise.
    #[verifier::rlimit(100)]
    pub fn decode(&self, buf: &mut BytesMut) -> (r: Result<Option<Frame>, CodecError>)
        ensures
            decode_post(*self, bytes_view(*old(buf)), bytes_view(*final(buf)), r),
    {
        let ghost s = bytes_view(*old(buf));
        let n = buf_len(buf);
        if n < 2 {
            return Ok(None);
        }
        let v: Vec<u8> = slice_to_vec(buf_slice(buf));
        let b0 = v[0];
        let b1 = v[1];
        let fin = b0 >= 128;
        let rsv1 = (b0 / 64) % 2 == 1;
        let rsv2 = (b0 / 32) % 2 == 1;
        let rsv3 = (b0 / 16) % 2 == 1;
        let opcode = opcode_from_u8(b0 % 16);
        let masked = b1 >= 128;
        let len7 = b1 % 128;

        if !self.check_rsv(rsv1, rsv2, rsv3) {
            return Err(CodecError::ProtocolError(ProtocolReason::UnreservedRsvBit));
        }
        if opcode == OpCode::Reserved {
            return Err(CodecError::ProtocolError(ProtocolReason::ReservedOpcode));
        }
        let control = opcode_is_control(opcode);
        if control && !fin {
            return Err(CodecError::ProtocolError(ProtocolReason::ControlNotFinal));
        }
        if control && len7 > 125 {
            return Err(CodecError::ProtocolError(ProtocolReason::ControlTooLong));
        }
        if !self.client && !masked && !self.allow_unmasked {
            return Err(CodecError::ProtocolError(ProtocolReason::UnmaskedFrame));
        }
        if self.client && masked {
            return Err(CodecError::ProtocolError(ProtocolReason::MaskedFrame));
        }

        let mut off: usize = 2;
        let plen: u64;
        if len7 < 126 {
            plen = len7 as u64;
        } else if len7 == 126 {
            if n < 4 {
                return Ok(None);
            }
            plen = (v[2] as u64) * 256 + (v[3] as u64);
            if plen < 126 {
                return Err(CodecError::ProtocolError(ProtocolReason::NonMinimalLength));
            }
            off = 4;
        } else {
            if n < 10 {
                return Ok(None);
            }
            if v[2] >= 128 {
                return Err(CodecError::ProtocolError(ProtocolReason::LengthHighBit));
            }
            plen = (v[2] as u64) * 0x100000000000000 + (v[3] as u64) * 0x1000000000000 + (
            v[4] as u64) * 0x10000000000 + (v[5] as u64) * 0x100000000 + (v[6] as u64) * 0x1000000
                + (v[7] as u64) * 0x10000 + (v[8] as u64) * 0x100 + (v[9] as u64);
            proof {
                assert(s.subrange(2, 10)[0] == s[2]);
                assert(s.subrange(2, 10)[1] == s[3]);
                assert(s.subrange(2, 10)[2] == s[4]);
                assert(s.subrange(2, 10)[3] == s[5]);
                assert(s.subrange(2, 10)[4] == s[6]);
                assert(s.subrange(2, 10)[5] == s[7]);
                assert(s.subrange(2, 10)[6] == s[8]);
                assert(s.subrange(2, 10)[7] == s[9]);
            }
            if plen < 65536 {
                return Err(CodecError::ProtocolError(ProtocolReason::NonMinimalLength));
            }
            off = 10;
        }
        if plen > self.max_frame_payload {
            return Err(CodecError::ResourceExhausted);
        }
        let mk: usize = if masked {
            4
        } else {
            0
        };
        if (n as u64) < (off as u64) + (mk as u64) + plen {
            return Ok(None);
        }
        let plen_us: usize = plen as usize;
        let start = off + mk;
        let end = start + plen_us;

        let mask_key: Option<Vec<u8>> = if masked {
            Some(slice_to_vec(slice_subrange(v.as_slice(), off, off + 4)))
        } else {
            None
        };
        let mut app: Vec<u8> = slice_to_vec(slice_subrange(v.as_slice(), start, end));
        if masked {
            match &mask_key {
                Some(key) => apply_mask(&mut app, key),
                None => (),
            }
        }
        let f = Frame {
            fin,
            rsv1,
            rsv2,
            rsv3,
            opcode,
            masked,
            payload_length: plen,
            mask_key,
            extension_data: None,
            application_data: app,
        };
        buf_advance(buf, end);
        Ok(Some(f))
    }
}

/// The first header byte an outgoing frame gets.
pub open spec fn byte0(f: Frame) -> u8 {
    ((if f.fin {
        128nat
    } else {
        0nat
    }) + (if f.rsv1 {
        64nat
    } else {
        0nat
    }) + (if f.rsv2 {
        32nat
    } else {
        0nat
    }) + (if f.rsv3 {
        16nat
    } else {
        0nat
    }) + (op_num(f.opcode) as nat)) as u8
}

/// The second header byte and the extended length field, in the smallest
/// of the three forms.
pub open spec fn len_bytes(masked: bool, n: nat) -> Seq<u8> {
    let mb: nat = if masked {
        128
    } else {
        0
    };
    if n < 126 {
        seq![(mb + n) as u8]
    } else if n < 65536 {
        seq![(mb + 126) as u8, ((n / 256) % 256) as u8, (n % 256) as u8]
    } else {
        seq![
            (mb + 127) as u8,
            ((n / 0x100000000000000) % 256) as u8,
            ((n / 0x1000000000000) % 256) as u8,
            ((n / 0x10000000000) % 256) as u8,
            ((n / 0x100000000) % 256) as u8,
            ((n / 0x1000000) % 256) as u8,
            ((n / 0x10000) % 256) as u8,
            ((n / 0x100) % 256) as u8,
            (n % 256) as u8,
        ]
    }
}

/// The payload an outgoing frame carries: extension data, then
/// application data.
pub open spec fn payload_of(f: Frame) -> Seq<u8> {
    (match f.extension_data {
        Some(e) => e@,
        None => Seq::<u8>::empty(),
    }) + f.application_data@
}

/// The exact bytes a frame occupies on the wire: masked with the given
/// key, or unmasked when `mask` is `None`.
pub open spec fn frame_wire(f: Frame, mask: Option<Seq<u8>>) -> Seq<u8> {
    let data = payload_of(f);
    match mask {
        None => seq![byte0(f)] + len_bytes(false, data.len()) + data,
        Some(k) => seq![byte0(f)] + len_bytes(true, data.len()) + k + unmask(data, k),
    }
}

/// A frame the codec will put on the wire: well formed, with a payload
/// length the 8-byte form can carry.
pub open spec fn encodable(f: Frame) -> bool {
    f.well_formed() && f.payload_length < 0x8000000000000000
}

/// The error a frame that cannot be encoded is refused with.
pub open spec fn encode_reject(f: Frame) -> CodecError {
    if f.opcode == OpCode::Reserved {
        CodecError::ProtocolError(ProtocolReason::ReservedOpcode)
    } else if is_control(f.opcode) && !f.fin {
        CodecError::ProtocolError(ProtocolReason::ControlNotFinal)
    } else if is_control(f.opcode) && f.payload_length > 125 {
        CodecError::ProtocolError(ProtocolReason::ControlTooLong)
    } else if !f.length_consistent() {
        CodecError::ProtocolError(ProtocolReason::LengthMismatch)
    } else {
        CodecError::ResourceExhausted
    }
}

/// What `FrameCodec::encode` guarantees: an unencodable frame is refused
/// and the buffer kept; a server appends exactly the unmasked wire form; a
/// client appends the wire form under some fresh 4-byte mask, or reports
/// the entropy source exhausted.
pub open spec fn encode_post(
    c: FrameCodec,
    f: Frame,
    s: Seq<u8>,
    s2: Seq<u8>,
    r: Result<(), CodecError>,
) -> bool {
    &&& !encodable(f) ==> r == Err::<(), CodecError>(encode_reject(f)) && s2 == s
    &&& !c.client && encodable(f) ==> r == Ok::<(), CodecError>(())
    &&& match r {
        Ok(()) => encodable(f) && if c.client {
            exists|k: Seq<u8>| k.len() == 4 && s2 == s + frame_wire(f, Some(k))
        } else {
            s2 == s + frame_wire(f, None)
        },
        Err(e) => s2 == s && (encodable(f) ==> c.client && e == CodecError::ResourceExhausted),
    }
}

/// Build the first header byte of an outgoing frame.
fn header0(f: &Frame) -> (r: u8)
    ensures
        r == byte0(*f),
{
    let mut b0: u8 = opcode_to_u8(f.opcode);
    if f.fin {
        b0 = b0 + 128;
    }
    if f.rsv1 {
        b0 = b0 + 64;
    }
    if f.rsv2 {
        b0 = b0 + 32;
    }
    if f.rsv3 {
        b0 = b0 + 16;
    }
    b0
}

/// Append the second header byte and the extended length field.
fn push_len(out: &mut Vec<u8>, masked: bool, n: u64)
    requires
        n < 0x8000000000000000,
    ensures
        final(out)@ == old(out)@ + len_bytes(masked, n as nat),
{
    let mb: u8 = if masked {
        128
    } else {
        0
    };
    if n < 126 {
        out.push(mb + (n as u8));
    } else if n < 65536 {
        out.push(mb + 126);
        out.push((n / 256) as u8);
        out.push((n % 256) as u8);
    } else {
        out.push(mb + 127);
        out.push((n / 0x100000000000000) as u8);
        out.push(((n / 0x1000000000000) % 256) as u8);
        out.push(((n / 0x10000000000) % 256) as u8);
        out.push(((n / 0x100000000) % 256) as u8);
        out.push(((n / 0x1000000) % 256) as u8);
        out.push(((n / 0x10000) % 256) as u8);
        out.push(((n / 0x100) % 256) as u8);
        out.push((n % 256) as u8);
    }
    assert(out@ =~= old(out)@ + len_bytes(masked, n as nat));
}

/// Append the frame's payload: extension data, then application data.
fn push_payload(out: &mut Vec<u8>, f: &Frame)
    ensures
        final(out)@ == old(out)@ + payload_of(*f),
{
    match &f.extension_data {
        Some(e) => out.extend_from_slice(e.as_slice()),
        None => (),
    }
    out.extend_from_slice(f.application_data.as_slice());
    assert(out@ =~= old(out)@ + payload_of(*f));
}

impl FrameCodec {
    /// Encode one base frame onto the end of `buf`.
    ///
    /// A server writes the frame unmasked; a client masks it with 4 fresh
    /// random bytes.  The length field takes the smallest form that holds
    /// the payload length.
    #[verifier::rlimit(100)]
    pub fn encode(&self, f: &Frame, buf: &mut BytesMut) -> (r: Result<(), CodecError>)
        ensures
            encode_post(*self, *f, bytes_view(*old(buf)), bytes_view(*final(buf)), r),
    {
        if f.opcode == OpCode::Reserved {
            return Err(CodecError::ProtocolError(ProtocolReason::ReservedOpcode));
        }
        let control = opcode_is_control(f.opcode);
        if control && !f.fin {
            return Err(CodecError::ProtocolError(ProtocolReason::ControlNotFinal));
        }
        if control && f.payload_length > 125 {
            return Err(CodecError::ProtocolError(ProtocolReason::ControlTooLong));
        }
        let ext_len: usize = match &f.extension_data {
            Some(e) => e.len(),
            None => 0,
        };
        let total: u128 = (ext_len as u128) + (f.application_data.len() as u128);
        if (f.payload_length as u128) != total {
            return Err(CodecError::ProtocolError(ProtocolReason::LengthMismatch));
        }
        if f.payload_length >= 0x8000000000000000 {
            return Err(CodecError::ResourceExhausted);
        }
        let n: u64 = f.payload_length;
        assert(payload_of(*f).len() == n as nat);

        let mut out: Vec<u8> = Vec::new();
        let b0 = header0(f);
        out.push(b0);
        push_len(&mut out, self.client, n);
        assert(out@ =~= seq![byte0(*f)] + len_bytes(self.client, payload_of(*f).len()));

        if self.client {
            let mut key: Vec<u8> = Vec::new();
            key.push(0);
            key.push(0);
            key.push(0);
            key.push(0);
            if fill_random(&mut key).is_err() {
                return Err(CodecError::ResourceExhausted);
            }
            out.extend_from_slice(key.as_slice());
            let mut data: Vec<u8> = Vec::new();
            push_payload(&mut data, f);
            apply_mask(&mut data, &key);
            out.extend_from_slice(data.as_slice());
            assert(out@ =~= frame_wire(*f, Some(key@)));
            buf_extend(buf, out.as_slice());
            return Ok(());
        }
        push_payload(&mut out, f);
        assert(out@ =~= frame_wire(*f, None));
        buf_extend(buf, out.as_slice());
        Ok(())
    }
}

/// XOR `data` in place with the 4-byte `key`.
pub fn apply_mask(data: &mut Vec<u8>, key: &Vec<u8>)
    requires
        key@.len() == 4,
    ensures
        final(data)@ == unmask(old(data)@, key@),
{
    let n = data.len();
    let mut i: usize = 0;
    while i < n
        invariant
            n == data@.len(),
            data@.len() == old(data)@.len(),
            i <= n,
            key@.len() == 4,
            forall|j: int| 0 <= j < i ==> data@[j] == old(data)@[j] ^ key@[j % 4],
            forall|j: int| i <= j < n ==> data@[j] == old(data)@[j],
        decreases n - i,
    {
        let x = data[i];
        let k = key[i % 4];
        data[i] = x ^ k;
        i = i + 1;
    }
    assert(data@ =~= unmask(old(data)@, key@));
}

} // verus!
