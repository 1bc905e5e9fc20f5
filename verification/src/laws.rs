//! Laws the codec obeys: round trip and byte-boundary resumability for
//! base frames, RSV discipline, masking direction, and resumability of
//! the handshake head, proved against the parser [`spec_parse`], the wire
//! form [`frame_wire`], and the two handshake parsers.

use vstd::prelude::*;
use vstd::arithmetic::div_mod::{
    lemma_div_denominator, lemma_fundamental_div_mod, lemma_multiply_divide_lt, lemma_small_mod,
};
use crate::base::{
    be16, be64, bit4, bit5, bit6, byte0, encodable, frame_wire, len_bytes, low4, low7, parse_is_complete,
    parse_model, parse_used, payload_of, rsv1_reserved, rsv2_reserved, rsv3_reserved, rsv_allowed,
    spec_parse, spec_parse_body, spec_parse_len, top_bit, unmask, FrameCodec, FrameModel, Parse,
};
use crate::client::{parse_response, ResponseParse};
use crate::error::{CodecError, ProtocolReason};
use crate::frame::{is_control, op_from, op_num, Frame, OpCode};
use crate::http::{
    find_terminator, find_terminator_from, lemma_find_terminator_bounds,
    lemma_find_terminator_prefix,
};
use crate::server::{parse_request, RequestParse};

verus! {

/// Unmasking twice with the same key gives back the original bytes.
pub proof fn lemma_unmask_involution(d: Seq<u8>, k: Seq<u8>)
    requires
        k.len() == 4,
    ensures
        unmask(unmask(d, k), k) == d,
{
    assert forall|i: int| 0 <= i < d.len() implies unmask(unmask(d, k), k)[i] == d[i] by {
        let x = d[i];
        let y = k[i % 4];
        assert(x ^ y ^ y == x) by (bit_vector);
    }
    assert(unmask(unmask(d, k), k) =~= d);
}

/// The first header byte decomposes back into the fields it was built of.
pub proof fn lemma_byte0_fields(f: Frame)
    requires
        f.opcode != OpCode::Reserved,
    ensures
        top_bit(byte0(f)) == f.fin,
        bit6(byte0(f)) == f.rsv1,
        bit5(byte0(f)) == f.rsv2,
        bit4(byte0(f)) == f.rsv3,
        op_from(low4(byte0(f))) == f.opcode,
{
}

/// A 2-byte big-endian length field carries its value back.
pub proof fn lemma_be16_round(n: nat)
    requires
        n < 65536,
    ensures
        be16(((n / 256) % 256) as u8, (n % 256) as u8) == n,
{
    lemma_multiply_divide_lt(n as int, 256, 256);
    lemma_small_mod((n as int / 256) as nat, 256);
    lemma_fundamental_div_mod(n as int, 256);
}

/// An 8-byte big-endian length field carries its value back.
pub proof fn lemma_be64_round(n: nat)
    requires
        n < 0x10000000000000000,
    ensures
        be64(
            seq![
                ((n / 0x100000000000000) % 256) as u8,
                ((n / 0x1000000000000) % 256) as u8,
                ((n / 0x10000000000) % 256) as u8,
                ((n / 0x100000000) % 256) as u8,
                ((n / 0x1000000) % 256) as u8,
                ((n / 0x10000) % 256) as u8,
                ((n / 0x100) % 256) as u8,
                (n % 256) as u8,
            ],
        ) == n,
{
    let x = n as int;
    lemma_div_denominator(x, 256, 256);
    lemma_div_denominator(x, 0x10000, 256);
    lemma_div_denominator(x, 0x1000000, 256);
    lemma_div_denominator(x, 0x100000000, 256);
    lemma_div_denominator(x, 0x10000000000, 256);
    lemma_div_denominator(x, 0x1000000000000, 256);
    lemma_fundamental_div_mod(x, 256);
    lemma_fundamental_div_mod(x / 256, 256);
    lemma_fundamental_div_mod(x / 0x10000, 256);
    lemma_fundamental_div_mod(x / 0x1000000, 256);
    lemma_fundamental_div_mod(x / 0x100000000, 256);
    lemma_fundamental_div_mod(x / 0x10000000000, 256);
    lemma_fundamental_div_mod(x / 0x1000000000000, 256);
    lemma_multiply_divide_lt(x, 0x100000000000000, 256);
    lemma_small_mod((x / 0x100000000000000) as nat, 256);
}

/// The second header byte and the length field decompose back into the
/// mask flag and the 7-bit length form they were built of.
pub proof fn lemma_len_bytes_first(masked: bool, n: nat)
    requires
        n < 0x8000000000000000,
    ensures
        top_bit(len_bytes(masked, n)[0]) == masked,
        n < 126 ==> len_bytes(masked, n).len() == 1 && low7(len_bytes(masked, n)[0]) as nat == n,
        126 <= n < 65536 ==> len_bytes(masked, n).len() == 3 && low7(len_bytes(masked, n)[0])
            == 126,
        n >= 65536 ==> len_bytes(masked, n).len() == 9 && low7(len_bytes(masked, n)[0]) == 127
            && len_bytes(masked, n)[1] < 128,
{
    if n >= 65536 {
        lemma_multiply_divide_lt(n as int, 0x100000000000000, 128);
        lemma_small_mod((n as int / 0x100000000000000) as nat, 256);
    }
}

/// The 8-byte length form carries the payload length back.
pub proof fn lemma_len_bytes_value(masked: bool, n: nat)
    requires
        65536 <= n < 0x8000000000000000,
    ensures
        be64(len_bytes(masked, n).skip(1)) == n,
{
    lemma_be64_round(n);
    assert(len_bytes(masked, n).skip(1) =~= seq![
        ((n / 0x100000000000000) % 256) as u8,
        ((n / 0x1000000000000) % 256) as u8,
        ((n / 0x10000000000) % 256) as u8,
        ((n / 0x100000000) % 256) as u8,
        ((n / 0x1000000) % 256) as u8,
        ((n / 0x10000) % 256) as u8,
        ((n / 0x100) % 256) as u8,
        (n % 256) as u8,
    ]);
}

/// Round trip for base frames: the bytes one role's encoder emits, the
/// opposite role's decoder parses back as a complete frame occupying the
/// whole sequence, equal to the original in every field except the mask,
/// which is the encoding role's choice.
///
/// `k` is the mask a client encoder would draw; a server (`c.client`
/// false decodes what a client sent) accepts any such key.
#[verifier::rlimit(100)]
pub proof fn lemma_frame_round_trip(c: FrameCodec, f: Frame, k: Seq<u8>)
    requires
        encodable(f),
        f.extension_data is None,
        f.payload_length <= c.max_frame_payload,
        rsv_allowed(c, f.rsv1, f.rsv2, f.rsv3),
        k.len() == 4,
    ensures
        ({
            let wire = if c.client {
                frame_wire(f, None)
            } else {
                frame_wire(f, Some(k))
            };
            let p = spec_parse(c, wire);
            &&& parse_is_complete(p)
            &&& parse_used(p) == wire.len()
            &&& parse_model(p).fin == f.fin
            &&& parse_model(p).rsv1 == f.rsv1
            &&& parse_model(p).rsv2 == f.rsv2
            &&& parse_model(p).rsv3 == f.rsv3
            &&& parse_model(p).opcode == f.opcode
            &&& parse_model(p).masked == !c.client
            &&& parse_model(p).payload_len == f.payload_length
            &&& parse_model(p).app == f.application_data@
        }),
{
    let masked = !c.client;
    let data = payload_of(f);
    assert(data =~= f.application_data@);
    let n = data.len();
    let lb = len_bytes(masked, n);
    let body: Seq<u8> = if masked {
        k + unmask(data, k)
    } else {
        data
    };
    let wire = seq![byte0(f)] + lb + body;
    assert((if c.client {
        frame_wire(f, None)
    } else {
        frame_wire(f, Some(k))
    }) =~= wire);

    lemma_byte0_fields(f);
    lemma_len_bytes_first(masked, n);
    assert(wire[0] == byte0(f));
    assert(wire[1] == lb[0]);

    let mk: nat = if masked {
        4
    } else {
        0
    };
    let off: nat = if n < 126 {
        2
    } else if n < 65536 {
        4
    } else {
        10
    };
    assert(wire.len() == 1 + lb.len() + mk + n);
    assert(1 + lb.len() == off);

    if n < 126 {
        assert(low7(wire[1]) as nat == n);
    } else if n < 65536 {
        assert(wire[2] == lb[1] && wire[3] == lb[2]);
        lemma_be16_round(n);
        assert(be16(wire[2], wire[3]) == n);
    } else {
        assert(wire.subrange(2, 10) =~= lb.skip(1));
        lemma_len_bytes_value(masked, n);
        assert(be64(wire.subrange(2, 10)) == n);
        assert(wire[2] == lb[1]);
    }

    assert(spec_parse_len(c, wire) == spec_parse_body(c, wire, off, n));

    if masked {
        assert(wire.subrange(off as int, (off + 4) as int) =~= k);
        assert(wire.subrange((off + mk) as int, (off + mk + n) as int) =~= unmask(data, k));
        lemma_unmask_involution(data, k);
    } else {
        assert(wire.subrange((off + mk) as int, (off + mk + n) as int) =~= data);
    }
}

/// Byte-boundary resumability: cutting an accepted frame anywhere short
/// of its end parses as pending, so a decoder that consumes nothing while
/// pending resumes to the same frame once the rest arrives.
pub proof fn lemma_decode_resumable(c: FrameCodec, s: Seq<u8>, i: int)
    requires
        parse_is_complete(spec_parse(c, s)),
        0 <= i < parse_used(spec_parse(c, s)),
    ensures
        spec_parse(c, s.take(i)) == Parse::Incomplete,
{
    let t = s.take(i);
    if i >= 2 {
        assert(t[0] == s[0] && t[1] == s[1]);
        let len7 = low7(s[1]);
        if len7 == 126 {
            if i >= 4 {
                assert(t[2] == s[2] && t[3] == s[3]);
            }
        } else if len7 == 127 {
            if i >= 10 {
                assert(t.subrange(2, 10) =~= s.subrange(2, 10));
            }
        }
    }
}

/// A complete parse occupies at least its 2-byte prefix and at most the
/// whole sequence.
pub proof fn lemma_parse_used_bounds(c: FrameCodec, s: Seq<u8>)
    requires
        parse_is_complete(spec_parse(c, s)),
    ensures
        2 <= parse_used(spec_parse(c, s)) <= s.len(),
{
}

/// RSV discipline: under strict settings, a frame with an RSV bit set
/// that no extension reserved is rejected as a protocol error, and every
/// frame that decodes carries only reserved bits.
pub proof fn lemma_rsv_discipline(c: FrameCodec, s: Seq<u8>)
    requires
        c.strict_rsv,
        s.len() >= 2,
    ensures
        bit6(s[0]) && !rsv1_reserved(c.reserved_bits) ==> spec_parse(c, s) == Parse::Reject(
            CodecError::ProtocolError(ProtocolReason::UnreservedRsvBit),
        ),
        bit5(s[0]) && !rsv2_reserved(c.reserved_bits) ==> spec_parse(c, s) == Parse::Reject(
            CodecError::ProtocolError(ProtocolReason::UnreservedRsvBit),
        ),
        bit4(s[0]) && !rsv3_reserved(c.reserved_bits) ==> spec_parse(c, s) == Parse::Reject(
            CodecError::ProtocolError(ProtocolReason::UnreservedRsvBit),
        ),
        parse_is_complete(spec_parse(c, s)) ==> {
            &&& parse_model(spec_parse(c, s)).rsv1 == bit6(s[0])
            &&& parse_model(spec_parse(c, s)).rsv2 == bit5(s[0])
            &&& parse_model(spec_parse(c, s)).rsv3 == bit4(s[0])
            &&& (bit6(s[0]) ==> rsv1_reserved(c.reserved_bits))
            &&& (bit5(s[0]) ==> rsv2_reserved(c.reserved_bits))
            &&& (bit4(s[0]) ==> rsv3_reserved(c.reserved_bits))
        },
{
}

/// Masking direction: a server refuses unmasked frames, a client refuses
/// masked frames; whatever decodes on a strict server was masked, and
/// whatever decodes on a client was not.
pub proof fn lemma_mask_direction(c: FrameCodec, s: Seq<u8>)
    requires
        s.len() >= 2,
    ensures
        !c.client && !c.allow_unmasked && !top_bit(s[1]) ==> !parse_is_complete(spec_parse(c, s)),
        c.client && top_bit(s[1]) ==> !parse_is_complete(spec_parse(c, s)),
        parse_is_complete(spec_parse(c, s)) && !c.client && !c.allow_unmasked ==> parse_model(
            spec_parse(c, s),
        ).masked,
        parse_is_complete(spec_parse(c, s)) && c.client ==> !parse_model(spec_parse(c, s)).masked,
{
}

/// Byte-boundary resumability of the handshake: cutting an accepted head
/// anywhere short of its terminator parses as pending, on both the
/// request and the response parser, so a decoder that consumes nothing
/// while pending resumes to the same head once the rest arrives.
pub proof fn lemma_handshake_resumable(s: Seq<u8>, cap: nat, t: nat, i: int)
    requires
        find_terminator(s) == Some(t),
        0 <= i < t + 4,
        t + 4 <= cap,
    ensures
        parse_request(s.take(i), cap) == RequestParse::Incomplete,
        parse_response(s.take(i), cap) == ResponseParse::Incomplete,
{
    lemma_find_terminator_bounds(s, 0);
    let p = s.take(i);
    lemma_find_terminator_prefix(s, p, 0);
    match find_terminator_from(p, 0) {
        Some(j) => {
            lemma_find_terminator_bounds(p, 0);
            assert(false);
        },
        None => (),
    }
}

} // verus!
