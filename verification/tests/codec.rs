//! Base-frame decoding and encoding through the session codec.

use bytes::BytesMut;
use twist::envelope::WebSocket;
use twist::error::{CodecError, ProtocolReason};
use twist::extension::NoExtension;
use twist::frame::{Frame, OpCode};
use twist::session::{SessionState, Twist};

const SHORT: [u8; 7] = [0x81, 0x81, 0x00, 0x00, 0x00, 0x01, 0x00];
const MID: [u8; 134] = [
    0x81, 0xFE, 0x00, 0x7E, 0x00, 0x00, 0x00, 0x01, 0x00, 0x00, 0x00, 0x00, 0x00, 0x00, 0x00,
    0x00, 0x00, 0x00, 0x00, 0x00, 0x00, 0x00, 0x00, 0x00, 0x00, 0x00, 0x00, 0x00, 0x00, 0x00,
    0x00, 0x00, 0x00, 0x00, 0x00, 0x00, 0x00, 0x00, 0x00, 0x00, 0x00, 0x00, 0x00, 0x00, 0x00,
    0x00, 0x00, 0x00, 0x00, 0x00, 0x00, 0x00, 0x00, 0x00, 0x00, 0x00, 0x00, 0x00, 0x00, 0x00,
    0x00, 0x00, 0x00, 0x00, 0x00, 0x00, 0x00, 0x00, 0x00, 0x00, 0x00, 0x00, 0x00, 0x00, 0x00,
    0x00, 0x00, 0x00, 0x00, 0x00, 0x00, 0x00, 0x00, 0x00, 0x00, 0x00, 0x00, 0x00, 0x00, 0x00,
    0x00, 0x00, 0x00, 0x00, 0x00, 0x00, 0x00, 0x00, 0x00, 0x00, 0x00, 0x00, 0x00, 0x00, 0x00,
    0x00, 0x00, 0x00, 0x00, 0x00, 0x00, 0x00, 0x00, 0x00, 0x00, 0x00, 0x00, 0x00, 0x00, 0x00,
    0x00, 0x00, 0x00, 0x00, 0x00, 0x00, 0x00, 0x00, 0x00, 0x00, 0x00, 0x00, 0x00, 0x00,
];
const CONT: [u8; 7] = [0x00, 0x81, 0x00, 0x00, 0x00, 0x01, 0x00];
const TEXT: [u8; 7] = [0x81, 0x81, 0x00, 0x00, 0x00, 0x01, 0x00];
const BINARY: [u8; 7] = [0x82, 0x81, 0x00, 0x00, 0x00, 0x01, 0x00];
const PING: [u8; 7] = [0x89, 0x81, 0x00, 0x00, 0x00, 0x01, 0x00];
const PONG: [u8; 7] = [0x8A, 0x81, 0x00, 0x00, 0x00, 0x01, 0x00];

fn open_server() -> Twist<NoExtension> {
    let mut fc: Twist<NoExtension> = Default::default();
    fc.shaken = true;
    fc
}

fn open_client() -> Twist<NoExtension> {
    let mut fc: Twist<NoExtension> = Twist::new(1, true, Vec::new(), Vec::new());
    fc.shaken = true;
    fc
}

fn decode_test(vec: Vec<u8>, opcode: OpCode, len: u64) {
    let mut eb = BytesMut::with_capacity(256);
    eb.extend_from_slice(&vec);
    let mut fc = open_server();

    match fc.decode(&mut eb) {
        Ok(Some(decoded)) => {
            if let Some(base) = decoded.base() {
                if base.opcode() == OpCode::Continue {
                    assert!(!base.fin());
                } else {
                    assert!(base.fin());
                }
                assert!(!base.rsv1());
                assert!(!base.rsv2());
                assert!(!base.rsv3());
                assert!(base.opcode() == opcode);
                assert!(base.payload_length() == len);
                assert!(base.extension_data().is_none());
                assert!(!base.application_data().is_empty());
            } else {
                assert!(false);
            }
        }
        Err(e) => {
            println!("{:?}", e);
            assert!(false);
        }
        _ => {
            assert!(false);
        }
    }
}

fn encode_test(cmp: Vec<u8>, opcode: OpCode, len: u64, app_data: Vec<u8>) {
    let mut fc = open_server();
    let mut frame: WebSocket = Default::default();
    let mut base: Frame = Default::default();
    base.set_opcode(opcode);
    if opcode == OpCode::Continue {
        base.set_fin(false);
    }
    base.set_payload_length(len);
    base.set_application_data(app_data);
    frame.set_base(base);

    let mut buf = BytesMut::with_capacity(1024);
    if let Ok(()) = fc.encode(frame, &mut buf) {
        // There is no mask in server-encoded frames.
        assert!(buf.len() == (cmp.len() - 4));
    }
}

#[test]
fn decode() {
    decode_test(SHORT.to_vec(), OpCode::Text, 1);
    decode_test(MID.to_vec(), OpCode::Text, 126);
    let mut long = Vec::with_capacity(65550);
    long.extend(&[
        0x81, 0xFF, 0x00, 0x00, 0x00, 0x00, 0x00, 0x01, 0x00, 0x00, 0x00, 0x00, 0x00, 0x01,
    ]);
    long.extend([0; 65536].iter());
    decode_test(long, OpCode::Text, 65536);
    decode_test(CONT.to_vec(), OpCode::Continue, 1);
    decode_test(TEXT.to_vec(), OpCode::Text, 1);
    decode_test(BINARY.to_vec(), OpCode::Binary, 1);
    decode_test(PING.to_vec(), OpCode::Ping, 1);
    decode_test(PONG.to_vec(), OpCode::Pong, 1);
}

#[test]
fn encode() {
    encode_test(SHORT.to_vec(), OpCode::Text, 1, vec![0]);
    encode_test(MID.to_vec(), OpCode::Text, 126, vec![0; 126]);
    let mut long = Vec::with_capacity(65550);
    long.extend(&[
        0x81, 0xFF, 0x00, 0x00, 0x00, 0x00, 0x00, 0x01, 0x00, 0x00, 0x00, 0x00, 0x00, 0x01,
    ]);
    long.extend([0; 65536].iter());
    encode_test(long.to_vec(), OpCode::Close, 65536, vec![0; 65536]);
    encode_test(CONT.to_vec(), OpCode::Continue, 1, vec![0]);
    encode_test(TEXT.to_vec(), OpCode::Text, 1, vec![0]);
    encode_test(BINARY.to_vec(), OpCode::Binary, 1, vec![0]);
    encode_test(PING.to_vec(), OpCode::Ping, 1, vec![0]);
    encode_test(PONG.to_vec(), OpCode::Pong, 1, vec![0]);
}

#[test]
fn short_text_decode_leaves_no_residue() {
    // A masked 1-byte Text frame; the key's first byte is 0x00, so the
    // unmasked payload byte is 0x00 ^ 0x00.
    let mut eb = BytesMut::with_capacity(16);
    eb.extend_from_slice(&SHORT);
    let mut fc = open_server();
    let decoded = fc.decode(&mut eb).unwrap().unwrap();
    let base = decoded.base().unwrap();
    assert!(base.fin());
    assert_eq!(base.opcode(), OpCode::Text);
    assert_eq!(base.payload_length(), 1);
    assert_eq!(base.application_data().as_slice(), &[0x00u8]);
    assert!(eb.is_empty());
}

#[test]
fn mid_length_text_decode() {
    let mut eb = BytesMut::with_capacity(256);
    eb.extend_from_slice(&MID);
    let mut fc = open_server();
    let decoded = fc.decode(&mut eb).unwrap().unwrap();
    let base = decoded.base().unwrap();
    assert_eq!(base.opcode(), OpCode::Text);
    assert_eq!(base.payload_length(), 126);
    assert_eq!(base.application_data().len(), 126);
    assert!(eb.is_empty());
}

#[test]
fn long_binary_decode() {
    let mut bytes = Vec::with_capacity(65550);
    bytes.extend(&[
        0x82, 0xFF, 0x00, 0x00, 0x00, 0x00, 0x00, 0x01, 0x00, 0x00, 0x00, 0x00, 0x00, 0x01,
    ]);
    bytes.extend([0u8; 65536].iter());
    let mut eb = BytesMut::with_capacity(65600);
    eb.extend_from_slice(&bytes);
    let mut fc = open_server();
    let decoded = fc.decode(&mut eb).unwrap().unwrap();
    let base = decoded.base().unwrap();
    assert_eq!(base.opcode(), OpCode::Binary);
    assert_eq!(base.payload_length(), 65536);
    // The last payload index is 3 modulo 4, so it is XORed with 0x01.
    assert_eq!(base.application_data()[65535], 0x01);
    assert!(eb.is_empty());
}

#[test]
fn partial_frame_resumes() {
    let mut eb = BytesMut::with_capacity(16);
    eb.extend_from_slice(&[0x81, 0x81, 0x00]);
    let mut fc = open_server();
    // Three bytes are short of the mask key: pending, nothing consumed.
    assert!(matches!(fc.decode(&mut eb), Ok(None)));
    assert_eq!(eb.len(), 3);
    eb.extend_from_slice(&[0x00, 0x00, 0x01, 0x00]);
    let decoded = fc.decode(&mut eb).unwrap().unwrap();
    let base = decoded.base().unwrap();
    assert!(base.fin());
    assert_eq!(base.opcode(), OpCode::Text);
    assert_eq!(base.payload_length(), 1);
    assert_eq!(base.application_data().as_slice(), &[0x00u8]);
    assert!(eb.is_empty());
}

#[test]
fn byte_at_a_time_resumes() {
    let mut eb = BytesMut::with_capacity(256);
    let mut fc = open_server();
    for (i, b) in MID.iter().enumerate() {
        eb.extend_from_slice(&[*b]);
        if i + 1 < MID.len() {
            assert!(matches!(fc.decode(&mut eb), Ok(None)));
            assert_eq!(eb.len(), i + 1);
        }
    }
    let decoded = fc.decode(&mut eb).unwrap().unwrap();
    let base = decoded.base().unwrap();
    assert_eq!(base.opcode(), OpCode::Text);
    assert_eq!(base.payload_length(), 126);
    assert!(eb.is_empty());
}

#[test]
fn ping_with_long_payload_is_protocol_error() {
    // A non-final Continue frame is legal ...
    let mut ok = BytesMut::with_capacity(16);
    ok.extend_from_slice(&CONT);
    let mut fc = open_server();
    assert!(fc.decode(&mut ok).unwrap().is_some());
    // ... but a Ping whose length field says 126 is not.
    let mut bad = BytesMut::with_capacity(16);
    bad.extend_from_slice(&[0x89, 0xFE, 0x00, 0x7E]);
    let mut fc2 = open_server();
    assert_eq!(
        fc2.decode(&mut bad),
        Err(CodecError::ProtocolError(ProtocolReason::ControlTooLong))
    );
    assert_eq!(fc2.state(), SessionState::Failed);
}

#[test]
fn control_frame_must_be_final() {
    let mut eb = BytesMut::with_capacity(16);
    eb.extend_from_slice(&[0x08, 0x80, 0x00, 0x00, 0x00, 0x00]);
    let mut fc = open_server();
    assert_eq!(
        fc.decode(&mut eb),
        Err(CodecError::ProtocolError(ProtocolReason::ControlNotFinal))
    );
}

#[test]
fn reserved_opcode_is_rejected() {
    let mut eb = BytesMut::with_capacity(16);
    eb.extend_from_slice(&[0x83, 0x81, 0x00, 0x00, 0x00, 0x00, 0x00]);
    let mut fc = open_server();
    assert_eq!(
        fc.decode(&mut eb),
        Err(CodecError::ProtocolError(ProtocolReason::ReservedOpcode))
    );
}

#[test]
fn non_minimal_length_is_rejected() {
    let mut eb = BytesMut::with_capacity(16);
    eb.extend_from_slice(&[0x81, 0xFE, 0x00, 0x01, 0x00, 0x00, 0x00, 0x00, 0x00]);
    let mut fc = open_server();
    assert_eq!(
        fc.decode(&mut eb),
        Err(CodecError::ProtocolError(ProtocolReason::NonMinimalLength))
    );
}

#[test]
fn eight_byte_length_high_bit_is_rejected() {
    let mut eb = BytesMut::with_capacity(16);
    eb.extend_from_slice(&[0x81, 0xFF, 0x80, 0x00, 0x00, 0x00, 0x00, 0x00, 0x00, 0x00]);
    let mut fc = open_server();
    assert_eq!(
        fc.decode(&mut eb),
        Err(CodecError::ProtocolError(ProtocolReason::LengthHighBit))
    );
}

#[test]
fn oversized_payload_exhausts_resources() {
    let mut fc = open_server();
    fc.max_frame_payload = 10;
    let mut eb = BytesMut::with_capacity(32);
    // Masked Text frame stating 11 payload bytes.
    eb.extend_from_slice(&[0x81, 0x8B]);
    assert_eq!(fc.decode(&mut eb), Err(CodecError::ResourceExhausted));
}

#[test]
fn unreserved_rsv_bit_is_rejected() {
    let mut eb = BytesMut::with_capacity(16);
    eb.extend_from_slice(&[0xC1, 0x81, 0x00, 0x00, 0x00, 0x00, 0x41]);
    let mut fc = open_server();
    assert_eq!(
        fc.decode(&mut eb),
        Err(CodecError::ProtocolError(ProtocolReason::UnreservedRsvBit))
    );
}

#[test]
fn reserved_rsv_bit_is_routed_through() {
    // With RSV1 recorded as reserved, the same frame decodes, its RSV1
    // flag intact.
    let mut eb = BytesMut::with_capacity(16);
    eb.extend_from_slice(&[0xC1, 0x81, 0x00, 0x00, 0x00, 0x00, 0x41]);
    let mut fc = open_server();
    fc.reserved_bits = 1;
    let decoded = fc.decode(&mut eb).unwrap().unwrap();
    let base = decoded.base().unwrap();
    assert!(base.rsv1());
    assert!(!base.rsv2());
    assert_eq!(base.application_data().as_slice(), &[0x41u8]);
}

#[test]
fn lax_rsv_mode_accepts_unreserved_bits() {
    let mut eb = BytesMut::with_capacity(16);
    eb.extend_from_slice(&[0xC1, 0x81, 0x00, 0x00, 0x00, 0x00, 0x41]);
    let mut fc = open_server();
    fc.strict_rsv = false;
    let decoded = fc.decode(&mut eb).unwrap().unwrap();
    assert!(decoded.base().unwrap().rsv1());
}

#[test]
fn invalid_utf8_in_final_text_frame() {
    // 0xFF can begin no UTF-8 sequence.
    let mut eb = BytesMut::with_capacity(16);
    eb.extend_from_slice(&[0x81, 0x81, 0x00, 0x00, 0x00, 0x00, 0xFF]);
    let mut fc = open_server();
    assert_eq!(fc.decode(&mut eb), Err(CodecError::InvalidUtf8));
    assert_eq!(fc.state(), SessionState::Failed);
}

#[test]
fn same_bytes_as_binary_frame_succeed() {
    let mut eb = BytesMut::with_capacity(16);
    eb.extend_from_slice(&[0x82, 0x81, 0x00, 0x00, 0x00, 0x00, 0xFF]);
    let mut fc = open_server();
    let decoded = fc.decode(&mut eb).unwrap().unwrap();
    let base = decoded.base().unwrap();
    assert_eq!(base.opcode(), OpCode::Binary);
    assert_eq!(base.application_data().as_slice(), &[0xFFu8]);
}

#[test]
fn valid_utf8_text_frame_succeeds() {
    // "¢" is a valid 2-byte sequence; masked with a zero key.
    let mut eb = BytesMut::with_capacity(16);
    eb.extend_from_slice(&[0x81, 0x82, 0x00, 0x00, 0x00, 0x00, 0xC2, 0xA2]);
    let mut fc = open_server();
    let decoded = fc.decode(&mut eb).unwrap().unwrap();
    assert_eq!(decoded.base().unwrap().application_data().as_slice(), &[0xC2u8, 0xA2]);
}

#[test]
fn truncated_utf8_in_final_text_frame_fails() {
    // The first byte of a 2-byte sequence, cut short.
    let mut eb = BytesMut::with_capacity(16);
    eb.extend_from_slice(&[0x81, 0x81, 0x00, 0x00, 0x00, 0x00, 0xC2]);
    let mut fc = open_server();
    assert_eq!(fc.decode(&mut eb), Err(CodecError::InvalidUtf8));
}

#[test]
fn server_refuses_unmasked_frames() {
    let mut eb = BytesMut::with_capacity(16);
    eb.extend_from_slice(&[0x81, 0x01, 0x41]);
    let mut fc = open_server();
    assert_eq!(
        fc.decode(&mut eb),
        Err(CodecError::ProtocolError(ProtocolReason::UnmaskedFrame))
    );
}

#[test]
fn client_refuses_masked_frames() {
    let mut eb = BytesMut::with_capacity(16);
    eb.extend_from_slice(&SHORT);
    let mut fc = open_client();
    assert_eq!(
        fc.decode(&mut eb),
        Err(CodecError::ProtocolError(ProtocolReason::MaskedFrame))
    );
}

#[test]
fn client_accepts_unmasked_frames() {
    let mut eb = BytesMut::with_capacity(16);
    eb.extend_from_slice(&[0x81, 0x01, 0x41]);
    let mut fc = open_client();
    let decoded = fc.decode(&mut eb).unwrap().unwrap();
    assert_eq!(decoded.base().unwrap().application_data().as_slice(), &[0x41u8]);
}

#[test]
fn unmasked_escape_hatch() {
    let mut eb = BytesMut::with_capacity(16);
    eb.extend_from_slice(&[0x81, 0x01, 0x41]);
    let mut fc = open_server();
    fc.allow_unmasked_client_frames = true;
    let decoded = fc.decode(&mut eb).unwrap().unwrap();
    assert_eq!(decoded.base().unwrap().application_data().as_slice(), &[0x41u8]);
}

#[test]
fn server_to_client_round_trip() {
    let mut server = open_server();
    let mut client = open_client();
    let mut base: Frame = Default::default();
    base.set_opcode(OpCode::Text);
    base.set_payload_length(3);
    base.set_application_data(vec![0x61, 0x62, 0x63]);
    let mut msg: WebSocket = Default::default();
    msg.set_base(base);
    let mut buf = BytesMut::with_capacity(64);
    server.encode(msg, &mut buf).unwrap();
    // Server frames travel unmasked.
    assert!(buf[1] < 0x80);
    let decoded = client.decode(&mut buf).unwrap().unwrap();
    let back = decoded.base().unwrap();
    assert!(back.fin());
    assert_eq!(back.opcode(), OpCode::Text);
    assert_eq!(back.payload_length(), 3);
    assert_eq!(back.application_data().as_slice(), &[0x61u8, 0x62, 0x63]);
    assert!(buf.is_empty());
}

#[test]
fn client_to_server_round_trip() {
    let mut server = open_server();
    let mut client = open_client();
    let mut base: Frame = Default::default();
    base.set_opcode(OpCode::Binary);
    base.set_payload_length(5);
    base.set_application_data(vec![1, 2, 3, 4, 5]);
    let mut msg: WebSocket = Default::default();
    msg.set_base(base);
    let mut buf = BytesMut::with_capacity(64);
    client.encode(msg, &mut buf).unwrap();
    // Client frames travel masked: mask bit set, 4 key bytes present.
    assert!(buf[1] >= 0x80);
    assert_eq!(buf.len(), 2 + 4 + 5);
    let decoded = server.decode(&mut buf).unwrap().unwrap();
    let back = decoded.base().unwrap();
    assert!(back.fin());
    assert_eq!(back.opcode(), OpCode::Binary);
    assert_eq!(back.payload_length(), 5);
    assert_eq!(back.application_data().as_slice(), &[1u8, 2, 3, 4, 5]);
    assert!(buf.is_empty());
}

#[test]
fn smallest_length_form_is_used() {
    let mut server = open_server();
    for (len, header) in [(125usize, 2usize), (126, 4), (65535, 4), (65536, 10)] {
        let mut base: Frame = Default::default();
        base.set_opcode(OpCode::Binary);
        base.set_payload_length(len as u64);
        base.set_application_data(vec![0; len]);
        let mut msg: WebSocket = Default::default();
        msg.set_base(base);
        let mut buf = BytesMut::with_capacity(len + 16);
        server.encode(msg, &mut buf).unwrap();
        assert_eq!(buf.len(), header + len);
    }
}

#[test]
fn errors_latch_the_session() {
    let mut eb = BytesMut::with_capacity(16);
    eb.extend_from_slice(&[0x83, 0x81, 0x00, 0x00, 0x00, 0x00, 0x00]);
    let mut fc = open_server();
    let first = fc.decode(&mut eb);
    assert!(first.is_err());
    let mut fresh = BytesMut::with_capacity(16);
    fresh.extend_from_slice(&SHORT);
    // The same error comes back, and nothing is consumed any more.
    assert_eq!(fc.decode(&mut fresh), first.map(|_| None));
    assert_eq!(fresh.len(), SHORT.len());
    assert_eq!(fc.state(), SessionState::Failed);
}

#[test]
fn encode_before_handshake_is_an_ordering_error() {
    let mut fc: Twist<NoExtension> = Default::default();
    let mut msg: WebSocket = Default::default();
    let mut base: Frame = Default::default();
    base.set_opcode(OpCode::Ping);
    msg.set_base(base);
    let mut buf = BytesMut::with_capacity(16);
    assert_eq!(fc.encode(msg, &mut buf), Err(CodecError::HandshakeOrdering));
    assert!(buf.is_empty());
    assert_eq!(fc.state(), SessionState::Failed);
}

#[test]
fn empty_buffer_is_pending() {
    let mut fc = open_server();
    let mut eb = BytesMut::with_capacity(4);
    assert!(matches!(fc.decode(&mut eb), Ok(None)));
    assert_eq!(fc.state(), SessionState::Open);
}

#[test]
fn server_encode_exact_bytes() {
    let mut fc = open_server();
    let mut base: Frame = Default::default();
    base.set_opcode(OpCode::Text);
    base.set_payload_length(3);
    base.set_application_data(vec![0x61, 0x62, 0x63]);
    let mut msg: WebSocket = Default::default();
    msg.set_base(base);
    let mut buf = BytesMut::with_capacity(16);
    fc.encode(msg, &mut buf).unwrap();
    assert_eq!(buf.as_ref(), &[0x81u8, 0x03, 0x61, 0x62, 0x63]);
}

#[test]
fn extension_data_precedes_application_data() {
    let mut fc = open_server();
    let mut base: Frame = Default::default();
    base.set_opcode(OpCode::Binary);
    base.set_payload_length(3);
    base.set_extension_data(Some(vec![1, 2]));
    base.set_application_data(vec![3]);
    let mut msg: WebSocket = Default::default();
    msg.set_base(base);
    let mut buf = BytesMut::with_capacity(16);
    fc.encode(msg, &mut buf).unwrap();
    assert_eq!(buf.as_ref(), &[0x82u8, 0x03, 1, 2, 3]);
}

#[test]
fn stated_length_must_match_payload() {
    let mut fc = open_server();
    let mut base: Frame = Default::default();
    base.set_opcode(OpCode::Binary);
    base.set_payload_length(5);
    base.set_application_data(vec![3]);
    let mut msg: WebSocket = Default::default();
    msg.set_base(base);
    let mut buf = BytesMut::with_capacity(16);
    assert_eq!(
        fc.encode(msg, &mut buf),
        Err(CodecError::ProtocolError(ProtocolReason::LengthMismatch))
    );
    assert!(buf.is_empty());
}
