//! The opening handshake, both roles, through the session codec.

use bytes::BytesMut;
use twist::digest::accept_value;
use twist::envelope::{HandshakeRequest, HandshakeResponse, WebSocket};
use twist::error::{BadHandshakeReason, CodecError};
use twist::extension::NoExtension;
use twist::session::{SessionState, Twist};

fn server() -> Twist<NoExtension> {
    Twist::new(7, false, Vec::new(), Vec::new())
}

fn client() -> Twist<NoExtension> {
    Twist::new(7, true, Vec::new(), Vec::new())
}

fn sample_request() -> &'static str {
    "GET /chat HTTP/1.1\r\n\
     Host: server.example.com\r\n\
     Upgrade: websocket\r\n\
     Connection: Upgrade\r\n\
     Sec-WebSocket-Key: dGhlIHNhbXBsZSBub25jZQ==\r\n\
     Sec-WebSocket-Version: 13\r\n\r\n"
}

fn decode_request(raw: &str) -> Result<Option<WebSocket>, CodecError> {
    let mut buf = BytesMut::with_capacity(raw.len() + 8);
    buf.extend_from_slice(raw.as_bytes());
    server().decode(&mut buf)
}

#[test]
fn accept_digest_of_sample_key() {
    let acc = accept_value(b"dGhlIHNhbXBsZSBub25jZQ==");
    assert_eq!(acc.as_slice(), b"s3pPLMBiTxaQ9kYGzzhZRbK+xOo=".as_slice());
}

#[test]
fn server_handshake_round_trip() {
    let mut fc = server();
    let mut buf = BytesMut::with_capacity(512);
    buf.extend_from_slice(sample_request().as_bytes());
    let decoded = fc.decode(&mut buf).unwrap().unwrap();
    let req = decoded.request().unwrap();
    assert_eq!(req.path.as_slice(), b"/chat".as_slice());
    assert_eq!(req.host.as_slice(), b"server.example.com".as_slice());
    assert_eq!(req.key.as_slice(), b"dGhlIHNhbXBsZSBub25jZQ==".as_slice());
    assert!(buf.is_empty());
    // The request alone does not open the session.
    assert_eq!(fc.state(), SessionState::Handshaking);

    let response = HandshakeResponse { status: 101, accept: None, protocol: None, extensions: None };
    let mut ws: WebSocket = Default::default();
    ws.set_response(response);
    let mut out = BytesMut::with_capacity(512);
    fc.encode(ws, &mut out).unwrap();
    let text = String::from_utf8(out.as_ref().to_vec()).unwrap();
    assert!(text.starts_with("HTTP/1.1 101 Switching Protocols\r\n"));
    assert!(text.contains("Upgrade: websocket\r\n"));
    assert!(text.contains("Connection: Upgrade\r\n"));
    assert!(text.contains("Sec-WebSocket-Accept: s3pPLMBiTxaQ9kYGzzhZRbK+xOo=\r\n"));
    assert!(text.ends_with("\r\n\r\n"));
    // Encoding the response opens the session.
    assert_eq!(fc.state(), SessionState::Open);
}

#[test]
fn request_is_pending_until_terminator() {
    let raw = sample_request();
    let (a, b) = raw.split_at(40);
    let mut fc = server();
    let mut buf = BytesMut::with_capacity(512);
    buf.extend_from_slice(a.as_bytes());
    assert!(matches!(fc.decode(&mut buf), Ok(None)));
    assert_eq!(buf.len(), 40);
    buf.extend_from_slice(b.as_bytes());
    let decoded = fc.decode(&mut buf).unwrap().unwrap();
    assert!(decoded.request().is_some());
    assert!(buf.is_empty());
}

#[test]
fn header_names_are_case_insensitive() {
    let raw = "GET / HTTP/1.1\r\n\
               HOST: h\r\n\
               upgrade: WebSocket\r\n\
               CONNECTION: keep-alive, Upgrade\r\n\
               SEC-WEBSOCKET-KEY: abc\r\n\
               Sec-WebSocket-Version:  13 \r\n\r\n";
    let decoded = decode_request(raw).unwrap().unwrap();
    let req = decoded.request().unwrap();
    assert_eq!(req.key.as_slice(), b"abc".as_slice());
    assert_eq!(req.host.as_slice(), b"h".as_slice());
}

#[test]
fn optional_headers_are_carried() {
    let raw = "GET / HTTP/1.1\r\n\
               Host: h\r\n\
               Upgrade: websocket\r\n\
               Connection: Upgrade\r\n\
               Origin: http://example.com\r\n\
               Sec-WebSocket-Protocol: chat, superchat\r\n\
               Sec-WebSocket-Extensions: permessage-deflate\r\n\
               Sec-WebSocket-Key: abc\r\n\
               Sec-WebSocket-Version: 13\r\n\r\n";
    let decoded = decode_request(raw).unwrap().unwrap();
    let req = decoded.request().unwrap();
    assert_eq!(req.origin.as_ref().unwrap().as_slice(), b"http://example.com".as_slice());
    assert_eq!(req.protocols.as_ref().unwrap().as_slice(), b"chat, superchat".as_slice());
    assert_eq!(req.extensions.as_ref().unwrap().as_slice(), b"permessage-deflate".as_slice());
}

#[test]
fn non_get_method_is_refused() {
    let raw = "POST / HTTP/1.1\r\nHost: h\r\n\r\n";
    assert_eq!(
        decode_request(raw),
        Err(CodecError::BadHandshake(BadHandshakeReason::BadMethod))
    );
}

#[test]
fn old_http_version_is_refused() {
    let raw = "GET / HTTP/1.0\r\nHost: h\r\n\r\n";
    assert_eq!(
        decode_request(raw),
        Err(CodecError::BadHandshake(BadHandshakeReason::BadHttpVersion))
    );
}

#[test]
fn missing_host_is_refused() {
    let raw = "GET / HTTP/1.1\r\nUpgrade: websocket\r\nConnection: Upgrade\r\n\
               Sec-WebSocket-Key: abc\r\nSec-WebSocket-Version: 13\r\n\r\n";
    assert_eq!(
        decode_request(raw),
        Err(CodecError::BadHandshake(BadHandshakeReason::MissingHost))
    );
}

#[test]
fn missing_upgrade_is_refused() {
    let raw = "GET / HTTP/1.1\r\nHost: h\r\nConnection: Upgrade\r\n\
               Sec-WebSocket-Key: abc\r\nSec-WebSocket-Version: 13\r\n\r\n";
    assert_eq!(
        decode_request(raw),
        Err(CodecError::BadHandshake(BadHandshakeReason::MissingUpgrade))
    );
}

#[test]
fn wrong_connection_is_refused() {
    let raw = "GET / HTTP/1.1\r\nHost: h\r\nUpgrade: websocket\r\nConnection: close\r\n\
               Sec-WebSocket-Key: abc\r\nSec-WebSocket-Version: 13\r\n\r\n";
    assert_eq!(
        decode_request(raw),
        Err(CodecError::BadHandshake(BadHandshakeReason::MissingConnection))
    );
}

#[test]
fn missing_key_is_refused() {
    let raw = "GET / HTTP/1.1\r\nHost: h\r\nUpgrade: websocket\r\nConnection: Upgrade\r\n\
               Sec-WebSocket-Version: 13\r\n\r\n";
    assert_eq!(
        decode_request(raw),
        Err(CodecError::BadHandshake(BadHandshakeReason::MissingKey))
    );
}

#[test]
fn wrong_ws_version_is_refused() {
    let raw = "GET / HTTP/1.1\r\nHost: h\r\nUpgrade: websocket\r\nConnection: Upgrade\r\n\
               Sec-WebSocket-Key: abc\r\nSec-WebSocket-Version: 8\r\n\r\n";
    assert_eq!(
        decode_request(raw),
        Err(CodecError::BadHandshake(BadHandshakeReason::BadWebSocketVersion))
    );
}

#[test]
fn obsolete_line_folding_is_refused() {
    let raw = "GET / HTTP/1.1\r\nHost: h\r\n folded\r\n\r\n";
    assert_eq!(
        decode_request(raw),
        Err(CodecError::BadHandshake(BadHandshakeReason::ObsoleteLineFolding))
    );
}

#[test]
fn header_without_colon_is_refused() {
    let raw = "GET / HTTP/1.1\r\nHost h\r\n\r\n";
    assert_eq!(
        decode_request(raw),
        Err(CodecError::BadHandshake(BadHandshakeReason::BadHeaderLine))
    );
}

#[test]
fn oversized_head_is_refused() {
    let mut fc = server();
    let mut buf = BytesMut::with_capacity(9000);
    buf.extend_from_slice(&vec![b'a'; 9000]);
    assert_eq!(fc.decode(&mut buf), Err(CodecError::HandshakeTooLarge));
    assert_eq!(fc.state(), SessionState::Failed);
}

fn extract_key(request_text: &str) -> String {
    for line in request_text.split("\r\n") {
        if let Some(rest) = line.strip_prefix("Sec-WebSocket-Key: ") {
            return rest.to_string();
        }
    }
    panic!("no key header in request");
}

#[test]
fn client_handshake_round_trip() {
    let mut fc = client();
    let request = HandshakeRequest {
        path: b"/".to_vec(),
        host: b"example.com".to_vec(),
        key: Vec::new(),
        origin: None,
        protocols: None,
        extensions: None,
    };
    let mut ws: WebSocket = Default::default();
    ws.set_request(request);
    let mut out = BytesMut::with_capacity(512);
    fc.encode(ws, &mut out).unwrap();
    let text = String::from_utf8(out.as_ref().to_vec()).unwrap();
    assert!(text.starts_with("GET / HTTP/1.1\r\nHost: example.com\r\n"));
    assert!(text.contains("Upgrade: websocket\r\n"));
    assert!(text.contains("Sec-WebSocket-Version: 13\r\n"));
    assert!(text.ends_with("\r\n\r\n"));
    // The request does not open the session.
    assert_eq!(fc.state(), SessionState::Handshaking);

    let key = extract_key(&text);
    assert_eq!(key.len(), 24);
    let acc = accept_value(key.as_bytes());
    let mut resp = String::new();
    resp.push_str("HTTP/1.1 101 Switching Protocols\r\nUpgrade: websocket\r\n");
    resp.push_str("Connection: Upgrade\r\nSec-WebSocket-Accept: ");
    resp.push_str(&String::from_utf8(acc).unwrap());
    resp.push_str("\r\n\r\n");
    let mut inbuf = BytesMut::with_capacity(512);
    inbuf.extend_from_slice(resp.as_bytes());
    let decoded = fc.decode(&mut inbuf).unwrap().unwrap();
    let response = decoded.response().unwrap();
    assert_eq!(response.status, 101);
    assert!(inbuf.is_empty());
    // A valid 101 opens the session.
    assert_eq!(fc.state(), SessionState::Open);
}

#[test]
fn wrong_accept_digest_is_rejected() {
    let mut fc = client();
    let request = HandshakeRequest {
        path: b"/".to_vec(),
        host: b"example.com".to_vec(),
        key: Vec::new(),
        origin: None,
        protocols: None,
        extensions: None,
    };
    let mut ws: WebSocket = Default::default();
    ws.set_request(request);
    let mut out = BytesMut::with_capacity(512);
    fc.encode(ws, &mut out).unwrap();

    let resp = "HTTP/1.1 101 Switching Protocols\r\nUpgrade: websocket\r\n\
                Connection: Upgrade\r\nSec-WebSocket-Accept: AAAAAAAAAAAAAAAAAAAAAAAAAAA=\r\n\r\n";
    let mut inbuf = BytesMut::with_capacity(512);
    inbuf.extend_from_slice(resp.as_bytes());
    assert_eq!(fc.decode(&mut inbuf), Err(CodecError::HandshakeRejected));
    assert_eq!(fc.state(), SessionState::Failed);
}

#[test]
fn response_before_request_is_out_of_order() {
    let mut fc = client();
    let resp = "HTTP/1.1 101 Switching Protocols\r\nUpgrade: websocket\r\n\
                Connection: Upgrade\r\nSec-WebSocket-Accept: x\r\n\r\n";
    let mut inbuf = BytesMut::with_capacity(512);
    inbuf.extend_from_slice(resp.as_bytes());
    assert_eq!(fc.decode(&mut inbuf), Err(CodecError::HandshakeOrdering));
}

#[test]
fn non_101_status_is_surfaced_verbatim() {
    let mut fc = client();
    let resp = "HTTP/1.1 404 Not Found\r\nContent-Length: 0\r\n\r\n";
    let mut inbuf = BytesMut::with_capacity(512);
    inbuf.extend_from_slice(resp.as_bytes());
    let decoded = fc.decode(&mut inbuf).unwrap().unwrap();
    assert_eq!(decoded.response().unwrap().status, 404);
    assert!(inbuf.is_empty());
    // A refusal does not open the session.
    assert_eq!(fc.state(), SessionState::Handshaking);
}

#[test]
fn response_before_request_decoded_is_out_of_order_on_server() {
    // The server cannot encode its response before it saw a request: it
    // has no key to digest.
    let mut fc = server();
    let response = HandshakeResponse { status: 101, accept: None, protocol: None, extensions: None };
    let mut ws: WebSocket = Default::default();
    ws.set_response(response);
    let mut out = BytesMut::with_capacity(64);
    assert_eq!(fc.encode(ws, &mut out), Err(CodecError::HandshakeOrdering));
    assert!(out.is_empty());
}

#[test]
fn protocol_echo_in_response() {
    let mut fc = server();
    let mut buf = BytesMut::with_capacity(512);
    buf.extend_from_slice(sample_request().as_bytes());
    fc.decode(&mut buf).unwrap().unwrap();
    let response = HandshakeResponse {
        status: 101,
        accept: None,
        protocol: Some(b"chat".to_vec()),
        extensions: None,
    };
    let mut ws: WebSocket = Default::default();
    ws.set_response(response);
    let mut out = BytesMut::with_capacity(512);
    fc.encode(ws, &mut out).unwrap();
    let text = String::from_utf8(out.as_ref().to_vec()).unwrap();
    assert!(text.contains("Sec-WebSocket-Protocol: chat\r\n"));
}
