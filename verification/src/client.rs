//! The client side of the opening handshake: encoding the upgrade
//! request with a freshly drawn key, and decoding the response, checking
//! its accept digest against that key.

use vstd::prelude::*;
use vstd::slice::{slice_subrange, slice_to_vec};
use bytes::BytesMut;
use crate::buffer::{buf_advance, buf_extend, buf_len, buf_slice, bytes_view};
use crate::digest::{accept_of, accept_value, base64_encode, base64_of};
use crate::envelope::{HandshakeRequest, HandshakeResponse};
use crate::error::{BadHandshakeReason, CodecError};
use crate::http::{
    ascii_seq, check_version, eq_bytes, fields_view, find_byte, find_byte_from, find_terminator,
    lemma_find_byte_bounds, lines_view, lit_bytes, lookup, lookup_header, parse_fields,
    parse_fields_from, put_ascii, scan_terminator, split_head, split_lines, version_ok,
};
use crate::rng::fill_random;
use crate::server::opt_matches;

verus! {

/// What a decoded handshake response carried.
pub ghost struct ResponseModel {
    /// The status code, surfaced verbatim.
    pub status: u16,
    /// The Sec-WebSocket-Accept value, when present.
    pub accept: Option<Seq<u8>>,
    /// The agreed Sec-WebSocket-Protocol, when present.
    pub protocol: Option<Seq<u8>>,
    /// The accepted Sec-WebSocket-Extensions, when present.
    pub extensions: Option<Seq<u8>>,
}

/// The outcome of parsing a buffer as a handshake response.
pub ghost enum ResponseParse {
    /// The head's terminator has not arrived; nothing may be consumed.
    Incomplete,
    /// The head exceeds the configured byte cap.
    TooLarge,
    /// The head is malformed.
    Reject(CodecError),
    /// A parsed response, and the count of bytes its head occupies.
    Done(ResponseModel, nat),
}

/// The status code of a status line `HTTP/x.y NNN reason`.
pub open spec fn status_line_code(line: Seq<u8>) -> Result<u16, BadHandshakeReason> {
    match find_byte_from(line, 32, 0) {
        None => Err(BadHandshakeReason::BadStatusLine),
        Some(i) => {
            if !version_ok(line.take(i as int)) {
                Err(BadHandshakeReason::BadHttpVersion)
            } else if line.len() < i + 4 {
                Err(BadHandshakeReason::BadStatusLine)
            } else if 48 <= line[i as int + 1] <= 57 && 48 <= line[i as int + 2] <= 57 && 48
                <= line[i as int + 3] <= 57 && (line.len() == i + 4 || line[i as int + 4] == 32) {
                Ok(
                    (((line[i as int + 1] - 48) * 100 + (line[i as int + 2] - 48) * 10 + (line[
                        i as int + 3] - 48))) as u16,
                )
            } else {
                Err(BadHandshakeReason::BadStatusLine)
            }
        },
    }
}

/// The parser for handshake responses: find the head terminator under
/// the cap, read the status line, and collect the answered headers.
pub open spec fn parse_response(s: Seq<u8>, cap: nat) -> ResponseParse {
    match find_terminator(s) {
        None => if s.len() >= cap {
            ResponseParse::TooLarge
        } else {
            ResponseParse::Incomplete
        },
        Some(t) => if t + 4 > cap {
            ResponseParse::TooLarge
        } else {
            let lines = split_lines(s.take(t as int + 2));
            if lines.len() == 0 {
                ResponseParse::Reject(CodecError::BadHandshake(BadHandshakeReason::BadStatusLine))
            } else {
                match status_line_code(lines[0]) {
                    Err(e) => ResponseParse::Reject(CodecError::BadHandshake(e)),
                    Ok(status) => match parse_fields_from(lines, 1) {
                        Err(e) => ResponseParse::Reject(CodecError::BadHandshake(e)),
                        Ok(hs) => ResponseParse::Done(
                            ResponseModel {
                                status,
                                accept: lookup(hs, ascii_seq("sec-websocket-accept"@)),
                                protocol: lookup(hs, ascii_seq("sec-websocket-protocol"@)),
                                extensions: lookup(hs, ascii_seq("sec-websocket-extensions"@)),
                            },
                            t + 4,
                        ),
                    },
                }
            }
        },
    }
}

/// The decoded response carries exactly the model's fields.
pub open spec fn response_matches(p: HandshakeResponse, m: ResponseModel) -> bool {
    &&& p.status == m.status
    &&& opt_matches(p.accept, m.accept)
    &&& opt_matches(p.protocol, m.protocol)
    &&& opt_matches(p.extensions, m.extensions)
}

/// The bytes of the upgrade request: the GET line, the fixed upgrade
/// headers, the fresh key, then the optional origin, protocol and
/// extension-offer headers.
pub open spec fn request_bytes(
    path: Seq<u8>,
    host: Seq<u8>,
    key: Seq<u8>,
    origin: Option<Seq<u8>>,
    protocols: Option<Seq<u8>>,
    offer: Seq<u8>,
) -> Seq<u8> {
    ascii_seq("GET "@) + path + ascii_seq(" HTTP/1.1\r\nHost: "@) + host + ascii_seq(
        "\r\nUpgrade: websocket\r\nConnection: Upgrade\r\nSec-WebSocket-Key: "@,
    ) + key + ascii_seq("\r\nSec-WebSocket-Version: 13\r\n"@) + (match origin {
        Some(o) => ascii_seq("Origin: "@) + o + ascii_seq("\r\n"@),
        None => Seq::<u8>::empty(),
    }) + (match protocols {
        Some(p) => ascii_seq("Sec-WebSocket-Protocol: "@) + p + ascii_seq("\r\n"@),
        None => Seq::<u8>::empty(),
    }) + (if offer.len() > 0 {
        ascii_seq("Sec-WebSocket-Extensions: "@) + offer + ascii_seq("\r\n"@)
    } else {
        Seq::<u8>::empty()
    }) + ascii_seq("\r\n"@)
}

/// One encode of the request appended these bytes and stored this key:
/// the key is the base64 form of 16 fresh random bytes.
pub open spec fn encoded_request(
    c_old: ClientHandshakeCodec,
    c_new: ClientHandshakeCodec,
    request: HandshakeRequest,
    s: Seq<u8>,
    s2: Seq<u8>,
    kb: Seq<u8>,
) -> bool {
    &&& kb.len() == 16
    &&& (match c_new.key {
        Some(k) => k@ == base64_of(kb),
        None => false,
    })
    &&& s2 == s + request_bytes(
        request.path@,
        request.host@,
        base64_of(kb),
        (match request.origin {
            Some(o) => Some(o@),
            None => None,
        }),
        (match request.protocols {
            Some(p) => Some(p@),
            None => None,
        }),
        c_old.ext_offer@,
    )
}

/// Decoder and encoder of the client side of the handshake.
///
/// `key` remembers the key the last encoded request carried; the decoder
/// checks the response's accept digest against it.  `ext_offer` is the
/// joined extension offer the session stakes before encoding.
pub struct ClientHandshakeCodec {
    /// Cap on the head's byte count.
    pub max_header_bytes: u32,
    /// The key this codec issued, stored by a successful encode.
    pub key: Option<Vec<u8>>,
    /// The extension offer to write, empty for none.
    pub ext_offer: Vec<u8>,
}

impl Default for ClientHandshakeCodec {
    /// No key issued yet, no extension offer, 8 KiB head cap.
    fn default() -> (r: ClientHandshakeCodec)
        ensures
            r.max_header_bytes == 8192,
            r.key is None,
            r.ext_offer@ == Seq::<u8>::empty(),
    {
        ClientHandshakeCodec { max_header_bytes: 8192, key: None, ext_offer: Vec::new() }
    }
}

impl ClientHandshakeCodec {
    /// Stake the extension offer the request will carry.
    pub fn set_ext_offer(&mut self, ext_offer: Vec<u8>)
        ensures
            *final(self) == (ClientHandshakeCodec { ext_offer, ..*old(self) }),
    {
        self.ext_offer = ext_offer;
    }

    /// Encode one upgrade request onto the end of `buf`, with a freshly
    /// generated key, and remember that key.
    pub fn encode(&mut self, request: &HandshakeRequest, buf: &mut BytesMut) -> (r: Result<
        (),
        CodecError,
    >)
        ensures
            ({
                let s = bytes_view(*old(buf));
                let s2 = bytes_view(*final(buf));
                match r {
                    Ok(()) => (exists|kb: Seq<u8>|
                        encoded_request(*old(self), *final(self), *request, s, s2, kb))
                        && final(self).max_header_bytes == old(self).max_header_bytes
                        && final(self).ext_offer == old(self).ext_offer,
                    Err(e) => e == CodecError::ResourceExhausted && s2 == s && *final(self)
                        == *old(self),
                }
            }),
    {
        let mut kb: Vec<u8> = Vec::new();
        let mut i: usize = 0;
        while i < 16
            invariant
                kb@.len() == i,
                i <= 16,
            decreases 16 - i,
        {
            kb.push(0);
            i = i + 1;
        }
        if fill_random(&mut kb).is_err() {
            return Err(CodecError::ResourceExhausted);
        }
        let key = base64_encode(kb.as_slice());
        self.key = Some(slice_to_vec(key.as_slice()));
        proof {
            reveal_strlit("GET ");
            reveal_strlit(" HTTP/1.1\r\nHost: ");
            reveal_strlit("\r\nUpgrade: websocket\r\nConnection: Upgrade\r\nSec-WebSocket-Key: ");
            reveal_strlit("\r\nSec-WebSocket-Version: 13\r\n");
            reveal_strlit("Origin: ");
            reveal_strlit("Sec-WebSocket-Protocol: ");
            reveal_strlit("Sec-WebSocket-Extensions: ");
            reveal_strlit("\r\n");
        }
        let mut out: Vec<u8> = Vec::new();
        put_ascii(&mut out, "GET ");
        out.extend_from_slice(request.path.as_slice());
        put_ascii(&mut out, " HTTP/1.1\r\nHost: ");
        out.extend_from_slice(request.host.as_slice());
        put_ascii(&mut out, "\r\nUpgrade: websocket\r\nConnection: Upgrade\r\nSec-WebSocket-Key: ");
        out.extend_from_slice(key.as_slice());
        put_ascii(&mut out, "\r\nSec-WebSocket-Version: 13\r\n");
        match &request.origin {
            Some(o) => {
                put_ascii(&mut out, "Origin: ");
                out.extend_from_slice(o.as_slice());
                put_ascii(&mut out, "\r\n");
            },
            None => (),
        }
        match &request.protocols {
            Some(p) => {
                put_ascii(&mut out, "Sec-WebSocket-Protocol: ");
                out.extend_from_slice(p.as_slice());
                put_ascii(&mut out, "\r\n");
            },
            None => (),
        }
        if self.ext_offer.len() > 0 {
            put_ascii(&mut out, "Sec-WebSocket-Extensions: ");
            out.extend_from_slice(self.ext_offer.as_slice());
            put_ascii(&mut out, "\r\n");
        }
        put_ascii(&mut out, "\r\n");
        assert(out@ =~= request_bytes(
            request.path@,
            request.host@,
            base64_of(kb@),
            (match request.origin {
                Some(o) => Some(o@),
                None => None,
            }),
            (match request.protocols {
                Some(p) => Some(p@),
                None => None,
            }),
            old(self).ext_offer@,
        ));
        buf_extend(buf, out.as_slice());
        proof {
            assert(encoded_request(
                *old(self),
                *self,
                *request,
                bytes_view(*old(buf)),
                bytes_view(*buf),
                kb@,
            ));
        }
        Ok(())
    }

    /// Decode one handshake response from the front of `buf`.
    ///
    /// A 101 is accepted only when its accept digest matches the key this
    /// codec issued; any other status is surfaced verbatim.
    #[verifier::rlimit(100)]
    pub fn decode(&mut self, buf: &mut BytesMut) -> (r: Result<Option<HandshakeResponse>, CodecError>)
        ensures
            *final(self) == *old(self),
            ({
                let s = bytes_view(*old(buf));
                let s2 = bytes_view(*final(buf));
                match parse_response(s, old(self).max_header_bytes as nat) {
                    ResponseParse::Incomplete => r == Ok::<Option<HandshakeResponse>, CodecError>(
                        None,
                    ) && s2 == s,
                    ResponseParse::TooLarge => r == Err::<Option<HandshakeResponse>, _>(
                        CodecError::HandshakeTooLarge,
                    ) && s2 == s,
                    ResponseParse::Reject(e) => r == Err::<Option<HandshakeResponse>, _>(e) && s2
                        == s,
                    ResponseParse::Done(m, used) => if m.status == 101 {
                        match old(self).key {
                            None => r == Err::<Option<HandshakeResponse>, _>(
                                CodecError::HandshakeOrdering,
                            ) && s2 == s,
                            Some(k) => if m.accept == Some(accept_of(k@)) {
                                s2 == s.skip(used as int) && (match r {
                                    Ok(Some(p)) => response_matches(p, m),
                                    _ => false,
                                })
                            } else {
                                r == Err::<Option<HandshakeResponse>, _>(
                                    CodecError::HandshakeRejected,
                                ) && s2 == s
                            },
                        }
                    } else {
                        s2 == s.skip(used as int) && (match r {
                            Ok(Some(p)) => response_matches(p, m),
                            _ => false,
                        })
                    },
                }
            }),
    {
        let ghost s = bytes_view(*old(buf));
        let n = buf_len(buf);
        let v: Vec<u8> = slice_to_vec(buf_slice(buf));
        let cap_u32 = self.max_header_bytes;
        match scan_terminator(v.as_slice()) {
            None => {
                if (n as u64) >= (cap_u32 as u64) {
                    Err(CodecError::HandshakeTooLarge)
                } else {
                    Ok(None)
                }
            },
            Some(t) => {
                if (t as u64) + 4 > (cap_u32 as u64) {
                    return Err(CodecError::HandshakeTooLarge);
                }
                let head = slice_subrange(v.as_slice(), 0, t + 2);
                assert(head@ =~= s.take(t as int + 2));
                let lines = split_head(head);
                if lines.len() == 0 {
                    return Err(CodecError::BadHandshake(BadHandshakeReason::BadStatusLine));
                }
                let status = match status_line_exec(&lines[0]) {
                    Err(e) => return Err(CodecError::BadHandshake(e)),
                    Ok(st) => st,
                };
                let fields = match parse_fields(&lines, 1) {
                    Err(e) => return Err(CodecError::BadHandshake(e)),
                    Ok(fs) => fs,
                };
                proof {
                    reveal_strlit("sec-websocket-accept");
                    reveal_strlit("sec-websocket-protocol");
                    reveal_strlit("sec-websocket-extensions");
                }
                let accept = match lookup_header(&fields, lit_bytes("sec-websocket-accept")) {
                    None => None,
                    Some(a) => Some(slice_to_vec(a.as_slice())),
                };
                let protocol = match lookup_header(&fields, lit_bytes("sec-websocket-protocol")) {
                    None => None,
                    Some(p) => Some(slice_to_vec(p.as_slice())),
                };
                let extensions = match lookup_header(
                    &fields,
                    lit_bytes("sec-websocket-extensions"),
                ) {
                    None => None,
                    Some(x) => Some(slice_to_vec(x.as_slice())),
                };
                if status == 101 {
                    let key = match &self.key {
                        None => {
                            return Err(CodecError::HandshakeOrdering);
                        },
                        Some(k) => k,
                    };
                    let expected = accept_value(key.as_slice());
                    match &accept {
                        None => {
                            return Err(CodecError::HandshakeRejected);
                        },
                        Some(a) => {
                            if !eq_bytes(a.as_slice(), expected.as_slice()) {
                                return Err(CodecError::HandshakeRejected);
                            }
                        },
                    }
                }
                buf_advance(buf, t + 4);
                Ok(Some(HandshakeResponse { status, accept, protocol, extensions }))
            },
        }
    }
}

/// Exec mirror of [`status_line_code`].
fn status_line_exec(line: &Vec<u8>) -> (r: Result<u16, BadHandshakeReason>)
    ensures
        (match r {
            Ok(st) => status_line_code(line@) == Ok::<_, BadHandshakeReason>(st),
            Err(e) => status_line_code(line@) == Err::<u16, _>(e),
        }),
{
    proof {
        lemma_find_byte_bounds(line@, 32, 0);
    }
    let i = match find_byte(line.as_slice(), 32, 0) {
        None => {
            return Err(BadHandshakeReason::BadStatusLine);
        },
        Some(i) => i,
    };
    let n = line.len();
    let version = slice_subrange(line.as_slice(), 0, i);
    assert(version@ =~= line@.take(i as int));
    if !check_version(version) {
        return Err(BadHandshakeReason::BadHttpVersion);
    }
    if n < 4 || i > n - 4 {
        return Err(BadHandshakeReason::BadStatusLine);
    }
    let d1 = line[i + 1];
    let d2 = line[i + 2];
    let d3 = line[i + 3];
    if 48 <= d1 && d1 <= 57 && 48 <= d2 && d2 <= 57 && 48 <= d3 && d3 <= 57 && (n == i + 4 || line[i
        + 4] == 32) {
        Ok(((d1 - 48) as u16) * 100 + ((d2 - 48) as u16) * 10 + ((d3 - 48) as u16))
    } else {
        Err(BadHandshakeReason::BadStatusLine)
    }
}

} // verus!
