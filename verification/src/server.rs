//! The server side of the opening handshake: decoding and validating the
//! client's upgrade request, and encoding the 101 response with its
//! accept digest.

use vstd::prelude::*;
use vstd::slice::{slice_subrange, slice_to_vec};
use bytes::BytesMut;
use crate::buffer::{buf_advance, buf_extend, buf_len, buf_slice, bytes_view};
use crate::digest::{accept_of, accept_value};
use crate::envelope::{HandshakeRequest, HandshakeResponse};
use crate::error::{BadHandshakeReason, CodecError};
use crate::http::{
    ascii_seq, check_version, eq_bytes, fields_view, find_byte, find_byte_from, find_terminator,
    has_token, lemma_find_byte_bounds, lines_view, list_has_token, lit_bytes, lookup,
    lookup_header, lower_eq, lower_seq, parse_fields, parse_fields_from, put_ascii,
    scan_terminator, split_head, split_lines, version_ok, HeaderField,
};

verus! {

/// What a valid upgrade request asked for.
pub ghost struct RequestModel {
    /// The request target.
    pub path: Seq<u8>,
    /// The Host header value.
    pub host: Seq<u8>,
    /// The Sec-WebSocket-Key value, as sent.
    pub key: Seq<u8>,
    /// The Origin header value, when present.
    pub origin: Option<Seq<u8>>,
    /// The Sec-WebSocket-Protocol offer, when present.
    pub protocols: Option<Seq<u8>>,
    /// The Sec-WebSocket-Extensions offer, when present.
    pub extensions: Option<Seq<u8>>,
}

/// The outcome of parsing a buffer as an upgrade request.
pub ghost enum RequestParse {
    /// The head's terminator has not arrived; nothing may be consumed.
    Incomplete,
    /// The head exceeds the configured byte cap.
    TooLarge,
    /// The head is malformed or fails handshake validation.
    Reject(CodecError),
    /// A valid request, and the count of bytes its head occupies.
    Done(RequestModel, nat),
}

/// The request target of a request line `GET <target> HTTP/x.y`.
pub open spec fn request_line_target(line: Seq<u8>) -> Result<Seq<u8>, BadHandshakeReason> {
    match find_byte_from(line, 32, 0) {
        None => Err(BadHandshakeReason::BadRequestLine),
        Some(i) => match find_byte_from(line, 32, i + 1) {
            None => Err(BadHandshakeReason::BadRequestLine),
            Some(j) => {
                let method = line.take(i as int);
                let target = line.subrange(i as int + 1, j as int);
                let version = line.skip(j as int + 1);
                if method != ascii_seq("GET"@) {
                    Err(BadHandshakeReason::BadMethod)
                } else if target.len() == 0 {
                    Err(BadHandshakeReason::BadRequestLine)
                } else if !version_ok(version) {
                    Err(BadHandshakeReason::BadHttpVersion)
                } else {
                    Ok(target)
                }
            },
        },
    }
}

/// Validation of the parsed header fields, in the order Host, Upgrade,
/// Connection, key, version; lookups are first-wins and case-insensitive
/// in the name.
pub open spec fn validate_request(
    hs: Seq<(Seq<u8>, Seq<u8>)>,
    target: Seq<u8>,
    used: nat,
) -> RequestParse {
    match lookup(hs, ascii_seq("host"@)) {
        None => RequestParse::Reject(CodecError::BadHandshake(BadHandshakeReason::MissingHost)),
        Some(host) => match lookup(hs, ascii_seq("upgrade"@)) {
            None => RequestParse::Reject(
                CodecError::BadHandshake(BadHandshakeReason::MissingUpgrade),
            ),
            Some(upgrade) => if lower_seq(upgrade) != ascii_seq("websocket"@) {
                RequestParse::Reject(CodecError::BadHandshake(BadHandshakeReason::MissingUpgrade))
            } else {
                match lookup(hs, ascii_seq("connection"@)) {
                    None => RequestParse::Reject(
                        CodecError::BadHandshake(BadHandshakeReason::MissingConnection),
                    ),
                    Some(conn) => if !list_has_token(conn, ascii_seq("upgrade"@)) {
                        RequestParse::Reject(
                            CodecError::BadHandshake(BadHandshakeReason::MissingConnection),
                        )
                    } else {
                        match lookup(hs, ascii_seq("sec-websocket-key"@)) {
                            None => RequestParse::Reject(
                                CodecError::BadHandshake(BadHandshakeReason::MissingKey),
                            ),
                            Some(key) => if key.len() == 0 {
                                RequestParse::Reject(
                                    CodecError::BadHandshake(BadHandshakeReason::MissingKey),
                                )
                            } else {
                                match lookup(hs, ascii_seq("sec-websocket-version"@)) {
                                    None => RequestParse::Reject(
                                        CodecError::BadHandshake(
                                            BadHandshakeReason::BadWebSocketVersion,
                                        ),
                                    ),
                                    Some(ver) => if ver != ascii_seq("13"@) {
                                        RequestParse::Reject(
                                            CodecError::BadHandshake(
                                                BadHandshakeReason::BadWebSocketVersion,
                                            ),
                                        )
                                    } else {
                                        RequestParse::Done(
                                            RequestModel {
                                                path: target,
                                                host,
                                                key,
                                                origin: lookup(hs, ascii_seq("origin"@)),
                                                protocols: lookup(
                                                    hs,
                                                    ascii_seq("sec-websocket-protocol"@),
                                                ),
                                                extensions: lookup(
                                                    hs,
                                                    ascii_seq("sec-websocket-extensions"@),
                                                ),
                                            },
                                            used,
                                        )
                                    },
                                }
                            },
                        }
                    },
                }
            },
        },
    }
}

/// The parser for upgrade requests: find the head terminator under the
/// cap, split the head into lines, read the request line, parse the
/// header fields, and validate the handshake headers.
pub open spec fn parse_request(s: Seq<u8>, cap: nat) -> RequestParse {
    match find_terminator(s) {
        None => if s.len() >= cap {
            RequestParse::TooLarge
        } else {
            RequestParse::Incomplete
        },
        Some(t) => if t + 4 > cap {
            RequestParse::TooLarge
        } else {
            let lines = split_lines(s.take(t as int + 2));
            if lines.len() == 0 {
                RequestParse::Reject(CodecError::BadHandshake(BadHandshakeReason::BadRequestLine))
            } else {
                match request_line_target(lines[0]) {
                    Err(e) => RequestParse::Reject(CodecError::BadHandshake(e)),
                    Ok(target) => match parse_fields_from(lines, 1) {
                        Err(e) => RequestParse::Reject(CodecError::BadHandshake(e)),
                        Ok(hs) => validate_request(hs, target, t + 4),
                    },
                }
            }
        },
    }
}

/// How an optional decoded value matches an optional model value.
pub open spec fn opt_matches(o: Option<Vec<u8>>, m: Option<Seq<u8>>) -> bool {
    match o {
        Some(v) => m == Some(v@),
        None => m is None,
    }
}

/// The decoded request carries exactly the model's fields.
pub open spec fn request_matches(q: HandshakeRequest, m: RequestModel) -> bool {
    &&& q.path@ == m.path
    &&& q.host@ == m.host
    &&& q.key@ == m.key
    &&& opt_matches(q.origin, m.origin)
    &&& opt_matches(q.protocols, m.protocols)
    &&& opt_matches(q.extensions, m.extensions)
}

/// The bytes of the 101 response: the fixed status and upgrade lines, the
/// accept digest of the stored key, then the optional protocol and
/// extension headers.
pub open spec fn response_bytes(key: Seq<u8>, ext: Seq<u8>, protocol: Option<Seq<u8>>) -> Seq<u8> {
    ascii_seq(
        "HTTP/1.1 101 Switching Protocols\r\nUpgrade: websocket\r\nConnection: Upgrade\r\nSec-WebSocket-Accept: "@,
    ) + accept_of(key) + ascii_seq("\r\n"@) + (match protocol {
        Some(p) => ascii_seq("Sec-WebSocket-Protocol: "@) + p + ascii_seq("\r\n"@),
        None => Seq::<u8>::empty(),
    }) + (if ext.len() > 0 {
        ascii_seq("Sec-WebSocket-Extensions: "@) + ext + ascii_seq("\r\n"@)
    } else {
        Seq::<u8>::empty()
    }) + ascii_seq("\r\n"@)
}

/// Decoder and encoder of the server side of the handshake.
///
/// `key` stores the client key once a request decodes; the encoder
/// computes the accept digest from it.  `ext_resp` is the extension
/// response the session stakes before encoding.
pub struct ServerHandshakeCodec {
    /// Cap on the head's byte count.
    pub max_header_bytes: u32,
    /// The client's key, stored by a successful decode.
    pub key: Option<Vec<u8>>,
    /// The negotiated extension response to write, empty for none.
    pub ext_resp: Vec<u8>,
}

impl Default for ServerHandshakeCodec {
    /// No key yet, no extension response, 8 KiB head cap.
    fn default() -> (r: ServerHandshakeCodec)
        ensures
            r.max_header_bytes == 8192,
            r.key is None,
            r.ext_resp@ == Seq::<u8>::empty(),
    {
        ServerHandshakeCodec { max_header_bytes: 8192, key: None, ext_resp: Vec::new() }
    }
}

impl ServerHandshakeCodec {
    /// Decode one upgrade request from the front of `buf`.
    ///
    /// Consumes the head exactly when a valid request is returned, and
    /// stores its key for the response's accept digest.
    #[verifier::rlimit(100)]
    pub fn decode(&mut self, buf: &mut BytesMut) -> (r: Result<Option<HandshakeRequest>, CodecError>)
        ensures
            ({
                let s = bytes_view(*old(buf));
                let s2 = bytes_view(*final(buf));
                match parse_request(s, old(self).max_header_bytes as nat) {
                    RequestParse::Incomplete => r == Ok::<Option<HandshakeRequest>, CodecError>(None) && s2 == s
                        && *final(self) == *old(self),
                    RequestParse::TooLarge => r == Err::<Option<HandshakeRequest>, _>(
                        CodecError::HandshakeTooLarge,
                    ) && s2 == s && *final(self) == *old(self),
                    RequestParse::Reject(e) => r == Err::<Option<HandshakeRequest>, _>(e) && s2
                        == s && *final(self) == *old(self),
                    RequestParse::Done(m, used) => {
                        &&& s2 == s.skip(used as int)
                        &&& match final(self).key {
                            Some(k) => k@ == m.key,
                            None => false,
                        }
                        &&& final(self).max_header_bytes == old(self).max_header_bytes
                        &&& final(self).ext_resp == old(self).ext_resp
                        &&& match r {
                            Ok(Some(q)) => request_matches(q, m),
                            _ => false,
                        }
                    },
                }
            }),
    {
        let ghost s = bytes_view(*old(buf));
        let n = buf_len(buf);
        let v: Vec<u8> = slice_to_vec(buf_slice(buf));
        let cap_u32 = self.max_header_bytes;
        match scan_terminator(v.as_slice()) {
            None => {
                if (n as u64) >= (cap_u32 as u64) {
                    Err(CodecError::HandshakeTooLarge)
                } else {
                    Ok(None)
                }
            },
            Some(t) => {
                if (t as u64) + 4 > (cap_u32 as u64) {
                    return Err(CodecError::HandshakeTooLarge);
                }
                let head = slice_subrange(v.as_slice(), 0, t + 2);
                assert(head@ =~= s.take(t as int + 2));
                let lines = split_head(head);
                if lines.len() == 0 {
                    return Err(
                        CodecError::BadHandshake(BadHandshakeReason::BadRequestLine),
                    );
                }
                let target = match request_line_exec(&lines[0]) {
                    Err(e) => return Err(CodecError::BadHandshake(e)),
                    Ok(tg) => tg,
                };
                let fields = match parse_fields(&lines, 1) {
                    Err(e) => return Err(CodecError::BadHandshake(e)),
                    Ok(fs) => fs,
                };
                let ghost hs = fields_view(fields@);

                proof {
                    reveal_strlit("host");
                    reveal_strlit("upgrade");
                    reveal_strlit("websocket");
                    reveal_strlit("connection");
                    reveal_strlit("sec-websocket-key");
                    reveal_strlit("sec-websocket-version");
                    reveal_strlit("13");
                    reveal_strlit("origin");
                    reveal_strlit("sec-websocket-protocol");
                    reveal_strlit("sec-websocket-extensions");
                }
                let host = match lookup_header(&fields, lit_bytes("host")) {
                    None => return Err(CodecError::BadHandshake(BadHandshakeReason::MissingHost)),
                    Some(h) => slice_to_vec(h.as_slice()),
                };
                match lookup_header(&fields, lit_bytes("upgrade")) {
                    None => return Err(
                        CodecError::BadHandshake(BadHandshakeReason::MissingUpgrade),
                    ),
                    Some(u) => {
                        if !lower_eq(u.as_slice(), lit_bytes("websocket")) {
                            return Err(
                                CodecError::BadHandshake(BadHandshakeReason::MissingUpgrade),
                            );
                        }
                    },
                }
                match lookup_header(&fields, lit_bytes("connection")) {
                    None => return Err(
                        CodecError::BadHandshake(BadHandshakeReason::MissingConnection),
                    ),
                    Some(c) => {
                        if !has_token(c.as_slice(), lit_bytes("upgrade")) {
                            return Err(
                                CodecError::BadHandshake(BadHandshakeReason::MissingConnection),
                            );
                        }
                    },
                }
                let key = match lookup_header(&fields, lit_bytes("sec-websocket-key")) {
                    None => return Err(CodecError::BadHandshake(BadHandshakeReason::MissingKey)),
                    Some(k) => {
                        if k.len() == 0 {
                            return Err(
                                CodecError::BadHandshake(BadHandshakeReason::MissingKey),
                            );
                        }
                        slice_to_vec(k.as_slice())
                    },
                };
                match lookup_header(&fields, lit_bytes("sec-websocket-version")) {
                    None => return Err(
                        CodecError::BadHandshake(BadHandshakeReason::BadWebSocketVersion),
                    ),
                    Some(ver) => {
                        if !eq_bytes(ver.as_slice(), lit_bytes("13")) {
                            return Err(
                                CodecError::BadHandshake(BadHandshakeReason::BadWebSocketVersion),
                            );
                        }
                    },
                }
                let origin = match lookup_header(&fields, lit_bytes("origin")) {
                    None => None,
                    Some(o) => Some(slice_to_vec(o.as_slice())),
                };
                let protocols = match lookup_header(&fields, lit_bytes("sec-websocket-protocol")) {
                    None => None,
                    Some(p) => Some(slice_to_vec(p.as_slice())),
                };
                let extensions = match lookup_header(
                    &fields,
                    lit_bytes("sec-websocket-extensions"),
                ) {
                    None => None,
                    Some(x) => Some(slice_to_vec(x.as_slice())),
                };
                self.key = Some(slice_to_vec(key.as_slice()));
                buf_advance(buf, t + 4);
                Ok(
                    Some(
                        HandshakeRequest { path: target, host, key, origin, protocols, extensions },
                    ),
                )
            },
        }
    }

    /// Stake the extension response the 101 will carry.
    pub fn set_ext_resp(&mut self, ext_resp: Vec<u8>)
        ensures
            *final(self) == (ServerHandshakeCodec { ext_resp, ..*old(self) }),
    {
        self.ext_resp = ext_resp;
    }

    /// Encode the 101 response onto the end of `buf`, with the accept
    /// digest of the stored key.  Refused when no request has been
    /// decoded yet.
    pub fn encode(&self, response: &HandshakeResponse, buf: &mut BytesMut) -> (r: Result<
        (),
        CodecError,
    >)
        ensures
            ({
                let s = bytes_view(*old(buf));
                let s2 = bytes_view(*final(buf));
                match self.key {
                    None => r == Err::<(), _>(CodecError::HandshakeOrdering) && s2 == s,
                    Some(k) => r == Ok::<_, CodecError>(()) && s2 == s + response_bytes(
                        k@,
                        self.ext_resp@,
                        match response.protocol {
                            Some(p) => Some(p@),
                            None => None,
                        },
                    ),
                }
            }),
    {
        let key = match &self.key {
            None => {
                return Err(CodecError::HandshakeOrdering);
            },
            Some(k) => k,
        };
        proof {
            reveal_strlit(
                "HTTP/1.1 101 Switching Protocols\r\nUpgrade: websocket\r\nConnection: Upgrade\r\nSec-WebSocket-Accept: ",
            );
            reveal_strlit("\r\n");
            reveal_strlit("Sec-WebSocket-Protocol: ");
            reveal_strlit("Sec-WebSocket-Extensions: ");
        }
        let mut out: Vec<u8> = Vec::new();
        put_ascii(
            &mut out,
            "HTTP/1.1 101 Switching Protocols\r\nUpgrade: websocket\r\nConnection: Upgrade\r\nSec-WebSocket-Accept: ",
        );
        let acc = accept_value(key.as_slice());
        out.extend_from_slice(acc.as_slice());
        put_ascii(&mut out, "\r\n");
        match &response.protocol {
            Some(p) => {
                put_ascii(&mut out, "Sec-WebSocket-Protocol: ");
                out.extend_from_slice(p.as_slice());
                put_ascii(&mut out, "\r\n");
            },
            None => (),
        }
        if self.ext_resp.len() > 0 {
            put_ascii(&mut out, "Sec-WebSocket-Extensions: ");
            out.extend_from_slice(self.ext_resp.as_slice());
            put_ascii(&mut out, "\r\n");
        }
        put_ascii(&mut out, "\r\n");
        assert(out@ =~= response_bytes(
            key@,
            self.ext_resp@,
            match response.protocol {
                Some(p) => Some(p@),
                None => None,
            },
        ));
        buf_extend(buf, out.as_slice());
        Ok(())
    }
}

/// Exec mirror of [`request_line_target`].
fn request_line_exec(line: &Vec<u8>) -> (r: Result<Vec<u8>, BadHandshakeReason>)
    ensures
        (match r {
            Ok(tg) => request_line_target(line@) == Ok::<_, BadHandshakeReason>(tg@),
            Err(e) => request_line_target(line@) == Err::<Seq<u8>, _>(e),
        }),
{
    proof {
        lemma_find_byte_bounds(line@, 32, 0);
    }
    let i = match find_byte(line.as_slice(), 32, 0) {
        None => {
            return Err(BadHandshakeReason::BadRequestLine);
        },
        Some(i) => i,
    };
    let n0 = line.len();
    assert(i < n0);
    proof {
        lemma_find_byte_bounds(line@, 32, (i + 1) as nat);
    }
    let j = match find_byte(line.as_slice(), 32, i + 1) {
        None => {
            return Err(BadHandshakeReason::BadRequestLine);
        },
        Some(j) => j,
    };
    let n = line.len();
    let method = slice_subrange(line.as_slice(), 0, i);
    assert(method@ =~= line@.take(i as int));
    let target = slice_subrange(line.as_slice(), i + 1, j);
    let version = slice_subrange(line.as_slice(), j + 1, n);
    assert(version@ =~= line@.skip(j as int + 1));
    proof {
        reveal_strlit("GET");
    }
    if !eq_bytes(method, lit_bytes("GET")) {
        return Err(BadHandshakeReason::BadMethod);
    }
    if target.len() == 0 {
        return Err(BadHandshakeReason::BadRequestLine);
    }
    if !check_version(version) {
        return Err(BadHandshakeReason::BadHttpVersion);
    }
    Ok(slice_to_vec(target))
}

} // verus!
