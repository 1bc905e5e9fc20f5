//! The session codec: the top-level translator between the byte stream
//! and [`WebSocket`] envelopes.
//!
//! [`Twist`] owns the handshake/post-handshake mode switch.  Before the
//! handshake it defers to the server or client handshake codec by role;
//! after it, to the frame codec, threading final Text and Binary frames
//! through the extension chain and validating Text payloads as UTF-8.
//! Every error latches the session: later calls return the same error.

use vstd::prelude::*;
use vstd::slice::slice_to_vec;
use vstd::utf8::valid_utf8;
use bytes::BytesMut;
use crate::base::{
    encode_post, frame_matches, rsv_superset, spec_parse, FrameCodec, Parse,
    DEFAULT_MAX_FRAME_PAYLOAD,
};
use crate::buffer::{buf_len, bytes_view};
use crate::client::{parse_response, response_matches, request_bytes, ClientHandshakeCodec, ResponseParse};
use crate::digest::{accept_of, base64_of};
use crate::envelope::{HandshakeRequest, HandshakeResponse, WebSocket};
use crate::error::CodecError;
use crate::extension::{ext_at, Extension};
use crate::frame::{Frame, OpCode};
use crate::http::put_ascii;
use crate::server::{parse_request, request_matches, response_bytes, RequestParse, ServerHandshakeCodec};
use crate::textcheck::utf8_complete;

verus! {

/// Where a session stands.
#[derive(Clone, Copy, Debug, PartialEq, Eq, Structural)]
pub enum SessionState {
    /// The opening handshake has not completed.
    Handshaking,
    /// Base frames flow.
    Open,
    /// An error latched the session; it must not be retried.
    Failed,
}

/// A final Text or Binary frame: what the extension chain sees.
pub open spec fn gated(fin: bool, opcode: OpCode) -> bool {
    fin && (opcode == OpCode::Text || opcode == OpCode::Binary)
}

/// Codec for a single WebSocket connection.
///
/// Decodes and encodes both handshake messages and base frames, by role
/// and by whether the handshake is complete.
pub struct Twist<E: Extension> {
    /// Stable identifier of the connection this codec serves.
    pub uuid: u128,
    /// Client or server role, fixed at construction.
    pub client: bool,
    /// Whether the handshake is complete.  A client sets it on decoding a
    /// valid 101; a server on encoding its response.
    pub shaken: bool,
    /// The latched error, once any operation failed.
    pub failure: Option<CodecError>,
    /// Low three bits: the RSV bits enabled extensions reserved.
    pub reserved_bits: u8,
    /// Frames with a longer payload are refused.
    pub max_frame_payload: u64,
    /// Accept unmasked frames on the server; a test-only escape hatch.
    pub allow_unmasked_client_frames: bool,
    /// Refuse RSV bits no extension reserved.
    pub strict_rsv: bool,
    /// The per-message extension chain, in registration order.
    pub permessage_extensions: Vec<E>,
    /// The per-frame extension slot; reserved, not yet consulted.
    pub perframe_extensions: Vec<E>,
    /// The server side of the handshake, with the stored client key.
    pub server_handshake_codec: ServerHandshakeCodec,
    /// The client side of the handshake, with the issued key.
    pub client_handshake_codec: ClientHandshakeCodec,
}

impl<E: Extension> Twist<E> {
    /// The frame codec settings this session decodes and encodes with.
    pub open spec fn frame_cfg(self) -> FrameCodec {
        FrameCodec {
            client: self.client,
            reserved_bits: self.reserved_bits,
            max_frame_payload: self.max_frame_payload,
            allow_unmasked: self.allow_unmasked_client_frames,
            strict_rsv: self.strict_rsv,
        }
    }

    /// No extension in the chain is enabled.
    pub open spec fn chain_inert(self) -> bool {
        forall|i: int|
            0 <= i < self.permessage_extensions@.len()
                ==> !self.permessage_extensions@[i].enabled_spec()
    }

    /// Create a codec for one connection with its extension chains.
    pub fn new(
        uuid: u128,
        client: bool,
        permessage_extensions: Vec<E>,
        perframe_extensions: Vec<E>,
    ) -> (r: Twist<E>)
        ensures
            r.uuid == uuid,
            r.client == client,
            !r.shaken,
            r.failure is None,
            r.reserved_bits == 0,
            r.max_frame_payload == DEFAULT_MAX_FRAME_PAYLOAD,
            !r.allow_unmasked_client_frames,
            r.strict_rsv,
            r.permessage_extensions == permessage_extensions,
            r.perframe_extensions == perframe_extensions,
            r.server_handshake_codec.key is None,
            r.client_handshake_codec.key is None,
    {
        Twist {
            uuid,
            client,
            shaken: false,
            failure: None,
            reserved_bits: 0,
            max_frame_payload: DEFAULT_MAX_FRAME_PAYLOAD,
            allow_unmasked_client_frames: false,
            strict_rsv: true,
            permessage_extensions,
            perframe_extensions,
            server_handshake_codec: Default::default(),
            client_handshake_codec: Default::default(),
        }
    }

    /// Where the session stands.
    pub fn state(&self) -> (r: SessionState)
        ensures
            r == (if self.failure is Some {
                SessionState::Failed
            } else if self.shaken {
                SessionState::Open
            } else {
                SessionState::Handshaking
            }),
    {
        if self.failure.is_some() {
            SessionState::Failed
        } else if self.shaken {
            SessionState::Open
        } else {
            SessionState::Handshaking
        }
    }

    /// Mark the handshake complete or not; tests drive a session straight
    /// to its open state with this.
    pub fn set_shaken(&mut self, shaken: bool)
        ensures
            *final(self) == (Twist { shaken, ..*old(self) }),
    {
        self.shaken = shaken;
    }
}

impl<E: Extension> Default for Twist<E> {
    /// A server-role codec with empty extension chains.
    fn default() -> (r: Twist<E>)
        ensures
            r.uuid == 0,
            !r.client,
            !r.shaken,
            r.failure is None,
            r.reserved_bits == 0,
            r.max_frame_payload == DEFAULT_MAX_FRAME_PAYLOAD,
            !r.allow_unmasked_client_frames,
            r.strict_rsv,
            r.permessage_extensions@.len() == 0,
            r.perframe_extensions@.len() == 0,
            r.server_handshake_codec.key is None,
            r.client_handshake_codec.key is None,
    {
        Twist::new(0, false, Vec::new(), Vec::new())
    }
}

/// What decoding in the open state guarantees, over the frame parser.
/// When the chain is inert (or the frame bypasses it), the emitted frame
/// is exactly the parsed one and the UTF-8 gate is exact; under enabled
/// extensions the opcode and fin flag still carry over, and an emitted
/// final Text payload is always valid UTF-8.
pub open spec fn decode_open_post<E: Extension>(
    pre: Twist<E>,
    post: Twist<E>,
    s: Seq<u8>,
    s2: Seq<u8>,
    r: Result<Option<WebSocket>, CodecError>,
) -> bool {
    match spec_parse(pre.frame_cfg(), s) {
        Parse::Incomplete => r == Ok::<Option<WebSocket>, CodecError>(None) && s2 == s && post
            == pre,
        Parse::Reject(e) => r == Err::<Option<WebSocket>, CodecError>(e) && s2 == s && post.failure
            == Some(e),
        Parse::Complete(m, used) => {
            &&& s2 == s.skip(used as int)
            &&& (match r {
                Ok(Some(ws)) => {
                    &&& ws is Base
                    &&& ws->frame.fin == m.fin
                    &&& ws->frame.opcode == m.opcode
                    &&& (ws->frame.opcode == OpCode::Text && ws->frame.fin
                        && ws->frame.application_data@.len() > 0 ==> valid_utf8(
                        ws->frame.application_data@,
                    ))
                    &&& post.failure is None
                    &&& post.shaken
                },
                Ok(None) => false,
                Err(e) => post.failure == Some(e) && (e == CodecError::InvalidUtf8
                    || e is ExtensionError),
            })
            &&& ((!gated(m.fin, m.opcode) || pre.chain_inert()) ==> (if m.opcode == OpCode::Text
                && m.fin && m.app.len() > 0 && !valid_utf8(m.app) {
                r == Err::<Option<WebSocket>, CodecError>(CodecError::InvalidUtf8)
            } else {
                match r {
                    Ok(Some(ws)) => ws is Base && frame_matches(ws->frame, m),
                    _ => false,
                }
            }))
        },
    }
}

/// What decoding as a server before the handshake guarantees, over the
/// request parser: a valid request is emitted and its key stored; the
/// session does not open yet.
pub open spec fn decode_server_post<E: Extension>(
    pre: Twist<E>,
    post: Twist<E>,
    s: Seq<u8>,
    s2: Seq<u8>,
    r: Result<Option<WebSocket>, CodecError>,
) -> bool {
    match parse_request(s, pre.server_handshake_codec.max_header_bytes as nat) {
        RequestParse::Incomplete => r == Ok::<Option<WebSocket>, CodecError>(None) && s2 == s
            && post == pre,
        RequestParse::TooLarge => r == Err::<Option<WebSocket>, CodecError>(
            CodecError::HandshakeTooLarge,
        ) && s2 == s && post.failure == Some(CodecError::HandshakeTooLarge),
        RequestParse::Reject(e) => r == Err::<Option<WebSocket>, CodecError>(e) && s2 == s
            && post.failure == Some(e),
        RequestParse::Done(m, used) => {
            &&& s2 == s.skip(used as int)
            &&& (match r {
                Ok(Some(ws)) => ws is Request && request_matches(ws->request, m),
                _ => false,
            })
            &&& !post.shaken
            &&& post.failure is None
            &&& (match post.server_handshake_codec.key {
                Some(k) => k@ == m.key,
                None => false,
            })
            &&& post.reserved_bits == pre.reserved_bits
        },
    }
}

/// What decoding as a client before the handshake guarantees, over the
/// response parser: a 101 must carry the accept digest of the issued key;
/// on success negotiation runs and the session opens; any other status is
/// surfaced verbatim and the session stays handshaking.
pub open spec fn decode_client_post<E: Extension>(
    pre: Twist<E>,
    post: Twist<E>,
    s: Seq<u8>,
    s2: Seq<u8>,
    r: Result<Option<WebSocket>, CodecError>,
) -> bool {
    match parse_response(s, pre.client_handshake_codec.max_header_bytes as nat) {
        ResponseParse::Incomplete => r == Ok::<Option<WebSocket>, CodecError>(None) && s2 == s
            && post == pre,
        ResponseParse::TooLarge => r == Err::<Option<WebSocket>, CodecError>(
            CodecError::HandshakeTooLarge,
        ) && s2 == s && post.failure == Some(CodecError::HandshakeTooLarge),
        ResponseParse::Reject(e) => r == Err::<Option<WebSocket>, CodecError>(e) && s2 == s
            && post.failure == Some(e),
        ResponseParse::Done(m, used) => if m.status == 101 {
            match pre.client_handshake_codec.key {
                None => r == Err::<Option<WebSocket>, CodecError>(CodecError::HandshakeOrdering)
                    && s2 == s && post.failure == Some(CodecError::HandshakeOrdering),
                Some(k) => if m.accept == Some(accept_of(k@)) {
                    &&& s2 == s.skip(used as int)
                    &&& (match r {
                        Ok(Some(ws)) => {
                            &&& ws is Response
                            &&& response_matches(ws->response, m)
                            &&& post.shaken
                            &&& post.failure is None
                            &&& rsv_superset(post.reserved_bits, pre.reserved_bits)
                        },
                        Ok(None) => false,
                        Err(e) => e is ExtensionError && post.failure == Some(e),
                    })
                    &&& (pre.permessage_extensions@.len() == 0 ==> (match r {
                        Ok(Some(ws)) => ws is Response && post.reserved_bits == pre.reserved_bits,
                        _ => false,
                    }))
                } else {
                    r == Err::<Option<WebSocket>, CodecError>(CodecError::HandshakeRejected) && s2
                        == s && post.failure == Some(CodecError::HandshakeRejected)
                },
            }
        } else {
            &&& s2 == s.skip(used as int)
            &&& (match r {
                Ok(Some(ws)) => ws is Response && response_matches(ws->response, m) && !post.shaken
                    && post.failure is None,
                _ => false,
            })
        },
    }
}

/// What encoding a base frame in the open state guarantees: when the
/// chain is inert (or the frame bypasses it) the appended bytes are
/// exactly the frame codec's wire form of the given frame; any error is
/// latched.
pub open spec fn encode_open_post<E: Extension>(
    pre: Twist<E>,
    post: Twist<E>,
    f: Frame,
    s: Seq<u8>,
    s2: Seq<u8>,
    r: Result<(), CodecError>,
) -> bool {
    &&& (match r {
        Ok(()) => post.failure is None && post.shaken,
        Err(e) => post.failure == Some(e),
    })
    &&& ((!gated(f.fin, f.opcode) || pre.chain_inert()) ==> encode_post(
        pre.frame_cfg(),
        f,
        s,
        s2,
        r,
    ))
}

/// What encoding the server's handshake response guarantees: negotiation
/// folds the chain's reserved bits into the mask, the staked extension
/// response is written, the accept digest comes from the stored key, and
/// the session opens.  Without a stored key the envelope is out of order.
pub open spec fn encode_server_hs_post<E: Extension>(
    pre: Twist<E>,
    post: Twist<E>,
    resp: HandshakeResponse,
    s: Seq<u8>,
    s2: Seq<u8>,
    r: Result<(), CodecError>,
) -> bool {
    match pre.server_handshake_codec.key {
        None => r == Err::<(), CodecError>(CodecError::HandshakeOrdering) && s2 == s
            && post.failure == Some(CodecError::HandshakeOrdering),
        Some(k) => {
            &&& (match r {
                Ok(()) => {
                    &&& post.shaken
                    &&& post.failure is None
                    &&& rsv_superset(post.reserved_bits, pre.reserved_bits)
                    &&& s2 == s + response_bytes(
                        k@,
                        post.server_handshake_codec.ext_resp@,
                        (match resp.protocol {
                            Some(p) => Some(p@),
                            None => None,
                        }),
                    )
                },
                Err(e) => e is ExtensionError && post.failure == Some(e) && s2 == s,
            })
            &&& (pre.permessage_extensions@.len() == 0 ==> r == Ok::<(), CodecError>(())
                && post.server_handshake_codec.ext_resp@ == Seq::<u8>::empty()
                && post.reserved_bits == pre.reserved_bits)
        },
    }
}

/// What encoding the client's handshake request guarantees: the request
/// carries a fresh key (the base64 form of 16 random bytes), that key is
/// remembered for the response's accept check, the enabled extensions'
/// joined offer is written, and the session stays handshaking.
pub open spec fn encode_client_hs_post<E: Extension>(
    pre: Twist<E>,
    post: Twist<E>,
    req: HandshakeRequest,
    s: Seq<u8>,
    s2: Seq<u8>,
    r: Result<(), CodecError>,
) -> bool {
    match r {
        Ok(()) => {
            &&& !post.shaken
            &&& post.failure is None
            &&& (exists|kb: Seq<u8>|
                {
                    &&& kb.len() == 16
                    &&& (match post.client_handshake_codec.key {
                        Some(kv) => kv@ == base64_of(kb),
                        None => false,
                    })
                    &&& s2 == s + request_bytes(
                        req.path@,
                        req.host@,
                        base64_of(kb),
                        (match req.origin {
                            Some(o) => Some(o@),
                            None => None,
                        }),
                        (match req.protocols {
                            Some(p) => Some(p@),
                            None => None,
                        }),
                        post.client_handshake_codec.ext_offer@,
                    )
                })
            &&& (pre.permessage_extensions@.len() == 0
                ==> post.client_handshake_codec.ext_offer@ == Seq::<u8>::empty())
        },
        Err(e) => e == CodecError::ResourceExhausted && s2 == s && post.failure == Some(e),
    }
}

impl<E: Extension> Twist<E> {
    /// Run the extension chain's decode pass on a final Text or Binary
    /// frame; other frames bypass the chain untouched.
    fn ext_chain_decode(&mut self, frame: &mut Frame) -> (r: Result<(), u64>)
        ensures
            (match r {
                Ok(()) => final(frame).opcode == old(frame).opcode
                    && final(frame).fin == old(frame).fin,
                Err(_) => true,
            }),
            (!gated(old(frame).fin, old(frame).opcode) || old(self).chain_inert())
                ==> (*final(frame) == *old(frame) && r == Ok::<(), u64>(())),
            final(self).uuid == old(self).uuid,
            final(self).client == old(self).client,
            final(self).shaken == old(self).shaken,
            final(self).failure == old(self).failure,
            final(self).reserved_bits == old(self).reserved_bits,
            final(self).max_frame_payload == old(self).max_frame_payload,
            final(self).allow_unmasked_client_frames == old(self).allow_unmasked_client_frames,
            final(self).strict_rsv == old(self).strict_rsv,
            final(self).server_handshake_codec == old(self).server_handshake_codec,
            final(self).client_handshake_codec == old(self).client_handshake_codec,
            final(self).perframe_extensions == old(self).perframe_extensions,
    {
        let run = frame.fin() && (frame.opcode() == OpCode::Text || frame.opcode()
            == OpCode::Binary);
        if !run {
            return Ok(());
        }
        let n = self.permessage_extensions.len();
        let mut i: usize = 0;
        while i < n
            invariant
                i <= n,
                n == self.permessage_extensions@.len(),
                n == old(self).permessage_extensions@.len(),
                gated(old(frame).fin, old(frame).opcode),
                frame.opcode == old(frame).opcode,
                frame.fin == old(frame).fin,
                old(self).chain_inert() ==> (self.permessage_extensions@
                    == old(self).permessage_extensions@ && *frame == *old(frame)),
                forall|j: int|
                    0 <= j < n ==> self.permessage_extensions@[j].enabled_spec()
                        == old(self).permessage_extensions@[j].enabled_spec()
                        || !old(self).chain_inert(),
                self.uuid == old(self).uuid,
                self.client == old(self).client,
                self.shaken == old(self).shaken,
                self.failure == old(self).failure,
                self.reserved_bits == old(self).reserved_bits,
                self.max_frame_payload == old(self).max_frame_payload,
                self.allow_unmasked_client_frames == old(self).allow_unmasked_client_frames,
                self.strict_rsv == old(self).strict_rsv,
                self.server_handshake_codec == old(self).server_handshake_codec,
                self.client_handshake_codec == old(self).client_handshake_codec,
                self.perframe_extensions == old(self).perframe_extensions,
            decreases n - i,
        {
            let ghost chain_before = self.permessage_extensions@;
            let ext = ext_at(&mut self.permessage_extensions, i);
            let en = ext.enabled();
            proof {
                if old(self).chain_inert() {
                    assert(*ext == chain_before[i as int]);
                    assert(chain_before[i as int] == old(self).permessage_extensions@[i as int]);
                    assert(!old(self).permessage_extensions@[i as int].enabled_spec());
                    assert(!en);
                }
            }
            if en {
                match ext.decode(frame) {
                    Err(c) => {
                        return Err(c);
                    },
                    Ok(()) => (),
                }
            }
            proof {
                if old(self).chain_inert() {
                    assert(self.permessage_extensions@ =~= chain_before);
                }
            }
            i = i + 1;
        }
        Ok(())
    }

    /// Decode bytes from the front of `buf` into at most one envelope.
    ///
    /// An empty buffer and a short one are pending (`Ok(None)`), and
    /// nothing is consumed; a complete value consumes exactly its bytes;
    /// any error latches the session.
    pub fn decode(&mut self, buf: &mut BytesMut) -> (r: Result<Option<WebSocket>, CodecError>)
        ensures
            final(self).uuid == old(self).uuid,
            final(self).client == old(self).client,
            ({
                let s = bytes_view(*old(buf));
                let s2 = bytes_view(*final(buf));
                match old(self).failure {
                    Some(e) => r == Err::<Option<WebSocket>, CodecError>(e) && s2 == s
                        && *final(self) == *old(self),
                    None => {
                        if s.len() == 0 {
                            r == Ok::<Option<WebSocket>, CodecError>(None) && s2 == s
                                && *final(self) == *old(self)
                        } else if old(self).shaken {
                            decode_open_post(*old(self), *final(self), s, s2, r)
                        } else if old(self).client {
                            decode_client_post(*old(self), *final(self), s, s2, r)
                        } else {
                            decode_server_post(*old(self), *final(self), s, s2, r)
                        }
                    },
                }
            }),
    {
        match &self.failure {
            Some(e) => {
                return Err(*e);
            },
            None => (),
        }
        let n = buf_len(buf);
        if n == 0 {
            return Ok(None);
        }
        if self.shaken {
            let fc = FrameCodec {
                client: self.client,
                reserved_bits: self.reserved_bits,
                max_frame_payload: self.max_frame_payload,
                allow_unmasked: self.allow_unmasked_client_frames,
                strict_rsv: self.strict_rsv,
            };
            let mut frame = match fc.decode(buf) {
                Ok(None) => {
                    return Ok(None);
                },
                Err(e) => {
                    self.failure = Some(e);
                    return Err(e);
                },
                Ok(Some(f)) => f,
            };
            match self.ext_chain_decode(&mut frame) {
                Err(code) => {
                    let e = CodecError::ExtensionError(code);
                    self.failure = Some(e);
                    return Err(e);
                },
                Ok(()) => (),
            }
            if frame.fin() && frame.opcode() == OpCode::Text && frame.application_data.len() > 0 {
                if !utf8_complete(frame.application_data.as_slice()) {
                    self.failure = Some(CodecError::InvalidUtf8);
                    return Err(CodecError::InvalidUtf8);
                }
            }
            Ok(Some(WebSocket::Base { frame }))
        } else if self.client {
            let resp = match self.client_handshake_codec.decode(buf) {
                Ok(None) => {
                    return Ok(None);
                },
                Err(e) => {
                    self.failure = Some(e);
                    return Err(e);
                },
                Ok(Some(p)) => p,
            };
            if resp.status == 101 {
                let offered: Vec<u8> = match &resp.extensions {
                    Some(x) => slice_to_vec(x.as_slice()),
                    None => Vec::new(),
                };
                match self.negotiate_client(&offered) {
                    Err(code) => {
                        let e = CodecError::ExtensionError(code);
                        self.failure = Some(e);
                        return Err(e);
                    },
                    Ok(()) => (),
                }
                self.shaken = true;
            }
            Ok(Some(WebSocket::Response { response: resp }))
        } else {
            let req = match self.server_handshake_codec.decode(buf) {
                Ok(None) => {
                    return Ok(None);
                },
                Err(e) => {
                    self.failure = Some(e);
                    return Err(e);
                },
                Ok(Some(q)) => q,
            };
            Ok(Some(WebSocket::Request { request: req }))
        }
    }

    /// Reconfigure each extension from the server's answer and fold the
    /// still-enabled ones' reserved bits into the session's mask.
    fn negotiate_client(&mut self, offered: &Vec<u8>) -> (r: Result<(), u64>)
        ensures
            rsv_superset(final(self).reserved_bits, old(self).reserved_bits),
            old(self).permessage_extensions@.len() == 0 ==> (r == Ok::<(), u64>(())
                && final(self).reserved_bits == old(self).reserved_bits),
            final(self).uuid == old(self).uuid,
            final(self).client == old(self).client,
            final(self).shaken == old(self).shaken,
            final(self).failure == old(self).failure,
            final(self).max_frame_payload == old(self).max_frame_payload,
            final(self).allow_unmasked_client_frames == old(self).allow_unmasked_client_frames,
            final(self).strict_rsv == old(self).strict_rsv,
            final(self).server_handshake_codec == old(self).server_handshake_codec,
            final(self).client_handshake_codec == old(self).client_handshake_codec,
            final(self).perframe_extensions == old(self).perframe_extensions,
    {
        let n = self.permessage_extensions.len();
        let mut rb = self.reserved_bits;
        let mut i: usize = 0;
        while i < n
            invariant
                i <= n,
                n == self.permessage_extensions@.len(),
                n == old(self).permessage_extensions@.len(),
                rsv_superset(rb, old(self).reserved_bits),
                n == 0 ==> rb == old(self).reserved_bits,
                self.uuid == old(self).uuid,
                self.client == old(self).client,
                self.shaken == old(self).shaken,
                self.failure == old(self).failure,
                self.reserved_bits == old(self).reserved_bits,
                self.max_frame_payload == old(self).max_frame_payload,
                self.allow_unmasked_client_frames == old(self).allow_unmasked_client_frames,
                self.strict_rsv == old(self).strict_rsv,
                self.server_handshake_codec == old(self).server_handshake_codec,
                self.client_handshake_codec == old(self).client_handshake_codec,
                self.perframe_extensions == old(self).perframe_extensions,
            decreases n - i,
        {
            let ext = ext_at(&mut self.permessage_extensions, i);
            match ext.from_header(offered.as_slice()) {
                Err(c) => {
                    return Err(c);
                },
                Ok(()) => (),
            }
            if ext.enabled() {
                match ext.reserve_rsv(rb) {
                    Err(c) => {
                        return Err(c);
                    },
                    Ok(m) => {
                        rb = m;
                    },
                }
            }
            i = i + 1;
        }
        self.reserved_bits = rb;
        Ok(())
    }

    /// Run the extension chain's encode pass on a final Text or Binary
    /// frame; other frames bypass the chain untouched.
    fn ext_chain_encode(&mut self, frame: &mut Frame) -> (r: Result<(), u64>)
        ensures
            (!gated(old(frame).fin, old(frame).opcode) || old(self).chain_inert())
                ==> (*final(frame) == *old(frame) && r == Ok::<(), u64>(())),
            final(self).uuid == old(self).uuid,
            final(self).client == old(self).client,
            final(self).shaken == old(self).shaken,
            final(self).failure == old(self).failure,
            final(self).reserved_bits == old(self).reserved_bits,
            final(self).max_frame_payload == old(self).max_frame_payload,
            final(self).allow_unmasked_client_frames == old(self).allow_unmasked_client_frames,
            final(self).strict_rsv == old(self).strict_rsv,
            final(self).server_handshake_codec == old(self).server_handshake_codec,
            final(self).client_handshake_codec == old(self).client_handshake_codec,
            final(self).perframe_extensions == old(self).perframe_extensions,
    {
        let run = frame.fin() && (frame.opcode() == OpCode::Text || frame.opcode()
            == OpCode::Binary);
        if !run {
            return Ok(());
        }
        let n = self.permessage_extensions.len();
        let mut i: usize = 0;
        while i < n
            invariant
                i <= n,
                n == self.permessage_extensions@.len(),
                n == old(self).permessage_extensions@.len(),
                gated(old(frame).fin, old(frame).opcode),
                old(self).chain_inert() ==> (self.permessage_extensions@
                    == old(self).permessage_extensions@ && *frame == *old(frame)),
                self.uuid == old(self).uuid,
                self.client == old(self).client,
                self.shaken == old(self).shaken,
                self.failure == old(self).failure,
                self.reserved_bits == old(self).reserved_bits,
                self.max_frame_payload == old(self).max_frame_payload,
                self.allow_unmasked_client_frames == old(self).allow_unmasked_client_frames,
                self.strict_rsv == old(self).strict_rsv,
                self.server_handshake_codec == old(self).server_handshake_codec,
                self.client_handshake_codec == old(self).client_handshake_codec,
                self.perframe_extensions == old(self).perframe_extensions,
            decreases n - i,
        {
            let ghost chain_before = self.permessage_extensions@;
            let ext = ext_at(&mut self.permessage_extensions, i);
            let en = ext.enabled();
            proof {
                if old(self).chain_inert() {
                    assert(*ext == chain_before[i as int]);
                    assert(chain_before[i as int] == old(self).permessage_extensions@[i as int]);
                    assert(!old(self).permessage_extensions@[i as int].enabled_spec());
                    assert(!en);
                }
            }
            if en {
                match ext.encode(frame) {
                    Err(c) => {
                        return Err(c);
                    },
                    Ok(()) => (),
                }
            }
            proof {
                if old(self).chain_inert() {
                    assert(self.permessage_extensions@ =~= chain_before);
                }
            }
            i = i + 1;
        }
        Ok(())
    }

    /// Encode a base frame: the encode pass of the chain, then the frame
    /// codec under this session's settings.
    fn encode_base(&mut self, frame: Frame, buf: &mut BytesMut) -> (r: Result<(), CodecError>)
        requires
            old(self).failure is None,
            old(self).shaken,
        ensures
            final(self).uuid == old(self).uuid,
            final(self).client == old(self).client,
            encode_open_post(
                *old(self),
                *final(self),
                frame,
                bytes_view(*old(buf)),
                bytes_view(*final(buf)),
                r,
            ),
    {
        let mut f = frame;
        match self.ext_chain_encode(&mut f) {
            Err(code) => {
                let e = CodecError::ExtensionError(code);
                self.failure = Some(e);
                return Err(e);
            },
            Ok(()) => (),
        }
        let fc = FrameCodec {
            client: self.client,
            reserved_bits: self.reserved_bits,
            max_frame_payload: self.max_frame_payload,
            allow_unmasked: self.allow_unmasked_client_frames,
            strict_rsv: self.strict_rsv,
        };
        match fc.encode(&f, buf) {
            Ok(()) => Ok(()),
            Err(e) => {
                self.failure = Some(e);
                Err(e)
            },
        }
    }

    /// Encode the server's handshake response: negotiate the extensions
    /// against the offer the response carries, stake the joined extension
    /// answer, write the 101, and open the session.
    fn encode_server_handshake(&mut self, response: &HandshakeResponse, buf: &mut BytesMut) -> (r:
        Result<(), CodecError>)
        requires
            old(self).failure is None,
        ensures
            final(self).uuid == old(self).uuid,
            final(self).client == old(self).client,
            encode_server_hs_post(
                *old(self),
                *final(self),
                *response,
                bytes_view(*old(buf)),
                bytes_view(*final(buf)),
                r,
            ),
    {
        match &self.server_handshake_codec.key {
            None => {
                let e = CodecError::HandshakeOrdering;
                self.failure = Some(e);
                return Err(e);
            },
            Some(_) => (),
        }
        let offered: Vec<u8> = match &response.extensions {
            Some(x) => slice_to_vec(x.as_slice()),
            None => Vec::new(),
        };
        let n = self.permessage_extensions.len();
        let mut rb = self.reserved_bits;
        let mut resp_hdr: Vec<u8> = Vec::new();
        proof {
            reveal_strlit(", ");
        }
        let mut i: usize = 0;
        while i < n
            invariant
                i <= n,
                n == self.permessage_extensions@.len(),
                n == old(self).permessage_extensions@.len(),
                old(self).server_handshake_codec.key is Some,
                rsv_superset(rb, old(self).reserved_bits),
                n == 0 ==> rb == old(self).reserved_bits && resp_hdr@ == Seq::<u8>::empty(),
                self.uuid == old(self).uuid,
                self.client == old(self).client,
                self.shaken == old(self).shaken,
                self.failure == old(self).failure,
                self.reserved_bits == old(self).reserved_bits,
                self.max_frame_payload == old(self).max_frame_payload,
                self.allow_unmasked_client_frames == old(self).allow_unmasked_client_frames,
                self.strict_rsv == old(self).strict_rsv,
                self.server_handshake_codec == old(self).server_handshake_codec,
                self.client_handshake_codec == old(self).client_handshake_codec,
                self.perframe_extensions == old(self).perframe_extensions,
            decreases n - i,
        {
            let ext = ext_at(&mut self.permessage_extensions, i);
            match ext.from_header(offered.as_slice()) {
                Err(c) => {
                    let e = CodecError::ExtensionError(c);
                    self.failure = Some(e);
                    return Err(e);
                },
                Ok(()) => (),
            }
            if ext.enabled() {
                match ext.reserve_rsv(rb) {
                    Ok(m) => {
                        rb = m;
                        match ext.into_header() {
                            Ok(Some(h)) => {
                                if resp_hdr.len() > 0 {
                                    proof {
                                        reveal_strlit(", ");
                                    }
                                    put_ascii(&mut resp_hdr, ", ");
                                }
                                resp_hdr.extend_from_slice(h.as_slice());
                            },
                            Ok(None) => (),
                            Err(_) => (),
                        }
                    },
                    Err(_) => {
                        ext.disable();
                    },
                }
            }
            i = i + 1;
        }
        self.reserved_bits = rb;
        self.server_handshake_codec.set_ext_resp(resp_hdr);
        match self.server_handshake_codec.encode(response, buf) {
            Ok(()) => {
                self.shaken = true;
                Ok(())
            },
            Err(e) => {
                self.failure = Some(e);
                Err(e)
            },
        }
    }

    /// Encode the client's handshake request: collect the enabled
    /// extensions' offers, stake them, and write the request with a fresh
    /// key.  The session stays handshaking until the response arrives.
    fn encode_client_handshake(&mut self, request: &HandshakeRequest, buf: &mut BytesMut) -> (r:
        Result<(), CodecError>)
        requires
            old(self).failure is None,
            !old(self).shaken,
        ensures
            final(self).uuid == old(self).uuid,
            final(self).client == old(self).client,
            encode_client_hs_post(
                *old(self),
                *final(self),
                *request,
                bytes_view(*old(buf)),
                bytes_view(*final(buf)),
                r,
            ),
    {
        let ghost s0 = bytes_view(*old(buf));
        let n = self.permessage_extensions.len();
        let mut offer: Vec<u8> = Vec::new();
        proof {
            reveal_strlit(", ");
        }
        let mut i: usize = 0;
        while i < n
            invariant
                i <= n,
                n == self.permessage_extensions@.len(),
                n == old(self).permessage_extensions@.len(),
                n == 0 ==> offer@ == Seq::<u8>::empty(),
                self.uuid == old(self).uuid,
                self.client == old(self).client,
                self.shaken == old(self).shaken,
                self.failure == old(self).failure,
                self.reserved_bits == old(self).reserved_bits,
                self.max_frame_payload == old(self).max_frame_payload,
                self.allow_unmasked_client_frames == old(self).allow_unmasked_client_frames,
                self.strict_rsv == old(self).strict_rsv,
                self.server_handshake_codec == old(self).server_handshake_codec,
                self.client_handshake_codec == old(self).client_handshake_codec,
                self.perframe_extensions == old(self).perframe_extensions,
            decreases n - i,
        {
            let ext = ext_at(&mut self.permessage_extensions, i);
            if ext.enabled() {
                match ext.into_header() {
                    Ok(Some(h)) => {
                        if offer.len() > 0 {
                            proof {
                                reveal_strlit(", ");
                            }
                            put_ascii(&mut offer, ", ");
                        }
                        offer.extend_from_slice(h.as_slice());
                    },
                    Ok(None) => (),
                    Err(_) => (),
                }
            }
            i = i + 1;
        }
        self.client_handshake_codec.set_ext_offer(offer);
        let ghost cpre = self.client_handshake_codec;
        match self.client_handshake_codec.encode(request, buf) {
            Ok(()) => {
                proof {
                    let kb = choose|kb: Seq<u8>|
                        crate::client::encoded_request(
                            cpre,
                            self.client_handshake_codec,
                            *request,
                            s0,
                            bytes_view(*buf),
                            kb,
                        );
                }
                Ok(())
            },
            Err(e) => {
                self.failure = Some(e);
                Err(e)
            },
        }
    }

    /// Encode one envelope onto the end of `buf`.
    ///
    /// A base frame is accepted only once the session is open; the
    /// server's response and the client's request only while it is
    /// handshaking, each by its role.  A mismatched envelope is an
    /// ordering error, and every error latches the session.
    pub fn encode(&mut self, msg: WebSocket, buf: &mut BytesMut) -> (r: Result<(), CodecError>)
        ensures
            final(self).uuid == old(self).uuid,
            final(self).client == old(self).client,
            ({
                let s = bytes_view(*old(buf));
                let s2 = bytes_view(*final(buf));
                match old(self).failure {
                    Some(e) => r == Err::<(), CodecError>(e) && s2 == s
                        && *final(self) == *old(self),
                    None => match msg {
                        WebSocket::Base { frame } => if old(self).shaken {
                            encode_open_post(*old(self), *final(self), frame, s, s2, r)
                        } else {
                            r == Err::<(), CodecError>(CodecError::HandshakeOrdering) && s2 == s
                                && final(self).failure == Some(CodecError::HandshakeOrdering)
                        },
                        WebSocket::Response { response } => if !old(self).client && !old(
                            self,
                        ).shaken {
                            encode_server_hs_post(*old(self), *final(self), response, s, s2, r)
                        } else {
                            r == Err::<(), CodecError>(CodecError::HandshakeOrdering) && s2 == s
                                && final(self).failure == Some(CodecError::HandshakeOrdering)
                        },
                        WebSocket::Request { request } => if old(self).client && !old(
                            self,
                        ).shaken {
                            encode_client_hs_post(*old(self), *final(self), request, s, s2, r)
                        } else {
                            r == Err::<(), CodecError>(CodecError::HandshakeOrdering) && s2 == s
                                && final(self).failure == Some(CodecError::HandshakeOrdering)
                        },
                    },
                }
            }),
    {
        match &self.failure {
            Some(e) => {
                return Err(*e);
            },
            None => (),
        }
        match msg {
            WebSocket::Base { frame } => {
                if !self.shaken {
                    let e = CodecError::HandshakeOrdering;
                    self.failure = Some(e);
                    return Err(e);
                }
                self.encode_base(frame, buf)
            },
            WebSocket::Response { response } => {
                if self.client || self.shaken {
                    let e = CodecError::HandshakeOrdering;
                    self.failure = Some(e);
                    return Err(e);
                }
                self.encode_server_handshake(&response, buf)
            },
            WebSocket::Request { request } => {
                if !self.client || self.shaken {
                    let e = CodecError::HandshakeOrdering;
                    self.failure = Some(e);
                    return Err(e);
                }
                self.encode_client_handshake(&request, buf)
            },
        }
    }
}

} // verus!
