//! The envelope the session codec exchanges with its caller: exactly one
//! of a base frame, a handshake request, or a handshake response.

use vstd::prelude::*;
use crate::frame::Frame;

verus! {

/// An opening handshake request (client to server): the request target
/// and the handshake headers the codec reads or writes.
#[derive(Clone, Debug, PartialEq)]
pub struct HandshakeRequest {
    /// The request target, e.g. `/chat`.
    pub path: Vec<u8>,
    /// The Host header value.
    pub host: Vec<u8>,
    /// The Sec-WebSocket-Key value, as sent (base64 text).
    pub key: Vec<u8>,
    /// The Origin header value, when present.
    pub origin: Option<Vec<u8>>,
    /// The Sec-WebSocket-Protocol offer, when present.
    pub protocols: Option<Vec<u8>>,
    /// The Sec-WebSocket-Extensions offer, when present.
    pub extensions: Option<Vec<u8>>,
}

/// An opening handshake response (server to client).
///
/// Encoding a response always writes status 101 with the accept digest of
/// the stored key; `extensions` carries the peer's offer into negotiation.
/// Decoding fills `status` verbatim and the headers the server returned.
#[derive(Clone, Debug, PartialEq)]
pub struct HandshakeResponse {
    /// The status code; 101 on success, surfaced verbatim otherwise.
    pub status: u16,
    /// The Sec-WebSocket-Accept value a decoded response carried.
    pub accept: Option<Vec<u8>>,
    /// The agreed Sec-WebSocket-Protocol, when present.
    pub protocol: Option<Vec<u8>>,
    /// On encode: the peer's extension offer, handed to negotiation.
    /// On decode: the extension list the server accepted.
    pub extensions: Option<Vec<u8>>,
}

/// The value the session codec decodes from or encodes into the byte
/// stream.  Exactly one variant is populated.
#[derive(Clone, Debug, PartialEq)]
pub enum WebSocket {
    /// A base frame, once the handshake is complete.
    Base {
        /// The frame.
        frame: Frame,
    },
    /// A handshake request: decoded by a server, encoded by a client.
    Request {
        /// The request.
        request: HandshakeRequest,
    },
    /// A handshake response: encoded by a server, decoded by a client.
    Response {
        /// The response.
        response: HandshakeResponse,
    },
}

impl WebSocket {
    /// The base frame, when this envelope carries one.
    pub fn base(&self) -> (r: Option<&Frame>)
        ensures
            self is Base ==> (match r {
                Some(f) => *f == self->frame,
                None => false,
            }),
            !(self is Base) ==> r is None,
    {
        match self {
            WebSocket::Base { frame } => Some(frame),
            _ => None,
        }
    }

    /// The handshake request, when this envelope carries one.
    pub fn request(&self) -> (r: Option<&HandshakeRequest>)
        ensures
            self is Request ==> (match r {
                Some(q) => *q == self->request,
                None => false,
            }),
            !(self is Request) ==> r is None,
    {
        match self {
            WebSocket::Request { request } => Some(request),
            _ => None,
        }
    }

    /// The handshake response, when this envelope carries one.
    pub fn response(&self) -> (r: Option<&HandshakeResponse>)
        ensures
            self is Response ==> (match r {
                Some(p) => *p == self->response,
                None => false,
            }),
            !(self is Response) ==> r is None,
    {
        match self {
            WebSocket::Response { response } => Some(response),
            _ => None,
        }
    }

    /// Make this envelope carry a base frame.
    pub fn set_base(&mut self, frame: Frame)
        ensures
            *final(self) == (WebSocket::Base { frame }),
    {
        *self = WebSocket::Base { frame };
    }

    /// Make this envelope carry a handshake request.
    pub fn set_request(&mut self, request: HandshakeRequest)
        ensures
            *final(self) == (WebSocket::Request { request }),
    {
        *self = WebSocket::Request { request };
    }

    /// Make this envelope carry a handshake response.
    pub fn set_response(&mut self, response: HandshakeResponse)
        ensures
            *final(self) == (WebSocket::Response { response }),
    {
        *self = WebSocket::Response { response };
    }
}

impl Default for WebSocket {
    /// An envelope carrying the default (empty Close) frame.
    fn default() -> (r: WebSocket)
        ensures
            r is Base,
    {
        WebSocket::Base { frame: Default::default() }
    }
}

} // verus!
