//! Codec core of an RFC 6455 WebSocket endpoint.
//!
//! The crate translates between a raw byte stream and typed WebSocket
//! values: the opening HTTP handshake in either direction, and base frames
//! once the handshake is complete.  The top-level translator is
//! [`session::Twist`]; it owns the handshake/post-handshake mode switch,
//! dispatches to the frame or handshake codecs, threads frames through an
//! ordered chain of negotiated extensions, and validates Text payloads.
//!
//! The crate performs no I/O: it consumes and fills in-memory byte buffers
//! and never opens sockets or spawns tasks.

pub mod base;
pub mod buffer;
pub mod client;
pub mod digest;
pub mod envelope;
pub mod error;
pub mod extension;
pub mod frame;
pub mod http;
pub mod laws;
pub mod textcheck;
pub mod rng;
pub mod server;
pub mod session;
