//! The WebSocket base frame and its opcode.

use vstd::prelude::*;

verus! {

/// The opcode of a base frame.
///
/// The numeric ranges 3-7 and 11-15 are reserved by RFC 6455; any such
/// value decodes to [`OpCode::Reserved`] and is then refused.
#[derive(Clone, Copy, Debug, PartialEq, Eq, Structural)]
pub enum OpCode {
    /// Continuation of a fragmented message.
    Continue,
    /// A text message; final frames are validated as UTF-8.
    Text,
    /// A binary message.
    Binary,
    /// Close control frame.
    Close,
    /// Ping control frame.
    Ping,
    /// Pong control frame.
    Pong,
    /// Any opcode value in the reserved ranges.
    Reserved,
}

/// The opcode a 4-bit wire value denotes.
pub open spec fn op_from(n: u8) -> OpCode {
    if n == 0 {
        OpCode::Continue
    } else if n == 1 {
        OpCode::Text
    } else if n == 2 {
        OpCode::Binary
    } else if n == 8 {
        OpCode::Close
    } else if n == 9 {
        OpCode::Ping
    } else if n == 10 {
        OpCode::Pong
    } else {
        OpCode::Reserved
    }
}

/// The wire value of an opcode; total, but meaningless for `Reserved`.
pub open spec fn op_num(op: OpCode) -> u8 {
    match op {
        OpCode::Continue => 0,
        OpCode::Text => 1,
        OpCode::Binary => 2,
        OpCode::Close => 8,
        OpCode::Ping => 9,
        OpCode::Pong => 10,
        OpCode::Reserved => 3,
    }
}

/// Whether the opcode names a control frame.
pub open spec fn is_control(op: OpCode) -> bool {
    op == OpCode::Close || op == OpCode::Ping || op == OpCode::Pong
}

/// Exec mirror of [`op_from`].
pub fn opcode_from_u8(n: u8) -> (r: OpCode)
    ensures
        r == op_from(n),
{
    if n == 0 {
        OpCode::Continue
    } else if n == 1 {
        OpCode::Text
    } else if n == 2 {
        OpCode::Binary
    } else if n == 8 {
        OpCode::Close
    } else if n == 9 {
        OpCode::Ping
    } else if n == 10 {
        OpCode::Pong
    } else {
        OpCode::Reserved
    }
}

/// Exec mirror of [`op_num`].
pub fn opcode_to_u8(op: OpCode) -> (r: u8)
    ensures
        r == op_num(op),
{
    match op {
        OpCode::Continue => 0,
        OpCode::Text => 1,
        OpCode::Binary => 2,
        OpCode::Close => 8,
        OpCode::Ping => 9,
        OpCode::Pong => 10,
        OpCode::Reserved => 3,
    }
}

/// Exec mirror of [`is_control`].
pub fn opcode_is_control(op: OpCode) -> (r: bool)
    ensures
        r == is_control(op),
{
    op == OpCode::Close || op == OpCode::Ping || op == OpCode::Pong
}

/// A single RFC 6455 base frame, header and payload.
///
/// `application_data` always holds the unmasked form.  The stated
/// `payload_length` must equal the total byte count of extension plus
/// application data ([`Frame::length_consistent`]).
#[derive(Clone, Debug, PartialEq)]
pub struct Frame {
    /// Final fragment of a message.
    pub fin: bool,
    /// First reserved header bit.
    pub rsv1: bool,
    /// Second reserved header bit.
    pub rsv2: bool,
    /// Third reserved header bit.
    pub rsv3: bool,
    /// The frame's opcode.
    pub opcode: OpCode,
    /// Whether the frame arrived (or is to leave) masked.
    pub masked: bool,
    /// Total payload byte count, extension plus application data.
    pub payload_length: u64,
    /// The 4-byte masking key, when `masked`.
    pub mask_key: Option<Vec<u8>>,
    /// Bytes owned by extensions, when split off from application data.
    pub extension_data: Option<Vec<u8>>,
    /// The application payload, always unmasked.
    pub application_data: Vec<u8>,
}

impl Frame {
    /// The stated payload length against the bytes actually carried.
    pub open spec fn spec_payload_total(self) -> nat {
        self.application_data@.len() + match self.extension_data {
            Some(e) => e@.len(),
            None => 0nat,
        }
    }

    /// The stated length matches the carried bytes.
    pub open spec fn length_consistent(self) -> bool {
        self.payload_length == self.spec_payload_total()
    }

    /// The framing invariants a frame must meet to be encoded: a known
    /// opcode, control frames final and short, and a consistent length.
    pub open spec fn well_formed(self) -> bool {
        &&& self.opcode != OpCode::Reserved
        &&& is_control(self.opcode) ==> self.fin && self.payload_length <= 125
        &&& self.length_consistent()
    }

    /// The fin flag.
    pub fn fin(&self) -> (r: bool)
        ensures
            r == self.fin,
    {
        self.fin
    }

    /// The first reserved bit.
    pub fn rsv1(&self) -> (r: bool)
        ensures
            r == self.rsv1,
    {
        self.rsv1
    }

    /// The second reserved bit.
    pub fn rsv2(&self) -> (r: bool)
        ensures
            r == self.rsv2,
    {
        self.rsv2
    }

    /// The third reserved bit.
    pub fn rsv3(&self) -> (r: bool)
        ensures
            r == self.rsv3,
    {
        self.rsv3
    }

    /// The opcode.
    pub fn opcode(&self) -> (r: OpCode)
        ensures
            r == self.opcode,
    {
        self.opcode
    }

    /// Whether the frame is masked.
    pub fn masked(&self) -> (r: bool)
        ensures
            r == self.masked,
    {
        self.masked
    }

    /// The stated payload length.
    pub fn payload_length(&self) -> (r: u64)
        ensures
            r == self.payload_length,
    {
        self.payload_length
    }

    /// The masking key, when present.
    pub fn mask_key(&self) -> (r: &Option<Vec<u8>>)
        ensures
            r == &self.mask_key,
    {
        &self.mask_key
    }

    /// The extension data, when present.
    pub fn extension_data(&self) -> (r: &Option<Vec<u8>>)
        ensures
            r == &self.extension_data,
    {
        &self.extension_data
    }

    /// The unmasked application data.
    pub fn application_data(&self) -> (r: &Vec<u8>)
        ensures
            r == &self.application_data,
    {
        &self.application_data
    }

    /// Set the fin flag.
    pub fn set_fin(&mut self, fin: bool)
        ensures
            *final(self) == (Frame { fin, ..*old(self) }),
    {
        self.fin = fin;
    }

    /// Set the first reserved bit.
    pub fn set_rsv1(&mut self, rsv1: bool)
        ensures
            *final(self) == (Frame { rsv1, ..*old(self) }),
    {
        self.rsv1 = rsv1;
    }

    /// Set the second reserved bit.
    pub fn set_rsv2(&mut self, rsv2: bool)
        ensures
            *final(self) == (Frame { rsv2, ..*old(self) }),
    {
        self.rsv2 = rsv2;
    }

    /// Set the third reserved bit.
    pub fn set_rsv3(&mut self, rsv3: bool)
        ensures
            *final(self) == (Frame { rsv3, ..*old(self) }),
    {
        self.rsv3 = rsv3;
    }

    /// Set the opcode.
    pub fn set_opcode(&mut self, opcode: OpCode)
        ensures
            *final(self) == (Frame { opcode, ..*old(self) }),
    {
        self.opcode = opcode;
    }

    /// Set the stated payload length.
    pub fn set_payload_length(&mut self, payload_length: u64)
        ensures
            *final(self) == (Frame { payload_length, ..*old(self) }),
    {
        self.payload_length = payload_length;
    }

    /// Set the application data.
    pub fn set_application_data(&mut self, application_data: Vec<u8>)
        ensures
            *final(self) == (Frame { application_data, ..*old(self) }),
    {
        self.application_data = application_data;
    }

    /// Set the extension data.
    pub fn set_extension_data(&mut self, extension_data: Option<Vec<u8>>)
        ensures
            *final(self) == (Frame { extension_data, ..*old(self) }),
    {
        self.extension_data = extension_data;
    }
}

impl Default for Frame {
    /// A final, unmasked, empty Close frame.
    fn default() -> (r: Frame)
        ensures
            r.fin,
            !r.rsv1 && !r.rsv2 && !r.rsv3,
            r.opcode == OpCode::Close,
            !r.masked,
            r.payload_length == 0,
            r.mask_key is None,
            r.extension_data is None,
            r.application_data@ == Seq::<u8>::empty(),
    {
        Frame {
            fin: true,
            rsv1: false,
            rsv2: false,
            rsv3: false,
            opcode: OpCode::Close,
            masked: false,
            payload_length: 0,
            mask_key: None,
            extension_data: None,
            application_data: Vec::new(),
        }
    }
}

} // verus!
