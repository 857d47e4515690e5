//! Frames of the wire protocol: a 22-byte header followed by a payload of
//! the declared length.
//!
//! ```text
//! offset  size  field
//! 0       4     magic "CELX"
//! 4       1     version
//! 5       1     opcode
//! 6       2     flags
//! 8       4     payload length
//! 12      8     request id
//! 20      2     reserved, zero
//! ```
//!
//! All multi-byte integers are big-endian.

use vstd::prelude::*;
use vstd::utf8::encode_utf8;
use crate::text::{decimal, decimal_text};
use crate::wire::{
    be_u16_at, be_u32_at, be_u64_at, get_u16, get_u32, get_u64, i64_be, lemma_be_u16_window,
    lemma_be_u32_window, lemma_be_u64_window, put_i64, put_slice, put_u16, put_u32, put_u64,
    u16_be, u32_be, u64_be,
};

verus! {

/// Magic bytes identifying the protocol: "CELX".
pub const MAGIC: [u8; 4] = [0x43, 0x45, 0x4C, 0x58];

/// Protocol version.
pub const VERSION: u8 = 1;

/// Fixed header size in bytes.
pub const HEADER_SIZE: usize = 22;

/// The magic bytes as a sequence.
pub open spec fn magic_bytes() -> Seq<u8> {
    seq![0x43u8, 0x45u8, 0x4Cu8, 0x58u8]
}

/// Operation codes of requests and responses.
#[derive(Debug, Clone, Copy, PartialEq, Eq, Structural)]
pub enum OpCode {
    Ping,
    Pong,
    Get,
    SetKey,
    Del,
    Exists,
    MGet,
    MSet,
    MDel,
    Incr,
    Decr,
    IncrBy,
    DecrBy,
    Scan,
    Keys,
    Okay,
    Error,
    Value,
    Nil,
    Integer,
    Array,
    VAdd,
    VSearch,
}

impl OpCode {
    /// The byte that stands for this opcode on the wire.
    pub open spec fn spec_code(self) -> u8 {
        match self {
            OpCode::Ping => 0x01,
            OpCode::Pong => 0x02,
            OpCode::Get => 0x03,
            OpCode::SetKey => 0x04,
            OpCode::Del => 0x05,
            OpCode::Exists => 0x06,
            OpCode::MGet => 0x07,
            OpCode::MSet => 0x08,
            OpCode::MDel => 0x09,
            OpCode::Incr => 0x0A,
            OpCode::Decr => 0x0B,
            OpCode::IncrBy => 0x0C,
            OpCode::DecrBy => 0x0D,
            OpCode::Scan => 0x0E,
            OpCode::Keys => 0x0F,
            OpCode::Okay => 0x10,
            OpCode::Error => 0x11,
            OpCode::Value => 0x12,
            OpCode::Nil => 0x13,
            OpCode::Integer => 0x14,
            OpCode::Array => 0x15,
            OpCode::VAdd => 0x20,
            OpCode::VSearch => 0x21,
        }
    }

    /// The opcode that a wire byte stands for, if any.
    pub open spec fn spec_from_u8(value: u8) -> Option<OpCode> {
        if value == 0x01 {
            Some(OpCode::Ping)
        } else if value == 0x02 {
            Some(OpCode::Pong)
        } else if value == 0x03 {
            Some(OpCode::Get)
        } else if value == 0x04 {
            Some(OpCode::SetKey)
        } else if value == 0x05 {
            Some(OpCode::Del)
        } else if value == 0x06 {
            Some(OpCode::Exists)
        } else if value == 0x07 {
            Some(OpCode::MGet)
        } else if value == 0x08 {
            Some(OpCode::MSet)
        } else if value == 0x09 {
            Some(OpCode::MDel)
        } else if value == 0x0A {
            Some(OpCode::Incr)
        } else if value == 0x0B {
            Some(OpCode::Decr)
        } else if value == 0x0C {
            Some(OpCode::IncrBy)
        } else if value == 0x0D {
            Some(OpCode::DecrBy)
        } else if value == 0x0E {
            Some(OpCode::Scan)
        } else if value == 0x0F {
            Some(OpCode::Keys)
        } else if value == 0x10 {
            Some(OpCode::Okay)
        } else if value == 0x11 {
            Some(OpCode::Error)
        } else if value == 0x12 {
            Some(OpCode::Value)
        } else if value == 0x13 {
            Some(OpCode::Nil)
        } else if value == 0x14 {
            Some(OpCode::Integer)
        } else if value == 0x15 {
            Some(OpCode::Array)
        } else if value == 0x20 {
            Some(OpCode::VAdd)
        } else if value == 0x21 {
            Some(OpCode::VSearch)
        } else {
            None
        }
    }

    /// Decodes a wire byte.
    pub fn from_u8(value: u8) -> (r: Option<OpCode>)
        ensures
            r == Self::spec_from_u8(value),
            r matches Some(op) ==> op.spec_code() == value,
            r is None ==> forall|op: OpCode| op.spec_code() != value,
    {
        match value {
            0x01 => Some(OpCode::Ping),
            0x02 => Some(OpCode::Pong),
            0x03 => Some(OpCode::Get),
            0x04 => Some(OpCode::SetKey),
            0x05 => Some(OpCode::Del),
            0x06 => Some(OpCode::Exists),
            0x07 => Some(OpCode::MGet),
            0x08 => Some(OpCode::MSet),
            0x09 => Some(OpCode::MDel),
            0x0A => Some(OpCode::Incr),
            0x0B => Some(OpCode::Decr),
            0x0C => Some(OpCode::IncrBy),
            0x0D => Some(OpCode::DecrBy),
            0x0E => Some(OpCode::Scan),
            0x0F => Some(OpCode::Keys),
            0x10 => Some(OpCode::Okay),
            0x11 => Some(OpCode::Error),
            0x12 => Some(OpCode::Value),
            0x13 => Some(OpCode::Nil),
            0x14 => Some(OpCode::Integer),
            0x15 => Some(OpCode::Array),
            0x20 => Some(OpCode::VAdd),
            0x21 => Some(OpCode::VSearch),
            _ => None,
        }
    }

    /// The wire byte of this opcode.
    pub fn code(self) -> (b: u8)
        ensures
            b == self.spec_code(),
            Self::spec_from_u8(b) == Some(self),
    {
        match self {
            OpCode::Ping => 0x01,
            OpCode::Pong => 0x02,
            OpCode::Get => 0x03,
            OpCode::SetKey => 0x04,
            OpCode::Del => 0x05,
            OpCode::Exists => 0x06,
            OpCode::MGet => 0x07,
            OpCode::MSet => 0x08,
            OpCode::MDel => 0x09,
            OpCode::Incr => 0x0A,
            OpCode::Decr => 0x0B,
            OpCode::IncrBy => 0x0C,
            OpCode::DecrBy => 0x0D,
            OpCode::Scan => 0x0E,
            OpCode::Keys => 0x0F,
            OpCode::Okay => 0x10,
            OpCode::Error => 0x11,
            OpCode::Value => 0x12,
            OpCode::Nil => 0x13,
            OpCode::Integer => 0x14,
            OpCode::Array => 0x15,
            OpCode::VAdd => 0x20,
            OpCode::VSearch => 0x21,
        }
    }

    /// The name of this opcode, as it appears in messages.
    pub fn name(self) -> (s: &'static str)
        ensures
            s@ == opcode_name(self),
    {
        match self {
            OpCode::Ping => "Ping",
            OpCode::Pong => "Pong",
            OpCode::Get => "Get",
            OpCode::SetKey => "Set",
            OpCode::Del => "Del",
            OpCode::Exists => "Exists",
            OpCode::MGet => "MGet",
            OpCode::MSet => "MSet",
            OpCode::MDel => "MDel",
            OpCode::Incr => "Incr",
            OpCode::Decr => "Decr",
            OpCode::IncrBy => "IncrBy",
            OpCode::DecrBy => "DecrBy",
            OpCode::Scan => "Scan",
            OpCode::Keys => "Keys",
            OpCode::Okay => "Ok",
            OpCode::Error => "Error",
            OpCode::Value => "Value",
            OpCode::Nil => "Nil",
            OpCode::Integer => "Integer",
            OpCode::Array => "Array",
            OpCode::VAdd => "VAdd",
            OpCode::VSearch => "VSearch",
        }
    }
}

/// The name of an opcode as text.
pub open spec fn opcode_name(op: OpCode) -> Seq<char> {
    match op {
        OpCode::Ping => "Ping"@,
        OpCode::Pong => "Pong"@,
        OpCode::Get => "Get"@,
        OpCode::SetKey => "Set"@,
        OpCode::Del => "Del"@,
        OpCode::Exists => "Exists"@,
        OpCode::MGet => "MGet"@,
        OpCode::MSet => "MSet"@,
        OpCode::MDel => "MDel"@,
        OpCode::Incr => "Incr"@,
        OpCode::Decr => "Decr"@,
        OpCode::IncrBy => "IncrBy"@,
        OpCode::DecrBy => "DecrBy"@,
        OpCode::Scan => "Scan"@,
        OpCode::Keys => "Keys"@,
        OpCode::Okay => "Ok"@,
        OpCode::Error => "Error"@,
        OpCode::Value => "Value"@,
        OpCode::Nil => "Nil"@,
        OpCode::Integer => "Integer"@,
        OpCode::Array => "Array"@,
        OpCode::VAdd => "VAdd"@,
        OpCode::VSearch => "VSearch"@,
    }
}

/// Why a byte string was refused as a frame, a command or a response.
#[derive(Debug, Clone, Copy, PartialEq, Eq, Structural)]
pub enum ProtocolError {
    /// The first four bytes are not the magic.
    InvalidMagic,
    /// The opcode byte stands for no opcode.
    InvalidOpcode(u8),
    /// The declared payload length is over the codec's limit.
    PayloadTooLarge(u32),
    /// The stream ended inside a frame.
    TruncatedFrame,
    /// Fewer than four bytes are left where a length prefix is due.
    MissingLengthPrefix,
    /// Fewer bytes are left than a length prefix announced.
    MissingPayload,
    /// Fewer bytes are left than the vector's dimension asks for.
    MissingVectorData,
    /// Fewer bytes are left than a fixed-size field needs.
    MissingField,
    /// Fewer than four bytes are left where an item count is due.
    MissingCount,
    /// An integer payload shorter than eight bytes.
    InvalidInteger,
    /// An array payload shorter than its count field.
    InvalidArray,
    /// An array ends before the length prefix of an item.
    MissingArrayData,
    /// An array ends inside an item.
    MissingItemData,
    /// The opcode is none of a request.
    UnexpectedCommandOpcode(OpCode),
    /// The opcode is none of a response.
    UnexpectedResponseOpcode(OpCode),
    /// The opcode is none of the extended requests.
    UnknownExtendedOpcode(OpCode),
}

impl ProtocolError {
    /// The message of this error as text.
    pub open spec fn text(self) -> Seq<char> {
        match self {
            ProtocolError::InvalidMagic => "Invalid magic bytes"@,
            ProtocolError::InvalidOpcode(b) => "Invalid opcode: "@ + decimal_text(b as nat),
            ProtocolError::PayloadTooLarge(n) => "Payload too large: "@ + decimal_text(n as nat),
            ProtocolError::TruncatedFrame => "Truncated frame"@,
            ProtocolError::MissingLengthPrefix => "Not enough data for length prefix"@,
            ProtocolError::MissingPayload => "Not enough data for payload"@,
            ProtocolError::MissingVectorData => "Insufficient vector data"@,
            ProtocolError::MissingField => "Not enough data for field"@,
            ProtocolError::MissingCount => "Not enough data for count"@,
            ProtocolError::InvalidInteger => "Invalid integer payload"@,
            ProtocolError::InvalidArray => "Invalid array payload"@,
            ProtocolError::MissingArrayData => "Insufficient array data"@,
            ProtocolError::MissingItemData => "Insufficient item data"@,
            ProtocolError::UnexpectedCommandOpcode(op) => "Unexpected opcode for command: "@
                + opcode_name(op),
            ProtocolError::UnexpectedResponseOpcode(op) => "Unexpected opcode for response: "@
                + opcode_name(op),
            ProtocolError::UnknownExtendedOpcode(op) => "Unknown extended opcode: "@
                + opcode_name(op),
        }
    }

    /// Whether this error says that the data ends early, rather than that
    /// it is wrong.
    pub open spec fn ends_early(self) -> bool {
        match self {
            ProtocolError::TruncatedFrame => true,
            ProtocolError::MissingLengthPrefix => true,
            ProtocolError::MissingPayload => true,
            ProtocolError::MissingVectorData => true,
            ProtocolError::MissingField => true,
            ProtocolError::MissingCount => true,
            ProtocolError::MissingArrayData => true,
            ProtocolError::MissingItemData => true,
            _ => false,
        }
    }

    /// Whether this error says that the data ends early.
    pub fn is_shortfall(&self) -> (r: bool)
        ensures
            r == self.ends_early(),
    {
        match self {
            ProtocolError::TruncatedFrame => true,
            ProtocolError::MissingLengthPrefix => true,
            ProtocolError::MissingPayload => true,
            ProtocolError::MissingVectorData => true,
            ProtocolError::MissingField => true,
            ProtocolError::MissingCount => true,
            ProtocolError::MissingArrayData => true,
            ProtocolError::MissingItemData => true,
            _ => false,
        }
    }

    /// The message of this error.
    pub fn message(&self) -> (s: String)
        ensures
            s@ == self.text(),
    {
        match self {
            ProtocolError::InvalidMagic => String::from_str("Invalid magic bytes"),
            ProtocolError::InvalidOpcode(b) => {
                let mut s = String::from_str("Invalid opcode: ");
                let n = decimal(*b as u64);
                s.append(n.as_str());
                s
            },
            ProtocolError::PayloadTooLarge(n) => {
                let mut s = String::from_str("Payload too large: ");
                let n = decimal(*n as u64);
                s.append(n.as_str());
                s
            },
            ProtocolError::TruncatedFrame => String::from_str("Truncated frame"),
            ProtocolError::MissingLengthPrefix => String::from_str(
                "Not enough data for length prefix",
            ),
            ProtocolError::MissingPayload => String::from_str("Not enough data for payload"),
            ProtocolError::MissingVectorData => String::from_str("Insufficient vector data"),
            ProtocolError::MissingField => String::from_str("Not enough data for field"),
            ProtocolError::MissingCount => String::from_str("Not enough data for count"),
            ProtocolError::InvalidInteger => String::from_str("Invalid integer payload"),
            ProtocolError::InvalidArray => String::from_str("Invalid array payload"),
            ProtocolError::MissingArrayData => String::from_str("Insufficient array data"),
            ProtocolError::MissingItemData => String::from_str("Insufficient item data"),
            ProtocolError::UnexpectedCommandOpcode(op) => {
                let mut s = String::from_str("Unexpected opcode for command: ");
                s.append(op.name());
                s
            },
            ProtocolError::UnexpectedResponseOpcode(op) => {
                let mut s = String::from_str("Unexpected opcode for response: ");
                s.append(op.name());
                s
            },
            ProtocolError::UnknownExtendedOpcode(op) => {
                let mut s = String::from_str("Unknown extended opcode: ");
                s.append(op.name());
                s
            },
        }
    }
}

/// The fixed part of a frame.
#[derive(Debug, Clone, Copy, PartialEq, Eq, Structural)]
pub struct FrameHeader {
    pub version: u8,
    pub opcode: OpCode,
    pub flags: u16,
    pub payload_len: u32,
    pub request_id: u64,
}

/// The 22 bytes that a header is written as.
pub open spec fn header_bytes(h: FrameHeader) -> Seq<u8> {
    magic_bytes() + seq![h.version, h.opcode.spec_code()] + u16_be(h.flags) + u32_be(
        h.payload_len,
    ) + u64_be(h.request_id) + seq![0u8, 0u8]
}

/// What the first 22 bytes of `s` say as a header.
pub open spec fn parse_header(s: Seq<u8>) -> Result<FrameHeader, ProtocolError> {
    if s.len() < HEADER_SIZE {
        Err(ProtocolError::TruncatedFrame)
    } else if s.subrange(0, 4) != magic_bytes() {
        Err(ProtocolError::InvalidMagic)
    } else {
        match OpCode::spec_from_u8(s[5]) {
            None => Err(ProtocolError::InvalidOpcode(s[5])),
            Some(opcode) => Ok(
                FrameHeader {
                    version: s[4],
                    opcode,
                    flags: be_u16_at(s, 6),
                    payload_len: be_u32_at(s, 8),
                    request_id: be_u64_at(s, 12),
                },
            ),
        }
    }
}

/// A header that was written is read back as it was, whatever follows it.
pub proof fn lemma_header_roundtrip(h: FrameHeader, rest: Seq<u8>)
    ensures
        header_bytes(h).len() == HEADER_SIZE,
        parse_header(header_bytes(h) + rest) == Ok::<FrameHeader, ProtocolError>(h),
{
    let s = header_bytes(h) + rest;
    assert(header_bytes(h).len() == 22);
    assert(s.subrange(0, 4) =~= magic_bytes());
    assert(s[4] == h.version);
    assert(s[5] == h.opcode.spec_code());
    assert(OpCode::spec_from_u8(h.opcode.spec_code()) == Some(h.opcode));
    assert(s.subrange(6, 8) =~= u16_be(h.flags));
    lemma_be_u16_window(s, 6, h.flags);
    assert(s.subrange(8, 12) =~= u32_be(h.payload_len));
    lemma_be_u32_window(s, 8, h.payload_len);
    assert(s.subrange(12, 20) =~= u64_be(h.request_id));
    lemma_be_u64_window(s, 12, h.request_id);
}

impl FrameHeader {
    /// A header of the current version with no payload.
    pub fn new(opcode: OpCode, request_id: u64) -> (h: FrameHeader)
        ensures
            h == (FrameHeader { version: VERSION, opcode, flags: 0, payload_len: 0, request_id }),
    {
        FrameHeader { version: VERSION, opcode, flags: 0, payload_len: 0, request_id }
    }

    /// The same header with another payload length.
    pub fn with_payload_len(self, len: u32) -> (h: FrameHeader)
        ensures
            h == (FrameHeader { payload_len: len, ..self }),
    {
        let mut h = self;
        h.payload_len = len;
        h
    }

    /// Appends the 22 header bytes to `buf`.
    pub fn encode(&self, buf: &mut Vec<u8>)
        ensures
            final(buf)@ == old(buf)@ + header_bytes(*self),
    {
        buf.push(0x43);
        buf.push(0x45);
        buf.push(0x4C);
        buf.push(0x58);
        buf.push(self.version);
        buf.push(self.opcode.code());
        put_u16(buf, self.flags);
        put_u32(buf, self.payload_len);
        put_u64(buf, self.request_id);
        put_u16(buf, 0);
        assert(u16_be(0) =~= seq![0u8, 0u8]);
        assert(buf@ =~= old(buf)@ + header_bytes(*self));
    }

    /// Reads a header from the first 22 bytes of `buf`.
    pub fn decode(buf: &Vec<u8>) -> (r: Result<FrameHeader, ProtocolError>)
        ensures
            r == parse_header(buf@),
    {
        if buf.len() < HEADER_SIZE {
            return Err(ProtocolError::TruncatedFrame);
        }
        if buf[0] != 0x43 || buf[1] != 0x45 || buf[2] != 0x4C || buf[3] != 0x58 {
            assert(buf@.subrange(0, 4) != magic_bytes()) by {
                let m = buf@.subrange(0, 4);
                assert(m[0] == buf@[0] && m[1] == buf@[1] && m[2] == buf@[2] && m[3] == buf@[3]);
            }
            return Err(ProtocolError::InvalidMagic);
        }
        assert(buf@.subrange(0, 4) =~= magic_bytes());
        let version = buf[4];
        let opcode_byte = buf[5];
        match OpCode::from_u8(opcode_byte) {
            None => Err(ProtocolError::InvalidOpcode(opcode_byte)),
            Some(opcode) => {
                let flags = get_u16(buf, 6);
                let payload_len = get_u32(buf, 8);
                let request_id = get_u64(buf, 12);
                Ok(FrameHeader { version, opcode, flags, payload_len, request_id })
            },
        }
    }
}

/// A header and its payload.
#[derive(Debug, Clone, PartialEq, Eq)]
pub struct Frame {
    pub header: FrameHeader,
    pub payload: Vec<u8>,
}

/// A frame as a value: its header and the sequence of its payload bytes.
pub struct FrameModel {
    pub header: FrameHeader,
    pub payload: Seq<u8>,
}

impl View for Frame {
    type V = FrameModel;

    open spec fn view(&self) -> FrameModel {
        FrameModel { header: self.header, payload: self.payload@ }
    }
}

/// The bytes that a frame is written as.
pub open spec fn frame_bytes(f: FrameModel) -> Seq<u8> {
    header_bytes(f.header) + f.payload
}

/// The frame that `Frame::new` makes of the three values.
pub open spec fn new_frame(opcode: OpCode, request_id: u64, payload: Seq<u8>) -> FrameModel {
    FrameModel {
        header: FrameHeader {
            version: VERSION,
            opcode,
            flags: 0,
            payload_len: payload.len() as u32,
            request_id,
        },
        payload,
    }
}

impl FrameModel {
    /// The header declares the length that the payload has.
    pub open spec fn wf(self) -> bool {
        self.header.payload_len == self.payload.len()
    }
}

impl Frame {
    /// The header declares the length that the payload has.
    pub open spec fn wf(&self) -> bool {
        self@.wf()
    }

    /// Whether this frame is what `new` makes of the three values.
    pub open spec fn is_new(&self, opcode: OpCode, request_id: u64, payload: Seq<u8>) -> bool {
        self@ == new_frame(opcode, request_id, payload)
    }

    /// A frame of the current version around `payload`.
    ///
    /// The length field has 32 bits: the frame is well formed if the
    /// payload is no longer than that field can say.
    pub fn new(opcode: OpCode, request_id: u64, payload: Vec<u8>) -> (f: Frame)
        ensures
            f.is_new(opcode, request_id, payload@),
            payload@.len() <= u32::MAX ==> f.wf(),
    {
        let header = FrameHeader::new(opcode, request_id).with_payload_len(payload.len() as u32);
        Frame { header, payload }
    }

    /// A PING request.
    pub fn ping(request_id: u64) -> (f: Frame)
        ensures
            f.is_new(OpCode::Ping, request_id, Seq::empty()),
            f.wf(),
    {
        Frame::new(OpCode::Ping, request_id, Vec::new())
    }

    /// A PONG response.
    pub fn pong(request_id: u64) -> (f: Frame)
        ensures
            f.is_new(OpCode::Pong, request_id, Seq::empty()),
            f.wf(),
    {
        Frame::new(OpCode::Pong, request_id, Vec::new())
    }

    /// An OK response.
    pub fn ok(request_id: u64) -> (f: Frame)
        ensures
            f.is_new(OpCode::Okay, request_id, Seq::empty()),
            f.wf(),
    {
        Frame::new(OpCode::Okay, request_id, Vec::new())
    }

    /// A NIL response.
    pub fn nil(request_id: u64) -> (f: Frame)
        ensures
            f.is_new(OpCode::Nil, request_id, Seq::empty()),
            f.wf(),
    {
        Frame::new(OpCode::Nil, request_id, Vec::new())
    }

    /// An error frame whose payload is the UTF-8 text of `msg`.
    pub fn error(request_id: u64, msg: &str) -> (f: Frame)
        ensures
            f.is_new(OpCode::Error, request_id, encode_utf8(msg@)),
            encode_utf8(msg@).len() <= u32::MAX ==> f.wf(),
    {
        Frame::new(OpCode::Error, request_id, msg.as_bytes_vec())
    }

    /// A VALUE response that carries `data`.
    pub fn value(request_id: u64, data: Vec<u8>) -> (f: Frame)
        ensures
            f.is_new(OpCode::Value, request_id, data@),
            data@.len() <= u32::MAX ==> f.wf(),
    {
        Frame::new(OpCode::Value, request_id, data)
    }

    /// An integer frame: eight bytes, big-endian, two's complement.
    pub fn integer(request_id: u64, value: i64) -> (f: Frame)
        ensures
            f.is_new(OpCode::Integer, request_id, i64_be(value)),
            f.wf(),
    {
        let mut buf: Vec<u8> = Vec::new();
        put_i64(&mut buf, value);
        assert(buf@ =~= i64_be(value));
        Frame::new(OpCode::Integer, request_id, buf)
    }

    /// Appends the header bytes, then the payload bytes.
    pub fn encode(&self, buf: &mut Vec<u8>)
        ensures
            final(buf)@ == old(buf)@ + frame_bytes(self@),
    {
        self.header.encode(buf);
        put_slice(buf, &self.payload);
        assert(buf@ =~= old(buf)@ + frame_bytes(self@));
    }
}

/// Every frame of the current version is written with the magic and the
/// version byte first, and declares as its payload length the number of
/// bytes that follow the header.
pub proof fn lemma_encoded_header_fields(f: FrameModel)
    requires
        f.wf(),
        f.header.version == VERSION,
    ensures
        frame_bytes(f).len() == HEADER_SIZE + f.payload.len(),
        frame_bytes(f).subrange(0, 5) == seq![0x43u8, 0x45u8, 0x4Cu8, 0x58u8, 0x01u8],
        be_u32_at(frame_bytes(f), 8) == frame_bytes(f).len() - HEADER_SIZE,
{
    lemma_header_roundtrip(f.header, f.payload);
    assert(frame_bytes(f).subrange(0, 5) =~= seq![0x43u8, 0x45u8, 0x4Cu8, 0x58u8, 0x01u8]);
}

} // verus!
