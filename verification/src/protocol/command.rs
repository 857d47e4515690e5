//! Requests: what a client may ask, and how a request is written into and
//! read out of a frame's payload.
//!
//! ```text
//! GET, DEL, EXISTS  [keylen][key]
//! SET               [keylen][key][vallen][value][ttl seconds, 8 bytes]
//! VADD              [keylen][key][dimension][word x dimension]
//! VSEARCH           [dimension][word x dimension][k]
//! ```
//!
//! A vector component is the 32-bit pattern of an IEEE-754 single, written
//! big-endian like every other integer.

use vstd::prelude::*;
use super::frame::{Frame, OpCode, ProtocolError};
use super::payload::{
    counted_words,
    lemma_counted_words_window,
    lemma_prefixed_window,
    lemma_words_len,
    prefixed,
    read_prefixed,
    read_words,
    take_prefixed,
    take_words,
    write_prefixed,
    write_words,
};
use crate::wire::{be_u32_at, be_u64_at, get_u32, get_u64, lemma_be_u32_window,
    lemma_be_u64_window, put_u32, put_u64, u32_be, u64_be};

verus! {

/// The number of results that a search asks for when it names none.
pub const DEFAULT_K: usize = 10;

/// A request.
#[derive(Debug, Clone, PartialEq, Eq)]
pub enum Command {
    /// Health check.
    Ping,
    /// Get the value of a key.
    Get { key: Vec<u8> },
    /// Store a value under a key, for `ttl` seconds or without expiry.
    SetKey { key: Vec<u8>, value: Vec<u8>, ttl: Option<u64> },
    /// Delete a key.
    Del { key: Vec<u8> },
    /// Ask whether a key is present.
    Exists { key: Vec<u8> },
    /// Store a vector under a key.
    VAdd { key: Vec<u8>, vector: Vec<u32> },
    /// Search the `k` vectors nearest to a query.
    VSearch { vector: Vec<u32>, k: usize },
}

/// A request as a value.
pub enum CommandModel {
    Ping,
    Get { key: Seq<u8> },
    SetKey { key: Seq<u8>, value: Seq<u8>, ttl: Option<u64> },
    Del { key: Seq<u8> },
    Exists { key: Seq<u8> },
    VAdd { key: Seq<u8>, vector: Seq<u32> },
    VSearch { vector: Seq<u32>, k: usize },
}

impl View for Command {
    type V = CommandModel;

    open spec fn view(&self) -> CommandModel {
        match *self {
            Command::Ping => CommandModel::Ping,
            Command::Get { key } => CommandModel::Get { key: key@ },
            Command::SetKey { key, value, ttl } => CommandModel::SetKey {
                key: key@,
                value: value@,
                ttl,
            },
            Command::Del { key } => CommandModel::Del { key: key@ },
            Command::Exists { key } => CommandModel::Exists { key: key@ },
            Command::VAdd { key, vector } => CommandModel::VAdd { key: key@, vector: vector@ },
            Command::VSearch { vector, k } => CommandModel::VSearch { vector: vector@, k },
        }
    }
}

impl CommandModel {
    /// The opcode under which this request travels.
    pub open spec fn opcode(self) -> OpCode {
        match self {
            CommandModel::Ping => OpCode::Ping,
            CommandModel::Get { .. } => OpCode::Get,
            CommandModel::SetKey { .. } => OpCode::SetKey,
            CommandModel::Del { .. } => OpCode::Del,
            CommandModel::Exists { .. } => OpCode::Exists,
            CommandModel::VAdd { .. } => OpCode::VAdd,
            CommandModel::VSearch { .. } => OpCode::VSearch,
        }
    }

    /// The payload that this request is written as.
    pub open spec fn payload(self) -> Seq<u8> {
        match self {
            CommandModel::Ping => Seq::empty(),
            CommandModel::Get { key } => prefixed(key),
            CommandModel::SetKey { key, value, ttl } => prefixed(key) + prefixed(value) + u64_be(
                match ttl {
                    Some(t) => t,
                    None => 0,
                },
            ),
            CommandModel::Del { key } => prefixed(key),
            CommandModel::Exists { key } => prefixed(key),
            CommandModel::VAdd { key, vector } => prefixed(key) + counted_words(vector),
            CommandModel::VSearch { vector, k } => counted_words(vector) + u32_be(k as u32),
        }
    }

    /// Every length fits the 32-bit field that announces it, a time to
    /// live is not the zero that stands for "none", and `k` fits its field.
    pub open spec fn wf(self) -> bool {
        match self {
            CommandModel::Ping => true,
            CommandModel::Get { key } => key.len() <= u32::MAX,
            CommandModel::SetKey { key, value, ttl } => key.len() <= u32::MAX && value.len()
                <= u32::MAX && ttl != Some(0u64),
            CommandModel::Del { key } => key.len() <= u32::MAX,
            CommandModel::Exists { key } => key.len() <= u32::MAX,
            CommandModel::VAdd { key, vector } => key.len() <= u32::MAX && vector.len()
                <= u32::MAX,
            CommandModel::VSearch { vector, k } => vector.len() <= u32::MAX && k <= u32::MAX,
        }
    }
}

/// The key that a payload of one length-prefixed string holds.
pub open spec fn parse_key(payload: Seq<u8>) -> Result<Seq<u8>, ProtocolError> {
    match take_prefixed(
        payload,
        0,
        ProtocolError::MissingLengthPrefix,
        ProtocolError::MissingPayload,
    ) {
        Ok(key) => Ok(key.value),
        Err(e) => Err(e),
    }
}

/// What a SET payload says.
pub open spec fn parse_set(payload: Seq<u8>) -> Result<CommandModel, ProtocolError> {
    match take_prefixed(
        payload,
        0,
        ProtocolError::MissingLengthPrefix,
        ProtocolError::MissingPayload,
    ) {
        Err(e) => Err(e),
        Ok(key) => match take_prefixed(
            payload,
            key.next,
            ProtocolError::MissingLengthPrefix,
            ProtocolError::MissingPayload,
        ) {
            Err(e) => Err(e),
            Ok(value) => Ok(
                CommandModel::SetKey {
                    key: key.value,
                    value: value.value,
                    ttl: if payload.len() - value.next >= 8 && be_u64_at(payload, value.next)
                        > 0 {
                        Some(be_u64_at(payload, value.next))
                    } else {
                        None
                    },
                },
            ),
        },
    }
}

/// What a VADD payload says.
pub open spec fn parse_vadd(payload: Seq<u8>) -> Result<CommandModel, ProtocolError> {
    match take_prefixed(
        payload,
        0,
        ProtocolError::MissingLengthPrefix,
        ProtocolError::MissingPayload,
    ) {
        Err(e) => Err(e),
        Ok(key) => match take_words(payload, key.next) {
            Err(e) => Err(e),
            Ok(vector) => Ok(CommandModel::VAdd { key: key.value, vector: vector.value }),
        },
    }
}

/// What a VSEARCH payload says.
pub open spec fn parse_vsearch(payload: Seq<u8>) -> Result<CommandModel, ProtocolError> {
    match take_words(payload, 0) {
        Err(e) => Err(e),
        Ok(vector) => Ok(
            CommandModel::VSearch {
                vector: vector.value,
                k: if payload.len() - vector.next >= 4 {
                    be_u32_at(payload, vector.next) as usize
                } else {
                    DEFAULT_K
                },
            },
        ),
    }
}

/// The request that a frame with this opcode and payload carries.
pub open spec fn parse_command(opcode: OpCode, payload: Seq<u8>) -> Result<
    CommandModel,
    ProtocolError,
> {
    match opcode {
        OpCode::Ping => Ok(CommandModel::Ping),
        OpCode::Get => match parse_key(payload) {
            Ok(key) => Ok(CommandModel::Get { key }),
            Err(e) => Err(e),
        },
        OpCode::SetKey => parse_set(payload),
        OpCode::Del => match parse_key(payload) {
            Ok(key) => Ok(CommandModel::Del { key }),
            Err(e) => Err(e),
        },
        OpCode::Exists => match parse_key(payload) {
            Ok(key) => Ok(CommandModel::Exists { key }),
            Err(e) => Err(e),
        },
        OpCode::VAdd => parse_vadd(payload),
        OpCode::VSearch => parse_vsearch(payload),
        _ => Err(ProtocolError::UnexpectedCommandOpcode(opcode)),
    }
}

/// A parser's result with the request taken as a value.
pub open spec fn parsed_command_view(r: Result<Command, ProtocolError>) -> Result<
    CommandModel,
    ProtocolError,
> {
    match r {
        Ok(c) => Ok(c@),
        Err(e) => Err(e),
    }
}

fn read_key(payload: &Vec<u8>) -> (r: Result<Vec<u8>, ProtocolError>)
    ensures
        match parse_key(payload@) {
            Ok(key) => r matches Ok(k) && k@ == key,
            Err(e) => r == Err::<Vec<u8>, ProtocolError>(e),
        },
{
    let mut at: usize = 0;
    read_prefixed(
        payload,
        &mut at,
        ProtocolError::MissingLengthPrefix,
        ProtocolError::MissingPayload,
    )
}

impl Command {
    /// The opcode under which this request travels.
    pub fn opcode(&self) -> (op: OpCode)
        ensures
            op == self@.opcode(),
    {
        match self {
            Command::Ping => OpCode::Ping,
            Command::Get { .. } => OpCode::Get,
            Command::SetKey { .. } => OpCode::SetKey,
            Command::Del { .. } => OpCode::Del,
            Command::Exists { .. } => OpCode::Exists,
            Command::VAdd { .. } => OpCode::VAdd,
            Command::VSearch { .. } => OpCode::VSearch,
        }
    }

    /// Reads the request that a frame carries.
    ///
    /// Fails where the opcode is none of a request, or where the payload
    /// ends before a length, a string or a vector that it announces. A SET
    /// payload that ends before its time to live, or whose time to live is
    /// zero, asks for no expiry; a VSEARCH payload that ends before `k` asks
    /// for ten results.
    pub fn from_frame(frame: &Frame) -> (r: Result<Command, ProtocolError>)
        ensures
            parsed_command_view(r) == parse_command(frame.header.opcode, frame.payload@),
    {
        let payload = &frame.payload;
        match frame.header.opcode {
            OpCode::Ping => Ok(Command::Ping),
            OpCode::Get => match read_key(payload) {
                Ok(key) => Ok(Command::Get { key }),
                Err(e) => Err(e),
            },
            OpCode::SetKey => {
                let mut at: usize = 0;
                let key = match read_prefixed(
                    payload,
                    &mut at,
                    ProtocolError::MissingLengthPrefix,
                    ProtocolError::MissingPayload,
                ) {
                    Ok(key) => key,
                    Err(e) => {
                        return Err(e);
                    },
                };
                let value = match read_prefixed(
                    payload,
                    &mut at,
                    ProtocolError::MissingLengthPrefix,
                    ProtocolError::MissingPayload,
                ) {
                    Ok(value) => value,
                    Err(e) => {
                        return Err(e);
                    },
                };
                let ttl = if payload.len() - at >= 8 {
                    let t = get_u64(payload, at);
                    if t > 0 {
                        Some(t)
                    } else {
                        None
                    }
                } else {
                    None
                };
                Ok(Command::SetKey { key, value, ttl })
            },
            OpCode::Del => match read_key(payload) {
                Ok(key) => Ok(Command::Del { key }),
                Err(e) => Err(e),
            },
            OpCode::Exists => match read_key(payload) {
                Ok(key) => Ok(Command::Exists { key }),
                Err(e) => Err(e),
            },
            OpCode::VAdd => {
                let mut at: usize = 0;
                let key = match read_prefixed(
                    payload,
                    &mut at,
                    ProtocolError::MissingLengthPrefix,
                    ProtocolError::MissingPayload,
                ) {
                    Ok(key) => key,
                    Err(e) => {
                        return Err(e);
                    },
                };
                match read_words(payload, &mut at) {
                    Ok(vector) => Ok(Command::VAdd { key, vector }),
                    Err(e) => Err(e),
                }
            },
            OpCode::VSearch => {
                let mut at: usize = 0;
                let vector = match read_words(payload, &mut at) {
                    Ok(vector) => vector,
                    Err(e) => {
                        return Err(e);
                    },
                };
                let k = if payload.len() - at >= 4 {
                    get_u32(payload, at) as usize
                } else {
                    DEFAULT_K
                };
                Ok(Command::VSearch { vector, k })
            },
            other => Err(ProtocolError::UnexpectedCommandOpcode(other)),
        }
    }

    /// The opcode and the payload that this request travels as.
    pub fn encode(&self) -> (r: (OpCode, Vec<u8>))
        ensures
            r.0 == self@.opcode(),
            r.1@ == self@.payload(),
    {
        match self {
            Command::Ping => (OpCode::Ping, Vec::new()),
            Command::Get { key } => {
                let mut buf: Vec<u8> = Vec::new();
                write_prefixed(&mut buf, key);
                assert(buf@ =~= prefixed(key@));
                (OpCode::Get, buf)
            },
            Command::SetKey { key, value, ttl } => {
                let mut buf: Vec<u8> = Vec::new();
                write_prefixed(&mut buf, key);
                write_prefixed(&mut buf, value);
                let t: u64 = match ttl {
                    Some(t) => *t,
                    None => 0,
                };
                put_u64(&mut buf, t);
                assert(buf@ =~= self@.payload());
                (OpCode::SetKey, buf)
            },
            Command::Del { key } => {
                let mut buf: Vec<u8> = Vec::new();
                write_prefixed(&mut buf, key);
                assert(buf@ =~= prefixed(key@));
                (OpCode::Del, buf)
            },
            Command::Exists { key } => {
                let mut buf: Vec<u8> = Vec::new();
                write_prefixed(&mut buf, key);
                assert(buf@ =~= prefixed(key@));
                (OpCode::Exists, buf)
            },
            Command::VAdd { key, vector } => {
                let mut buf: Vec<u8> = Vec::new();
                write_prefixed(&mut buf, key);
                put_u32(&mut buf, vector.len() as u32);
                write_words(&mut buf, vector);
                assert(buf@ =~= self@.payload());
                (OpCode::VAdd, buf)
            },
            Command::VSearch { vector, k } => {
                let mut buf: Vec<u8> = Vec::new();
                put_u32(&mut buf, vector.len() as u32);
                write_words(&mut buf, vector);
                put_u32(&mut buf, *k as u32);
                assert(buf@ =~= self@.payload());
                (OpCode::VSearch, buf)
            },
        }
    }
}

/// A key that was written is read back.
proof fn lemma_key_roundtrip(key: Seq<u8>)
    requires
        key.len() <= u32::MAX,
    ensures
        parse_key(prefixed(key)) == Ok::<Seq<u8>, ProtocolError>(key),
{
    let p = prefixed(key);
    assert(p.subrange(0, 4 + key.len() as int) =~= prefixed(key));
    lemma_prefixed_window(
        p,
        0,
        key,
        ProtocolError::MissingLengthPrefix,
        ProtocolError::MissingPayload,
    );
}

/// A SET that was written is read back.
proof fn lemma_set_roundtrip(key: Seq<u8>, value: Seq<u8>, ttl: Option<u64>)
    requires
        key.len() <= u32::MAX,
        value.len() <= u32::MAX,
        ttl != Some(0u64),
    ensures
        parse_set((CommandModel::SetKey { key, value, ttl }).payload()) == Ok::<
            CommandModel,
            ProtocolError,
        >(CommandModel::SetKey { key, value, ttl }),
{
    let e1 = ProtocolError::MissingLengthPrefix;
    let e2 = ProtocolError::MissingPayload;
    let t: u64 = match ttl {
        Some(t) => t,
        None => 0,
    };
    let p = prefixed(key) + prefixed(value) + u64_be(t);
    assert(p == (CommandModel::SetKey { key, value, ttl }).payload());
    let a: int = 4 + key.len() as int;
    let b: int = a + 4 + value.len() as int;
    assert(p.len() == b + 8);
    assert(p.subrange(0, a) =~= prefixed(key));
    lemma_prefixed_window(p, 0, key, e1, e2);
    assert(p.subrange(a, b) =~= prefixed(value));
    lemma_prefixed_window(p, a, value, e1, e2);
    assert(p.subrange(b, b + 8) =~= u64_be(t));
    lemma_be_u64_window(p, b, t);
}

/// A VADD that was written is read back.
proof fn lemma_vadd_roundtrip(key: Seq<u8>, vector: Seq<u32>)
    requires
        key.len() <= u32::MAX,
        vector.len() <= u32::MAX,
    ensures
        parse_vadd(prefixed(key) + counted_words(vector)) == Ok::<CommandModel, ProtocolError>(
            CommandModel::VAdd { key, vector },
        ),
{
    let p = prefixed(key) + counted_words(vector);
    lemma_words_len(vector);
    let a: int = 4 + key.len() as int;
    assert(p.subrange(0, a) =~= prefixed(key));
    lemma_prefixed_window(
        p,
        0,
        key,
        ProtocolError::MissingLengthPrefix,
        ProtocolError::MissingPayload,
    );
    assert(p.subrange(a, a + 4 + 4 * vector.len()) =~= counted_words(vector));
    lemma_counted_words_window(p, a, vector);
}

/// A VSEARCH that was written is read back.
proof fn lemma_vsearch_roundtrip(vector: Seq<u32>, k: usize)
    requires
        vector.len() <= u32::MAX,
        k <= u32::MAX,
    ensures
        parse_vsearch(counted_words(vector) + u32_be(k as u32)) == Ok::<
            CommandModel,
            ProtocolError,
        >(CommandModel::VSearch { vector, k }),
{
    let p = counted_words(vector) + u32_be(k as u32);
    lemma_words_len(vector);
    let a: int = 4 + 4 * vector.len() as int;
    assert(p.subrange(0, a) =~= counted_words(vector));
    lemma_counted_words_window(p, 0, vector);
    assert(p.subrange(a, a + 4) =~= u32_be(k as u32));
    lemma_be_u32_window(p, a, k as u32);
}

/// Reading what was written gives the request back: for every request
/// whose lengths fit their fields.
pub proof fn lemma_command_roundtrip(c: CommandModel)
    requires
        c.wf(),
    ensures
        parse_command(c.opcode(), c.payload()) == Ok::<CommandModel, ProtocolError>(c),
{
    match c {
        CommandModel::Ping => {},
        CommandModel::Get { key } => {
            lemma_key_roundtrip(key);
        },
        CommandModel::Del { key } => {
            lemma_key_roundtrip(key);
        },
        CommandModel::Exists { key } => {
            lemma_key_roundtrip(key);
        },
        CommandModel::SetKey { key, value, ttl } => {
            lemma_set_roundtrip(key, value, ttl);
        },
        CommandModel::VAdd { key, vector } => {
            lemma_vadd_roundtrip(key, vector);
        },
        CommandModel::VSearch { vector, k } => {
            lemma_vsearch_roundtrip(vector, k);
        },
    }
}

} // verus!
