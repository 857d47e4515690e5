//! Extended requests: several keys at once, counters, and walks over the
//! key space.
//!
//! ```text
//! MGET, MDEL      [count]{[keylen][key]} x count
//! MSET            [count]{[keylen][key][vallen][value]} x count
//! INCR, DECR      [keylen][key]
//! INCRBY, DECRBY  [keylen][key][delta, 8 bytes, signed]
//! SCAN            [cursor, 8 bytes][count, 4 bytes]([patlen][pattern])?
//! KEYS            ([patlen][pattern])?
//! ```

use vstd::prelude::*;
use super::command::parse_key;
use super::frame::{Frame, OpCode, ProtocolError};
use super::payload::{
    byte_pairs, byte_strings, lemma_items_window, lemma_prefixed_all_len, lemma_prefixed_window,
    prefixed, prefixed_all, read_items, read_prefixed, take_items, take_prefixed, write_items,
    write_prefixed, Taken,
};
use crate::wire::{
    be_i64_at, be_u32_at, be_u64_at, get_i64, get_u32, get_u64, i64_be, lemma_be_i64_window,
    lemma_be_u32_window, lemma_be_u64_window, lemma_three_windows, put_i64, put_u32, put_u64,
        u32_be, u64_be,
};

verus! {

/// An extended request.
#[derive(Debug, Clone, PartialEq, Eq)]
pub enum ExtendedCommand {
    /// Get several keys at once.
    MGet { keys: Vec<Vec<u8>> },
    /// Store several key-value pairs.
    MSet { pairs: Vec<(Vec<u8>, Vec<u8>)> },
    /// Delete several keys.
    MDel { keys: Vec<Vec<u8>> },
    /// Increment by one.
    Incr { key: Vec<u8> },
    /// Decrement by one.
    Decr { key: Vec<u8> },
    /// Increment by `delta`.
    IncrBy { key: Vec<u8>, delta: i64 },
    /// Decrement by `delta`.
    DecrBy { key: Vec<u8>, delta: i64 },
    /// Walk over the keys from a cursor, `count` at a time.
    Scan { cursor: u64, pattern: Option<Vec<u8>>, count: u32 },
    /// All keys that match a pattern.
    Keys { pattern: Option<Vec<u8>> },
}

/// An extended request as a value.
pub enum ExtendedModel {
    MGet { keys: Seq<Seq<u8>> },
    MSet { pairs: Seq<(Seq<u8>, Seq<u8>)> },
    MDel { keys: Seq<Seq<u8>> },
    Incr { key: Seq<u8> },
    Decr { key: Seq<u8> },
    IncrBy { key: Seq<u8>, delta: i64 },
    DecrBy { key: Seq<u8>, delta: i64 },
    Scan { cursor: u64, pattern: Option<Seq<u8>>, count: u32 },
    Keys { pattern: Option<Seq<u8>> },
}

/// The byte string that an optional buffer holds.
pub open spec fn optional_bytes(o: Option<Vec<u8>>) -> Option<Seq<u8>> {
    match o {
        Some(v) => Some(v@),
        None => None,
    }
}

impl View for ExtendedCommand {
    type V = ExtendedModel;

    open spec fn view(&self) -> ExtendedModel {
        match *self {
            ExtendedCommand::MGet { keys } => ExtendedModel::MGet { keys: byte_strings(keys@) },
            ExtendedCommand::MSet { pairs } => ExtendedModel::MSet { pairs: byte_pairs(pairs@) },
            ExtendedCommand::MDel { keys } => ExtendedModel::MDel { keys: byte_strings(keys@) },
            ExtendedCommand::Incr { key } => ExtendedModel::Incr { key: key@ },
            ExtendedCommand::Decr { key } => ExtendedModel::Decr { key: key@ },
            ExtendedCommand::IncrBy { key, delta } => ExtendedModel::IncrBy { key: key@, delta },
            ExtendedCommand::DecrBy { key, delta } => ExtendedModel::DecrBy { key: key@, delta },
            ExtendedCommand::Scan { cursor, pattern, count } => ExtendedModel::Scan {
                cursor,
                pattern: optional_bytes(pattern),
                count,
            },
            ExtendedCommand::Keys { pattern } => ExtendedModel::Keys {
                pattern: optional_bytes(pattern),
            },
        }
    }
}

/// Keys and values in the order in which a list of pairs is written.
pub open spec fn interleaved(pairs: Seq<(Seq<u8>, Seq<u8>)>) -> Seq<Seq<u8>> {
    Seq::new(
        2 * pairs.len(),
        |i: int|
            if i % 2 == 0 {
                pairs[i / 2].0
            } else {
                pairs[i / 2].1
            },
    )
}

/// The pairs that a list of strings, read two by two, makes.
pub open spec fn paired(items: Seq<Seq<u8>>) -> Seq<(Seq<u8>, Seq<u8>)> {
    Seq::new(items.len() / 2, |i: int| (items[2 * i], items[2 * i + 1]))
}

/// A list of keys behind its count.
pub open spec fn counted_keys(keys: Seq<Seq<u8>>) -> Seq<u8> {
    u32_be(keys.len() as u32) + prefixed_all(keys)
}

impl ExtendedModel {
    /// The opcode under which this request travels.
    pub open spec fn opcode(self) -> OpCode {
        match self {
            ExtendedModel::MGet { .. } => OpCode::MGet,
            ExtendedModel::MSet { .. } => OpCode::MSet,
            ExtendedModel::MDel { .. } => OpCode::MDel,
            ExtendedModel::Incr { .. } => OpCode::Incr,
            ExtendedModel::Decr { .. } => OpCode::Decr,
            ExtendedModel::IncrBy { .. } => OpCode::IncrBy,
            ExtendedModel::DecrBy { .. } => OpCode::DecrBy,
            ExtendedModel::Scan { .. } => OpCode::Scan,
            ExtendedModel::Keys { .. } => OpCode::Keys,
        }
    }

    /// The payload that this request is written as.
    pub open spec fn payload(self) -> Seq<u8> {
        match self {
            ExtendedModel::MGet { keys } => counted_keys(keys),
            ExtendedModel::MSet { pairs } => u32_be(pairs.len() as u32) + prefixed_all(
                interleaved(pairs),
            ),
            ExtendedModel::MDel { keys } => counted_keys(keys),
            ExtendedModel::Incr { key } => prefixed(key),
            ExtendedModel::Decr { key } => prefixed(key),
            ExtendedModel::IncrBy { key, delta } => prefixed(key) + i64_be(delta),
            ExtendedModel::DecrBy { key, delta } => prefixed(key) + i64_be(delta),
            ExtendedModel::Scan { cursor, pattern, count } => u64_be(cursor) + u32_be(count)
                + match pattern {
                Some(p) => prefixed(p),
                None => Seq::empty(),
            },
            ExtendedModel::Keys { pattern } => match pattern {
                Some(p) => prefixed(p),
                None => Seq::empty(),
            },
        }
    }

    /// Every count and length fits the 32-bit field that announces it.
    pub open spec fn wf(self) -> bool {
        match self {
            ExtendedModel::MGet { keys } => keys.len() <= u32::MAX && forall|i: int|
                0 <= i < keys.len() ==> (#[trigger] keys[i]).len() <= u32::MAX,
            ExtendedModel::MDel { keys } => keys.len() <= u32::MAX && forall|i: int|
                0 <= i < keys.len() ==> (#[trigger] keys[i]).len() <= u32::MAX,
            ExtendedModel::MSet { pairs } => pairs.len() <= u32::MAX && forall|i: int|
                0 <= i < pairs.len() ==> (#[trigger] pairs[i]).0.len() <= u32::MAX
                    && pairs[i].1.len() <= u32::MAX,
            ExtendedModel::Incr { key } => key.len() <= u32::MAX,
            ExtendedModel::Decr { key } => key.len() <= u32::MAX,
            ExtendedModel::IncrBy { key, .. } => key.len() <= u32::MAX,
            ExtendedModel::DecrBy { key, .. } => key.len() <= u32::MAX,
            ExtendedModel::Scan { pattern, .. } => pattern matches Some(p) ==> p.len()
                <= u32::MAX,
            ExtendedModel::Keys { pattern } => pattern matches Some(p) ==> p.len() <= u32::MAX,
        }
    }
}

/// The list of `per_entry` strings per entry that a counted payload holds.
pub open spec fn parse_counted(payload: Seq<u8>, per_entry: nat) -> Result<
    Seq<Seq<u8>>,
    ProtocolError,
> {
    if payload.len() < 4 {
        Err(ProtocolError::MissingCount)
    } else {
        match take_items(
            payload,
            4,
            per_entry * be_u32_at(payload, 0) as nat,
            ProtocolError::MissingLengthPrefix,
            ProtocolError::MissingPayload,
        ) {
            Ok(items) => Ok(items.value),
            Err(e) => Err(e),
        }
    }
}

/// The key and the delta that an INCRBY or DECRBY payload holds.
pub open spec fn parse_key_delta(payload: Seq<u8>) -> Result<(Seq<u8>, i64), ProtocolError> {
    match take_prefixed(
        payload,
        0,
        ProtocolError::MissingLengthPrefix,
        ProtocolError::MissingPayload,
    ) {
        Err(e) => Err(e),
        Ok(key) => if payload.len() - key.next < 8 {
            Err(ProtocolError::MissingField)
        } else {
            Ok((key.value, be_i64_at(payload, key.next)))
        },
    }
}

/// The pattern that the rest of a payload from `at` holds, if any is left.
pub open spec fn parse_pattern(payload: Seq<u8>, at: int) -> Result<
    Option<Seq<u8>>,
    ProtocolError,
> {
    if payload.len() - at <= 0 {
        Ok(None)
    } else {
        match take_prefixed(
            payload,
            at,
            ProtocolError::MissingLengthPrefix,
            ProtocolError::MissingPayload,
        ) {
            Ok(p) => Ok(Some(p.value)),
            Err(e) => Err(e),
        }
    }
}

/// The extended request that a frame with this opcode and payload carries.
pub open spec fn parse_extended(opcode: OpCode, payload: Seq<u8>) -> Result<
    ExtendedModel,
    ProtocolError,
> {
    match opcode {
        OpCode::MGet => match parse_counted(payload, 1) {
            Ok(keys) => Ok(ExtendedModel::MGet { keys }),
            Err(e) => Err(e),
        },
        OpCode::MSet => match parse_counted(payload, 2) {
            Ok(items) => Ok(ExtendedModel::MSet { pairs: paired(items) }),
            Err(e) => Err(e),
        },
        OpCode::MDel => match parse_counted(payload, 1) {
            Ok(keys) => Ok(ExtendedModel::MDel { keys }),
            Err(e) => Err(e),
        },
        OpCode::Incr => match parse_key(payload) {
            Ok(key) => Ok(ExtendedModel::Incr { key }),
            Err(e) => Err(e),
        },
        OpCode::Decr => match parse_key(payload) {
            Ok(key) => Ok(ExtendedModel::Decr { key }),
            Err(e) => Err(e),
        },
        OpCode::IncrBy => match parse_key_delta(payload) {
            Ok(kd) => Ok(ExtendedModel::IncrBy { key: kd.0, delta: kd.1 }),
            Err(e) => Err(e),
        },
        OpCode::DecrBy => match parse_key_delta(payload) {
            Ok(kd) => Ok(ExtendedModel::DecrBy { key: kd.0, delta: kd.1 }),
            Err(e) => Err(e),
        },
        OpCode::Scan => if payload.len() < 12 {
            Err(ProtocolError::MissingField)
        } else {
            match parse_pattern(payload, 12) {
                Ok(pattern) => Ok(
                    ExtendedModel::Scan {
                        cursor: be_u64_at(payload, 0),
                        pattern,
                        count: be_u32_at(payload, 8),
                    },
                ),
                Err(e) => Err(e),
            }
        },
        OpCode::Keys => match parse_pattern(payload, 0) {
            Ok(pattern) => Ok(ExtendedModel::Keys { pattern }),
            Err(e) => Err(e),
        },
        _ => Err(ProtocolError::UnknownExtendedOpcode(opcode)),
    }
}

/// A parser's result with the request taken as a value.
pub open spec fn parsed_extended_view(r: Result<ExtendedCommand, ProtocolError>) -> Result<
    ExtendedModel,
    ProtocolError,
> {
    match r {
        Ok(c) => Ok(c@),
        Err(e) => Err(e),
    }
}

fn read_single_key(payload: &Vec<u8>) -> (r: Result<Vec<u8>, ProtocolError>)
    ensures
        match parse_key(payload@) {
            Ok(key) => r matches Ok(k) && k@ == key,
            Err(e) => r == Err::<Vec<u8>, ProtocolError>(e),
        },
{
    let mut at: usize = 0;
    read_prefixed(
        payload,
        &mut at,
        ProtocolError::MissingLengthPrefix,
        ProtocolError::MissingPayload,
    )
}

fn read_key_list(payload: &Vec<u8>) -> (r: Result<Vec<Vec<u8>>, ProtocolError>)
    ensures
        match parse_counted(payload@, 1) {
            Ok(keys) => r matches Ok(k) && byte_strings(k@) == keys,
            Err(e) => r == Err::<Vec<Vec<u8>>, ProtocolError>(e),
        },
{
    if payload.len() < 4 {
        return Err(ProtocolError::MissingCount);
    }
    let count = get_u32(payload, 0);
    let mut at: usize = 4;
    read_items(
        payload,
        &mut at,
        count as u64,
        ProtocolError::MissingLengthPrefix,
        ProtocolError::MissingPayload,
    )
}

fn read_kv_pairs(payload: &Vec<u8>) -> (r: Result<Vec<(Vec<u8>, Vec<u8>)>, ProtocolError>)
    ensures
        match parse_counted(payload@, 2) {
            Ok(items) => r matches Ok(p) && byte_pairs(p@) == paired(items),
            Err(e) => r == Err::<Vec<(Vec<u8>, Vec<u8>)>, ProtocolError>(e),
        },
{
    if payload.len() < 4 {
        return Err(ProtocolError::MissingCount);
    }
    let count = get_u32(payload, 0);
    let mut at: usize = 4;
    let items = match read_items(
        payload,
        &mut at,
        2 * (count as u64),
        ProtocolError::MissingLengthPrefix,
        ProtocolError::MissingPayload,
    ) {
        Ok(items) => items,
        Err(e) => {
            return Err(e);
        },
    };
    let ghost flat = byte_strings(items@);
    let mut pairs: Vec<(Vec<u8>, Vec<u8>)> = Vec::new();
    let mut i: usize = 0;
    while i + 1 < items.len()
        invariant
            i % 2 == 0,
            i <= items.len(),
            flat == byte_strings(items@),
            pairs@.len() == i / 2,
            forall|j: int|
                0 <= j < pairs@.len() ==> (#[trigger] pairs@[j]).0@ == flat[2 * j]
                    && pairs@[j].1@ == flat[2 * j + 1],
        decreases items.len() - i,
    {
        let key = items[i].clone();
        let value = items[i + 1].clone();
        pairs.push((key, value));
        i += 2;
    }
    assert(byte_pairs(pairs@) =~= paired(flat));
    Ok(pairs)
}

fn read_key_delta(payload: &Vec<u8>) -> (r: Result<(Vec<u8>, i64), ProtocolError>)
    ensures
        match parse_key_delta(payload@) {
            Ok(kd) => r matches Ok(got) && got.0@ == kd.0 && got.1 == kd.1,
            Err(e) => r == Err::<(Vec<u8>, i64), ProtocolError>(e),
        },
{
    let mut at: usize = 0;
    let key = match read_prefixed(
        payload,
        &mut at,
        ProtocolError::MissingLengthPrefix,
        ProtocolError::MissingPayload,
    ) {
        Ok(key) => key,
        Err(e) => {
            return Err(e);
        },
    };
    if payload.len() - at < 8 {
        return Err(ProtocolError::MissingField);
    }
    let delta = get_i64(payload, at);
    Ok((key, delta))
}

fn read_pattern(payload: &Vec<u8>, at: usize) -> (r: Result<Option<Vec<u8>>, ProtocolError>)
    requires
        at <= payload.len(),
    ensures
        match parse_pattern(payload@, at as int) {
            Ok(p) => r matches Ok(got) && optional_bytes(got) == p,
            Err(e) => r == Err::<Option<Vec<u8>>, ProtocolError>(e),
        },
{
    if payload.len() - at == 0 {
        return Ok(None);
    }
    let mut pos = at;
    match read_prefixed(
        payload,
        &mut pos,
        ProtocolError::MissingLengthPrefix,
        ProtocolError::MissingPayload,
    ) {
        Ok(p) => Ok(Some(p)),
        Err(e) => Err(e),
    }
}

fn write_single_key(key: &Vec<u8>) -> (buf: Vec<u8>)
    ensures
        buf@ == prefixed(key@),
{
    let mut buf: Vec<u8> = Vec::new();
    write_prefixed(&mut buf, key);
    assert(buf@ =~= prefixed(key@));
    buf
}

fn write_key_list(keys: &Vec<Vec<u8>>) -> (buf: Vec<u8>)
    ensures
        buf@ == counted_keys(byte_strings(keys@)),
{
    let mut buf: Vec<u8> = Vec::new();
    put_u32(&mut buf, keys.len() as u32);
    write_items(&mut buf, keys);
    assert(buf@ =~= counted_keys(byte_strings(keys@)));
    buf
}

fn write_kv_pairs(pairs: &Vec<(Vec<u8>, Vec<u8>)>) -> (buf: Vec<u8>)
    ensures
        buf@ == u32_be(pairs@.len() as u32) + prefixed_all(interleaved(byte_pairs(pairs@))),
{
    let mut buf: Vec<u8> = Vec::new();
    put_u32(&mut buf, pairs.len() as u32);
    let ghost head = buf@;
    let ghost flat = interleaved(byte_pairs(pairs@));
    let mut i: usize = 0;
    assert(flat.skip(0) =~= flat);
    while i < pairs.len()
        invariant
            i <= pairs.len(),
            flat == interleaved(byte_pairs(pairs@)),
            buf@ + prefixed_all(flat.skip(2 * i)) == head + prefixed_all(flat),
        decreases pairs.len() - i,
    {
        let ghost before = buf@;
        write_prefixed(&mut buf, &pairs[i].0);
        write_prefixed(&mut buf, &pairs[i].1);
        proof {
            let rest = flat.skip(2 * i);
            let rest1 = rest.skip(1);
            assert(rest[0] == pairs@[i as int].0@);
            assert(rest1[0] == pairs@[i as int].1@);
            assert(rest1.skip(1) =~= flat.skip(2 * (i + 1)));
            assert(prefixed_all(rest) == prefixed(rest[0]) + prefixed_all(rest1));
            assert(prefixed_all(rest1) == prefixed(rest1[0]) + prefixed_all(rest1.skip(1)));
            assert(buf@ + prefixed_all(flat.skip(2 * (i + 1))) =~= before + prefixed_all(rest));
        }
        i += 1;
    }
    assert(prefixed_all(flat.skip(2 * pairs.len())) =~= Seq::<u8>::empty());
    assert(buf@ =~= head + prefixed_all(flat));
    buf
}

impl ExtendedCommand {
    /// Reads the extended request that a frame carries.
    ///
    /// Fails where the opcode is none of an extended request, or where the
    /// payload ends before a count, a length, a string or a fixed-size
    /// field that the request needs.
    pub fn from_frame(frame: &Frame) -> (r: Result<ExtendedCommand, ProtocolError>)
        ensures
            parsed_extended_view(r) == parse_extended(frame.header.opcode, frame.payload@),
    {
        let payload = &frame.payload;
        match frame.header.opcode {
            OpCode::MGet => match read_key_list(payload) {
                Ok(keys) => Ok(ExtendedCommand::MGet { keys }),
                Err(e) => Err(e),
            },
            OpCode::MSet => match read_kv_pairs(payload) {
                Ok(pairs) => Ok(ExtendedCommand::MSet { pairs }),
                Err(e) => Err(e),
            },
            OpCode::MDel => match read_key_list(payload) {
                Ok(keys) => Ok(ExtendedCommand::MDel { keys }),
                Err(e) => Err(e),
            },
            OpCode::Incr => match read_single_key(payload) {
                Ok(key) => Ok(ExtendedCommand::Incr { key }),
                Err(e) => Err(e),
            },
            OpCode::Decr => match read_single_key(payload) {
                Ok(key) => Ok(ExtendedCommand::Decr { key }),
                Err(e) => Err(e),
            },
            OpCode::IncrBy => match read_key_delta(payload) {
                Ok(kd) => Ok(ExtendedCommand::IncrBy { key: kd.0, delta: kd.1 }),
                Err(e) => Err(e),
            },
            OpCode::DecrBy => match read_key_delta(payload) {
                Ok(kd) => Ok(ExtendedCommand::DecrBy { key: kd.0, delta: kd.1 }),
                Err(e) => Err(e),
            },
            OpCode::Scan => {
                if payload.len() < 12 {
                    return Err(ProtocolError::MissingField);
                }
                let cursor = get_u64(payload, 0);
                let count = get_u32(payload, 8);
                match read_pattern(payload, 12) {
                    Ok(pattern) => Ok(ExtendedCommand::Scan { cursor, pattern, count }),
                    Err(e) => Err(e),
                }
            },
            OpCode::Keys => match read_pattern(payload, 0) {
                Ok(pattern) => Ok(ExtendedCommand::Keys { pattern }),
                Err(e) => Err(e),
            },
            other => Err(ProtocolError::UnknownExtendedOpcode(other)),
        }
    }

    /// The opcode and the payload that this request travels as.
    pub fn encode(&self) -> (r: (OpCode, Vec<u8>))
        ensures
            r.0 == self@.opcode(),
            r.1@ == self@.payload(),
    {
        match self {
            ExtendedCommand::MGet { keys } => (OpCode::MGet, write_key_list(keys)),
            ExtendedCommand::MSet { pairs } => (OpCode::MSet, write_kv_pairs(pairs)),
            ExtendedCommand::MDel { keys } => (OpCode::MDel, write_key_list(keys)),
            ExtendedCommand::Incr { key } => (OpCode::Incr, write_single_key(key)),
            ExtendedCommand::Decr { key } => (OpCode::Decr, write_single_key(key)),
            ExtendedCommand::IncrBy { key, delta } => {
                let mut buf = write_single_key(key);
                put_i64(&mut buf, *delta);
                (OpCode::IncrBy, buf)
            },
            ExtendedCommand::DecrBy { key, delta } => {
                let mut buf = write_single_key(key);
                put_i64(&mut buf, *delta);
                (OpCode::DecrBy, buf)
            },
            ExtendedCommand::Scan { cursor, pattern, count } => {
                let mut buf: Vec<u8> = Vec::new();
                put_u64(&mut buf, *cursor);
                put_u32(&mut buf, *count);
                match pattern {
                    Some(p) => {
                        write_prefixed(&mut buf, p);
                    },
                    None => {},
                }
                assert(buf@ =~= self@.payload());
                (OpCode::Scan, buf)
            },
            ExtendedCommand::Keys { pattern } => match pattern {
                Some(p) => (OpCode::Keys, write_single_key(p)),
                None => (OpCode::Keys, Vec::new()),
            },
        }
    }
}

/// Items that were written behind their count are read back.
proof fn lemma_counted_roundtrip(items: Seq<Seq<u8>>, count: nat, per_entry: nat)
    requires
        count <= u32::MAX,
        items.len() == per_entry * count,
        forall|i: int| 0 <= i < items.len() ==> (#[trigger] items[i]).len() <= u32::MAX,
    ensures
        parse_counted(u32_be(count as u32) + prefixed_all(items), per_entry) == Ok::<
            Seq<Seq<u8>>,
            ProtocolError,
        >(items),
{
    let p = u32_be(count as u32) + prefixed_all(items);
    lemma_prefixed_all_len(items);
    assert(p.subrange(0, 4) =~= u32_be(count as u32));
    lemma_be_u32_window(p, 0, count as u32);
    assert(p.subrange(4, 4 + prefixed_all(items).len() as int) =~= prefixed_all(items));
    lemma_items_window(
        p,
        4,
        items,
        ProtocolError::MissingLengthPrefix,
        ProtocolError::MissingPayload,
    );
}

/// A key that was written, with what follows it, is read back.
proof fn lemma_single_key_roundtrip(key: Seq<u8>, tail: Seq<u8>)
    requires
        key.len() <= u32::MAX,
    ensures
        take_prefixed(
            prefixed(key) + tail,
            0,
            ProtocolError::MissingLengthPrefix,
            ProtocolError::MissingPayload,
        ) == Ok::<Taken<Seq<u8>>, ProtocolError>(Taken { value: key, next: 4 + key.len() as int }),
{
    let p = prefixed(key) + tail;
    assert(p.subrange(0, 4 + key.len() as int) =~= prefixed(key));
    lemma_prefixed_window(
        p,
        0,
        key,
        ProtocolError::MissingLengthPrefix,
        ProtocolError::MissingPayload,
    );
}

/// A key and a delta that were written are read back.
proof fn lemma_key_delta_roundtrip(key: Seq<u8>, delta: i64)
    requires
        key.len() <= u32::MAX,
    ensures
        parse_key_delta(prefixed(key) + i64_be(delta)) == Ok::<(Seq<u8>, i64), ProtocolError>(
            (key, delta),
        ),
{
    let p = prefixed(key) + i64_be(delta);
    lemma_single_key_roundtrip(key, i64_be(delta));
    let a: int = 4 + key.len() as int;
    assert(p.subrange(a, a + 8) =~= i64_be(delta));
    lemma_be_i64_window(p, a, delta);
}

/// An optional pattern that was written is read back.
proof fn lemma_pattern_roundtrip(head: Seq<u8>, pattern: Option<Seq<u8>>)
    requires
        pattern matches Some(p) ==> p.len() <= u32::MAX,
    ensures
        parse_pattern(
            head + match pattern {
                Some(p) => prefixed(p),
                None => Seq::empty(),
            },
            head.len() as int,
        ) == Ok::<Option<Seq<u8>>, ProtocolError>(pattern),
{
    match pattern {
        Some(pat) => {
            let p = head + prefixed(pat);
            let a = head.len() as int;
            assert(p.subrange(a, a + 4 + pat.len()) =~= prefixed(pat));
            lemma_prefixed_window(
                p,
                a,
                pat,
                ProtocolError::MissingLengthPrefix,
                ProtocolError::MissingPayload,
            );
        },
        None => {},
    }
}

/// A SCAN that was written is read back.
proof fn lemma_scan_roundtrip(cursor: u64, pattern: Option<Seq<u8>>, count: u32)
    requires
        pattern matches Some(p) ==> p.len() <= u32::MAX,
    ensures
        parse_extended(OpCode::Scan, (ExtendedModel::Scan { cursor, pattern, count }).payload())
            == Ok::<ExtendedModel, ProtocolError>(ExtendedModel::Scan { cursor, pattern, count }),
{
    let a = u64_be(cursor);
    let b = u32_be(count);
    let tail: Seq<u8> = match pattern {
        Some(p) => prefixed(p),
        None => Seq::empty(),
    };
    let p = (ExtendedModel::Scan { cursor, pattern, count }).payload();
    assert(p == a + b + tail);
    assert(a.len() == 8 && b.len() == 4);
    lemma_three_windows(a, b, tail);
    lemma_be_u64_window(p, 0, cursor);
    lemma_be_u32_window(p, 8, count);
    lemma_pattern_roundtrip(a + b, pattern);
}

/// A list of keys that was written is read back.
proof fn lemma_keys_roundtrip(keys: Seq<Seq<u8>>)
    requires
        keys.len() <= u32::MAX,
        forall|i: int| 0 <= i < keys.len() ==> (#[trigger] keys[i]).len() <= u32::MAX,
    ensures
        parse_extended(OpCode::MGet, counted_keys(keys)) == Ok::<ExtendedModel, ProtocolError>(
            ExtendedModel::MGet { keys },
        ),
        parse_extended(OpCode::MDel, counted_keys(keys)) == Ok::<ExtendedModel, ProtocolError>(
            ExtendedModel::MDel { keys },
        ),
{
    lemma_counted_roundtrip(keys, keys.len(), 1);
}

/// What stands at each place of an interleaved list.
proof fn lemma_interleaved(pairs: Seq<(Seq<u8>, Seq<u8>)>)
    ensures
        interleaved(pairs).len() == 2 * pairs.len(),
        forall|k: int|
            0 <= k < pairs.len() ==> interleaved(pairs)[2 * k] == (#[trigger] pairs[k]).0
                && interleaved(pairs)[2 * k + 1] == pairs[k].1,
        paired(interleaved(pairs)) == pairs,
{
    let flat = interleaved(pairs);
    assert forall|k: int| 0 <= k < pairs.len() implies flat[2 * k] == (#[trigger] pairs[k]).0
        && flat[2 * k + 1] == pairs[k].1 by {
        assert((2 * k) % 2 == 0 && (2 * k) / 2 == k);
        assert((2 * k + 1) % 2 == 1 && (2 * k + 1) / 2 == k);
    }
    let back = paired(flat);
    assert(back.len() == pairs.len());
    assert forall|k: int| 0 <= k < pairs.len() implies back[k] == pairs[k] by {
        assert(flat[2 * k] == pairs[k].0 && flat[2 * k + 1] == pairs[k].1);
    }
    assert(back =~= pairs);
}

/// Keys and values in turn are twice as many items as pairs, each as long
/// as the key or value it is.
proof fn lemma_interleaved_lengths(pairs: Seq<(Seq<u8>, Seq<u8>)>)
    requires
        forall|i: int|
            0 <= i < pairs.len() ==> (#[trigger] pairs[i]).0.len() <= u32::MAX && pairs[i].1.len()
                <= u32::MAX,
    ensures
        forall|i: int|
            0 <= i < interleaved(pairs).len() ==> (#[trigger] interleaved(pairs)[i]).len()
                <= u32::MAX,
{
    let flat = interleaved(pairs);
    assert forall|i: int| 0 <= i < flat.len() implies (#[trigger] flat[i]).len() <= u32::MAX by {
        let j = i / 2;
        assert(0 <= j < pairs.len());
        assert(pairs[j].0.len() <= u32::MAX && pairs[j].1.len() <= u32::MAX);
    }
}

/// Pairs that were written are read back.
proof fn lemma_pairs_roundtrip(pairs: Seq<(Seq<u8>, Seq<u8>)>)
    requires
        pairs.len() <= u32::MAX,
        forall|i: int|
            0 <= i < pairs.len() ==> (#[trigger] pairs[i]).0.len() <= u32::MAX && pairs[i].1.len()
                <= u32::MAX,
    ensures
        parse_extended(
            OpCode::MSet,
            u32_be(pairs.len() as u32) + prefixed_all(interleaved(pairs)),
        ) == Ok::<ExtendedModel, ProtocolError>(ExtendedModel::MSet { pairs }),
{
    let flat = interleaved(pairs);
    lemma_interleaved(pairs);
    lemma_interleaved_lengths(pairs);
    lemma_counted_roundtrip(flat, pairs.len(), 2);
}

/// An INCR or DECR that was written is read back.
proof fn lemma_counter_roundtrip(key: Seq<u8>)
    requires
        key.len() <= u32::MAX,
    ensures
        parse_extended(OpCode::Incr, prefixed(key)) == Ok::<ExtendedModel, ProtocolError>(
            ExtendedModel::Incr { key },
        ),
        parse_extended(OpCode::Decr, prefixed(key)) == Ok::<ExtendedModel, ProtocolError>(
            ExtendedModel::Decr { key },
        ),
{
    lemma_single_key_roundtrip(key, Seq::empty());
    assert(prefixed(key) + Seq::<u8>::empty() =~= prefixed(key));
}

/// An INCRBY or DECRBY that was written is read back.
proof fn lemma_delta_roundtrip(key: Seq<u8>, delta: i64)
    requires
        key.len() <= u32::MAX,
    ensures
        parse_extended(OpCode::IncrBy, prefixed(key) + i64_be(delta)) == Ok::<
            ExtendedModel,
            ProtocolError,
        >(ExtendedModel::IncrBy { key, delta }),
        parse_extended(OpCode::DecrBy, prefixed(key) + i64_be(delta)) == Ok::<
            ExtendedModel,
            ProtocolError,
        >(ExtendedModel::DecrBy { key, delta }),
{
    lemma_key_delta_roundtrip(key, delta);
}

/// A KEYS that was written is read back.
proof fn lemma_keys_pattern_roundtrip(pattern: Option<Seq<u8>>)
    requires
        pattern matches Some(p) ==> p.len() <= u32::MAX,
    ensures
        parse_extended(OpCode::Keys, (ExtendedModel::Keys { pattern }).payload()) == Ok::<
            ExtendedModel,
            ProtocolError,
        >(ExtendedModel::Keys { pattern }),
{
    lemma_pattern_roundtrip(Seq::empty(), pattern);
    match pattern {
        Some(p) => {
            assert(Seq::<u8>::empty() + prefixed(p) =~= prefixed(p));
        },
        None => {
            assert(Seq::<u8>::empty() + Seq::<u8>::empty() =~= Seq::<u8>::empty());
        },
    }
}

/// Reading what was written gives the extended request back: for every
/// request whose counts and lengths fit their fields.
pub proof fn lemma_extended_roundtrip(c: ExtendedModel)
    requires
        c.wf(),
    ensures
        parse_extended(c.opcode(), c.payload()) == Ok::<ExtendedModel, ProtocolError>(c),
{
    match c {
        ExtendedModel::MGet { keys } => {
            lemma_keys_roundtrip(keys);
        },
        ExtendedModel::MDel { keys } => {
            lemma_keys_roundtrip(keys);
        },
        ExtendedModel::MSet { pairs } => {
            lemma_pairs_roundtrip(pairs);
        },
        ExtendedModel::Incr { key } => {
            lemma_counter_roundtrip(key);
        },
        ExtendedModel::Decr { key } => {
            lemma_counter_roundtrip(key);
        },
        ExtendedModel::IncrBy { key, delta } => {
            lemma_delta_roundtrip(key, delta);
        },
        ExtendedModel::DecrBy { key, delta } => {
            lemma_delta_roundtrip(key, delta);
        },
        ExtendedModel::Scan { cursor, pattern, count } => {
            lemma_scan_roundtrip(cursor, pattern, count);
        },
        ExtendedModel::Keys { pattern } => {
            lemma_keys_pattern_roundtrip(pattern);
        },
    }
}

} // verus!
