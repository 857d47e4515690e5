//! Responses: what the server may answer, and how an answer is written
//! into and read out of a frame.
//!
//! ```text
//! VALUE    raw bytes
//! INTEGER  8 bytes, signed, big-endian
//! ERROR    the message in UTF-8
//! ARRAY    [count]{[itemlen][item]} x count
//! ```

use vstd::prelude::*;
use vstd::utf8::encode_utf8;
use super::frame::{new_frame, Frame, OpCode, ProtocolError};
use super::payload::{
    byte_strings,
    lemma_items_window,
    lemma_prefixed_all_len,
    prefixed_all,
    read_items,
    take_items,
    write_items,
};
use crate::text::{
    lemma_lossy_text_roundtrip, lossy_text, signed_decimal, signed_decimal_text,
    string_from_utf8_lossy,
};
use crate::wire::{
    be_i64_at, be_u32_at, get_i64, get_u32, i64_be, lemma_be_i64_window, lemma_be_u32_window,
    put_u32, u32_be,
};

verus! {

/// An answer to a request.
#[derive(Debug, Clone, PartialEq, Eq)]
pub enum Response {
    /// The request was carried out.
    Okay,
    /// There is no such key.
    Nil,
    /// The value of a key.
    Value(Vec<u8>),
    /// A number.
    Integer(i64),
    /// The request failed, and why.
    Error(String),
    /// The answer to a ping.
    Pong,
    /// A list of byte strings.
    Array(Vec<Vec<u8>>),
}

/// An answer as a value.
pub enum ResponseModel {
    Okay,
    Nil,
    Value(Seq<u8>),
    Integer(i64),
    Error(Seq<char>),
    Pong,
    Array(Seq<Seq<u8>>),
}

impl View for Response {
    type V = ResponseModel;

    open spec fn view(&self) -> ResponseModel {
        match *self {
            Response::Okay => ResponseModel::Okay,
            Response::Nil => ResponseModel::Nil,
            Response::Value(data) => ResponseModel::Value(data@),
            Response::Integer(n) => ResponseModel::Integer(n),
            Response::Error(msg) => ResponseModel::Error(msg@),
            Response::Pong => ResponseModel::Pong,
            Response::Array(items) => ResponseModel::Array(byte_strings(items@)),
        }
    }
}

impl ResponseModel {
    /// The opcode under which this answer travels.
    pub open spec fn opcode(self) -> OpCode {
        match self {
            ResponseModel::Okay => OpCode::Okay,
            ResponseModel::Nil => OpCode::Nil,
            ResponseModel::Value(_) => OpCode::Value,
            ResponseModel::Integer(_) => OpCode::Integer,
            ResponseModel::Error(_) => OpCode::Error,
            ResponseModel::Pong => OpCode::Pong,
            ResponseModel::Array(_) => OpCode::Array,
        }
    }

    /// The payload that this answer is written as.
    pub open spec fn payload(self) -> Seq<u8> {
        match self {
            ResponseModel::Okay => Seq::empty(),
            ResponseModel::Nil => Seq::empty(),
            ResponseModel::Value(data) => data,
            ResponseModel::Integer(n) => i64_be(n),
            ResponseModel::Error(msg) => encode_utf8(msg),
            ResponseModel::Pong => Seq::empty(),
            ResponseModel::Array(items) => u32_be(items.len() as u32) + prefixed_all(items),
        }
    }

    /// Every count and length fits the 32-bit field that announces it.
    pub open spec fn wf(self) -> bool {
        match self {
            ResponseModel::Array(items) => items.len() <= u32::MAX && forall|i: int|
                0 <= i < items.len() ==> (#[trigger] items[i]).len() <= u32::MAX,
            _ => true,
        }
    }

    /// The line that shows this answer to a person.
    pub open spec fn text(self) -> Seq<char> {
        match self {
            ResponseModel::Okay => "OK"@,
            ResponseModel::Nil => "(nil)"@,
            ResponseModel::Value(data) => quoted(data),
            ResponseModel::Integer(n) => "(integer) "@ + signed_decimal_text(n as int),
            ResponseModel::Error(msg) => "(error) "@ + msg,
            ResponseModel::Pong => "PONG"@,
            ResponseModel::Array(items) => "["@ + quoted_list(items) + "]"@,
        }
    }
}

/// A byte string read as text, in double quotes.
pub open spec fn quoted(data: Seq<u8>) -> Seq<char> {
    "\""@ + lossy_text(data) + "\""@
}

/// Byte strings in double quotes, with a comma and a space between them.
pub open spec fn quoted_list(items: Seq<Seq<u8>>) -> Seq<char>
    decreases items.len(),
{
    if items.len() == 0 {
        Seq::empty()
    } else if items.len() == 1 {
        quoted(items[0])
    } else {
        quoted_list(items.drop_last()) + ", "@ + quoted(items.last())
    }
}

/// The answer that a frame with this opcode and payload carries.
pub open spec fn parse_response(opcode: OpCode, payload: Seq<u8>) -> Result<
    ResponseModel,
    ProtocolError,
> {
    match opcode {
        OpCode::Okay => Ok(ResponseModel::Okay),
        OpCode::Nil => Ok(ResponseModel::Nil),
        OpCode::Pong => Ok(ResponseModel::Pong),
        OpCode::Value => Ok(ResponseModel::Value(payload)),
        OpCode::Integer => if payload.len() >= 8 {
            Ok(ResponseModel::Integer(be_i64_at(payload, 0)))
        } else {
            Err(ProtocolError::InvalidInteger)
        },
        OpCode::Error => Ok(ResponseModel::Error(lossy_text(payload))),
        OpCode::Array => if payload.len() < 4 {
            Err(ProtocolError::InvalidArray)
        } else {
            match take_items(
                payload,
                4,
                be_u32_at(payload, 0) as nat,
                ProtocolError::MissingArrayData,
                ProtocolError::MissingItemData,
            ) {
                Ok(items) => Ok(ResponseModel::Array(items.value)),
                Err(e) => Err(e),
            }
        },
        _ => Err(ProtocolError::UnexpectedResponseOpcode(opcode)),
    }
}

/// A parser's result with the answer taken as a value.
pub open spec fn parsed_response_view(r: Result<Response, ProtocolError>) -> Result<
    ResponseModel,
    ProtocolError,
> {
    match r {
        Ok(resp) => Ok(resp@),
        Err(e) => Err(e),
    }
}

fn quote(data: &Vec<u8>) -> (s: String)
    ensures
        s@ == quoted(data@),
{
    let mut s = String::from_str("\"");
    let inner = string_from_utf8_lossy(data);
    s.append(inner.as_str());
    s.append("\"");
    s
}

impl Response {
    /// The frame that carries this answer to request `request_id`.
    pub fn to_frame(&self, request_id: u64) -> (f: Frame)
        ensures
            f@ == new_frame(self@.opcode(), request_id, self@.payload()),
            self@.payload().len() <= u32::MAX ==> f.wf(),
    {
        match self {
            Response::Okay => Frame::ok(request_id),
            Response::Nil => Frame::nil(request_id),
            Response::Value(data) => Frame::value(request_id, data.clone()),
            Response::Integer(n) => Frame::integer(request_id, *n),
            Response::Error(msg) => Frame::error(request_id, msg.as_str()),
            Response::Pong => Frame::pong(request_id),
            Response::Array(items) => {
                let mut buf: Vec<u8> = Vec::new();
                put_u32(&mut buf, items.len() as u32);
                write_items(&mut buf, items);
                assert(buf@ =~= self@.payload());
                Frame::new(OpCode::Array, request_id, buf)
            },
        }
    }

    /// Reads the answer that a frame carries.
    ///
    /// Fails where the opcode is none of an answer, where an integer has
    /// fewer than eight bytes, or where an array ends before its count, an
    /// item's length or an item.
    pub fn from_frame(frame: &Frame) -> (r: Result<Response, ProtocolError>)
        ensures
            parsed_response_view(r) == parse_response(frame.header.opcode, frame.payload@),
    {
        let payload = &frame.payload;
        match frame.header.opcode {
            OpCode::Okay => Ok(Response::Okay),
            OpCode::Nil => Ok(Response::Nil),
            OpCode::Pong => Ok(Response::Pong),
            OpCode::Value => Ok(Response::Value(payload.clone())),
            OpCode::Integer => {
                if payload.len() >= 8 {
                    Ok(Response::Integer(get_i64(payload, 0)))
                } else {
                    Err(ProtocolError::InvalidInteger)
                }
            },
            OpCode::Error => Ok(Response::Error(string_from_utf8_lossy(payload))),
            OpCode::Array => {
                if payload.len() < 4 {
                    return Err(ProtocolError::InvalidArray);
                }
                let count = get_u32(payload, 0);
                let mut at: usize = 4;
                match read_items(
                    payload,
                    &mut at,
                    count as u64,
                    ProtocolError::MissingArrayData,
                    ProtocolError::MissingItemData,
                ) {
                    Ok(items) => Ok(Response::Array(items)),
                    Err(e) => Err(e),
                }
            },
            other => Err(ProtocolError::UnexpectedResponseOpcode(other)),
        }
    }

    /// The line that shows this answer to a person.
    pub fn to_display_string(&self) -> (s: String)
        ensures
            s@ == self@.text(),
    {
        match self {
            Response::Okay => String::from_str("OK"),
            Response::Nil => String::from_str("(nil)"),
            Response::Value(data) => quote(data),
            Response::Integer(n) => {
                let mut s = String::from_str("(integer) ");
                let digits = signed_decimal(*n);
                s.append(digits.as_str());
                s
            },
            Response::Error(msg) => {
                let mut s = String::from_str("(error) ");
                s.append(msg.as_str());
                s
            },
            Response::Pong => String::from_str("PONG"),
            Response::Array(items) => {
                let mut s = String::from_str("[");
                let ghost all = byte_strings(items@);
                let mut i: usize = 0;
                assert(quoted_list(all.take(0)) =~= Seq::<char>::empty());
                while i < items.len()
                    invariant
                        i <= items.len(),
                        all == byte_strings(items@),
                        s@ == "["@ + quoted_list(all.take(i as int)),
                    decreases items.len() - i,
                {
                    if i > 0 {
                        s.append(", ");
                    }
                    let q = quote(&items[i]);
                    s.append(q.as_str());
                    proof {
                        let next = all.take(i + 1);
                        assert(next.drop_last() =~= all.take(i as int));
                        assert(next.last() == items@[i as int]@);
                        assert(s@ =~= "["@ + quoted_list(next));
                    }
                    i += 1;
                }
                assert(all.take(items.len() as int) =~= all);
                s.append("]");
                s
            },
        }
    }
}

/// Reading what was written gives the answer back: for every answer whose
/// counts and lengths fit their fields.
pub proof fn lemma_response_roundtrip(r: ResponseModel)
    requires
        r.wf(),
    ensures
        parse_response(r.opcode(), r.payload()) == Ok::<ResponseModel, ProtocolError>(r),
{
    let p = r.payload();
    match r {
        ResponseModel::Integer(n) => {
            assert(p.subrange(0, 8) =~= i64_be(n));
            lemma_be_i64_window(p, 0, n);
        },
        ResponseModel::Error(msg) => {
            lemma_lossy_text_roundtrip(msg);
        },
        ResponseModel::Array(items) => {
            lemma_prefixed_all_len(items);
            assert(p.subrange(0, 4) =~= u32_be(items.len() as u32));
            lemma_be_u32_window(p, 0, items.len() as u32);
            assert(p.subrange(4, 4 + prefixed_all(items).len() as int) =~= prefixed_all(items));
            lemma_items_window(
                p,
                4,
                items,
                ProtocolError::MissingArrayData,
                ProtocolError::MissingItemData,
            );
        },
        _ => {},
    }
}

} // verus!
