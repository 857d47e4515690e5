//! Client side of the protocol: the requests that a client sends, and
//! what it makes of the responses.
//!
//! The connection itself belongs to the program around the library: it
//! writes the frames that `Client` makes and feeds the bytes that it
//! reads into `read_response`.

use vstd::prelude::*;
use vstd::utf8::encode_utf8;
use crate::counter::{wrapped_sum, wrapping_sum};
use crate::protocol::codec::{decode_step, VcpCodec};
use crate::protocol::command::{Command, CommandModel};
use crate::protocol::frame::{new_frame, Frame};
use crate::protocol::payload::byte_strings;
use crate::protocol::response::{parse_response, Response, ResponseModel};
use crate::text::{lossy_text, string_from_utf8_lossy};

verus! {

/// What can go wrong for a client.
#[derive(Debug, Clone, PartialEq, Eq)]
pub enum Error {
    /// The server sent what the protocol does not allow, or not the kind
    /// of response that the request asks for.
    Protocol(String),
    /// The server answered with an error.
    Server(String),
    /// The connection was closed.
    ConnectionClosed,
}

/// An error as a value.
pub enum ErrorModel {
    Protocol(Seq<char>),
    Server(Seq<char>),
    ConnectionClosed,
}

impl View for Error {
    type V = ErrorModel;

    open spec fn view(&self) -> ErrorModel {
        match *self {
            Error::Protocol(m) => ErrorModel::Protocol(m@),
            Error::Server(m) => ErrorModel::Server(m@),
            Error::ConnectionClosed => ErrorModel::ConnectionClosed,
        }
    }
}

/// The error for a response of the wrong kind: the server's message where
/// the response is an error, and what was expected otherwise.
pub open spec fn unexpected(response: ResponseModel, expected: Seq<char>) -> ErrorModel {
    match response {
        ResponseModel::Error(e) => ErrorModel::Server(e),
        _ => ErrorModel::Protocol(expected),
    }
}

/// The texts that a list of byte strings stands for.
pub open spec fn lossy_texts(items: Seq<Seq<u8>>) -> Seq<Seq<char>> {
    Seq::new(items.len(), |i: int| lossy_text(items[i]))
}

fn refuse(response: Response, expected: &str) -> (e: Error)
    ensures
        e@ == unexpected(response@, expected@),
{
    match response {
        Response::Error(msg) => Error::Server(msg),
        _ => Error::Protocol(String::from_str(expected)),
    }
}

/// The answer to a PING: nothing, if the response is PONG.
pub fn expect_pong(response: Response) -> (r: Result<(), Error>)
    ensures
        r is Ok <==> response@ is Pong,
        r matches Err(e) ==> e@ == unexpected(response@, "Expected PONG"@),
{
    match response {
        Response::Pong => Ok(()),
        other => Err(refuse(other, "Expected PONG")),
    }
}

/// The answer to a SET or a VADD: nothing, if the response is OK.
pub fn expect_ok(response: Response) -> (r: Result<(), Error>)
    ensures
        r is Ok <==> response@ is Okay,
        r matches Err(e) ==> e@ == unexpected(response@, "Expected OK"@),
{
    match response {
        Response::Okay => Ok(()),
        other => Err(refuse(other, "Expected OK")),
    }
}

/// The answer to a GET: the value as text, or nothing for NIL.
pub fn expect_value(response: Response) -> (r: Result<Option<String>, Error>)
    ensures
        match response@ {
            ResponseModel::Value(bytes) => r matches Ok(Some(text)) && text@ == lossy_text(bytes),
            ResponseModel::Nil => r == Ok::<Option<String>, Error>(None),
            other => r matches Err(e) && e@ == unexpected(other, "Expected Value or Nil"@),
        },
{
    match response {
        Response::Value(bytes) => Ok(Some(string_from_utf8_lossy(&bytes))),
        Response::Nil => Ok(None),
        other => Err(refuse(other, "Expected Value or Nil")),
    }
}

/// The answer to a DEL or an EXISTS: whether the integer is above zero.
pub fn expect_flag(response: Response) -> (r: Result<bool, Error>)
    ensures
        match response@ {
            ResponseModel::Integer(n) => r == Ok::<bool, Error>(n > 0),
            other => r matches Err(e) && e@ == unexpected(other, "Expected Integer"@),
        },
{
    match response {
        Response::Integer(n) => Ok(n > 0),
        other => Err(refuse(other, "Expected Integer")),
    }
}

/// The answer to a VSEARCH: the keys as texts.
pub fn expect_keys(response: Response) -> (r: Result<Vec<String>, Error>)
    ensures
        match response@ {
            ResponseModel::Array(items) => r matches Ok(keys) && crate::text::texts(keys@)
                == lossy_texts(items),
            other => r matches Err(e) && e@ == unexpected(other, "Expected Array"@),
        },
{
    match response {
        Response::Array(items) => {
            let mut keys: Vec<String> = Vec::new();
            let mut i: usize = 0;
            while i < items.len()
                invariant
                    i <= items@.len(),
                    keys@.len() == i,
                    forall|j: int| 0 <= j < i ==> (#[trigger] keys@[j])@ == lossy_text(items@[j]@),
                decreases items@.len() - i,
            {
                keys.push(string_from_utf8_lossy(&items[i]));
                i += 1;
            }
            assert(crate::text::texts(keys@) =~= lossy_texts(byte_strings(items@)));
            Ok(keys)
        },
        other => Err(refuse(other, "Expected Array")),
    }
}

/// What a client keeps between requests: the next request identifier, and
/// the decoder of the responses.
pub struct Client {
    next_req_id: u64,
    codec: VcpCodec,
}

impl Client {
    /// The identifier of the next request.
    pub closed spec fn next_id(&self) -> u64 {
        self.next_req_id
    }

    /// The decoder of the responses.
    pub closed spec fn codec(&self) -> VcpCodec {
        self.codec
    }

    /// A client whose first request has the identifier 1.
    pub fn new() -> (c: Client)
        ensures
            c.next_id() == 1,
            c.codec().pending() is None,
            c.codec().max_payload() == u32::MAX,
    {
        Client { next_req_id: 1, codec: VcpCodec::new() }
    }

    /// The frame of the next request; the identifier after it is one
    /// more.
    pub fn request(&mut self, command: &Command) -> (f: Frame)
        ensures
            f@ == new_frame(command@.opcode(), old(self).next_id(), command@.payload()),
            final(self).next_id() == wrapped_sum(old(self).next_id(), 1),
            final(self).codec() == old(self).codec(),
    {
        let req_id = self.next_req_id;
        self.next_req_id = wrapping_sum(self.next_req_id, 1);
        let (opcode, payload) = command.encode();
        Frame::new(opcode, req_id, payload)
    }

    /// The request to store a value under a key, both as texts.
    pub fn set_command(key: &str, value: &str, ttl: Option<u64>) -> (c: Command)
        ensures
            c@ == (CommandModel::SetKey {
                key: encode_utf8(key@),
                value: encode_utf8(value@),
                ttl,
            }),
    {
        Command::SetKey { key: key.as_bytes_vec(), value: value.as_bytes_vec(), ttl }
    }

    /// The request for the value of a key.
    pub fn get_command(key: &str) -> (c: Command)
        ensures
            c@ == (CommandModel::Get { key: encode_utf8(key@) }),
    {
        Command::Get { key: key.as_bytes_vec() }
    }

    /// The request to delete a key.
    pub fn del_command(key: &str) -> (c: Command)
        ensures
            c@ == (CommandModel::Del { key: encode_utf8(key@) }),
    {
        Command::Del { key: key.as_bytes_vec() }
    }

    /// The question whether a key is there.
    pub fn exists_command(key: &str) -> (c: Command)
        ensures
            c@ == (CommandModel::Exists { key: encode_utf8(key@) }),
    {
        Command::Exists { key: key.as_bytes_vec() }
    }

    /// The request to store a vector under a key; the components are the
    /// bit patterns of IEEE-754 singles.
    pub fn vadd_command(key: &str, vector: Vec<u32>) -> (c: Command)
        ensures
            c@ == (CommandModel::VAdd { key: encode_utf8(key@), vector: vector@ }),
    {
        Command::VAdd { key: key.as_bytes_vec(), vector }
    }

    /// The request for the `k` keys whose vectors are nearest to a vector.
    pub fn vsearch_command(vector: Vec<u32>, k: usize) -> (c: Command)
        ensures
            c@ == (CommandModel::VSearch { vector: vector@, k }),
    {
        Command::VSearch { vector, k }
    }

    /// Takes the next response off the front of the bytes that were read.
    ///
    /// Returns nothing while the response is incomplete. A frame that the
    /// protocol does not allow, or that carries no response, is a protocol
    /// error with its message.
    pub fn read_response(&mut self, buffer: &mut Vec<u8>) -> (r: Result<Option<Response>, Error>)
        ensures
            final(self).next_id() == old(self).next_id(),
            ({
                let step = decode_step(
                    old(self).codec().pending(),
                    old(self).codec().max_payload(),
                    old(buffer)@,
                );
                &&& final(buffer)@ == step.rest
                &&& final(self).codec().pending() == step.pending
                &&& final(self).codec().max_payload() == old(self).codec().max_payload()
                &&& match step.result {
                    Ok(None) => r matches Ok(None),
                    Ok(Some(frame)) => match parse_response(frame.header.opcode, frame.payload) {
                        Ok(response) => r matches Ok(Some(got)) && got@ == response,
                        Err(e) => r matches Err(err) && err@ == ErrorModel::Protocol(e.text()),
                    },
                    Err(e) => r matches Err(err) && err@ == ErrorModel::Protocol(e.text()),
                }
            }),
    {
        match self.codec.decode(buffer) {
            Ok(None) => Ok(None),
            Ok(Some(frame)) => match Response::from_frame(&frame) {
                Ok(response) => Ok(Some(response)),
                Err(e) => Err(Error::Protocol(e.message())),
            },
            Err(e) => Err(Error::Protocol(e.message())),
        }
    }
}

} // verus!
