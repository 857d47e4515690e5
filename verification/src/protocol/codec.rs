//! Stream codec: cuts a byte stream into frames and writes frames to a
//! byte buffer.
//!
//! The decoder keeps a header that it has read until the payload that the
//! header announces has arrived, so input may come in pieces of any size.

use vstd::prelude::*;
use super::command::{lemma_command_roundtrip, parse_command, CommandModel};
use super::frame::{
    frame_bytes, header_bytes, lemma_header_roundtrip, new_frame, parse_header, Frame,
    FrameHeader, FrameModel, ProtocolError, HEADER_SIZE,
};
use super::response::{lemma_response_roundtrip, parse_response, ResponseModel};

verus! {

/// What one call of the decoder does: its result, the header it keeps for
/// the next call, and the input it leaves in the buffer.
pub struct DecodeStep {
    pub result: Result<Option<FrameModel>, ProtocolError>,
    pub pending: Option<FrameHeader>,
    pub rest: Seq<u8>,
}

/// The step taken once a header is known: wait for the payload, or hand
/// the frame out.
pub open spec fn payload_step(h: FrameHeader, input: Seq<u8>) -> DecodeStep {
    if input.len() < h.payload_len {
        DecodeStep { result: Ok(None), pending: Some(h), rest: input }
    } else {
        DecodeStep {
            result: Ok(Some(FrameModel { header: h, payload: input.take(h.payload_len as int) })),
            pending: None,
            rest: input.skip(h.payload_len as int),
        }
    }
}

/// The step that the decoder takes on `input`, given the header it kept
/// from the call before and its payload limit.
pub open spec fn decode_step(pending: Option<FrameHeader>, max_payload: u32, input: Seq<u8>)
    -> DecodeStep {
    match pending {
        Some(h) => payload_step(h, input),
        None => {
            if input.len() < HEADER_SIZE {
                DecodeStep { result: Ok(None), pending: None, rest: input }
            } else {
                match parse_header(input.take(HEADER_SIZE as int)) {
                    Err(e) => DecodeStep {
                        result: Err(e),
                        pending: None,
                        rest: input.skip(HEADER_SIZE as int),
                    },
                    Ok(h) => {
                        if h.payload_len > max_payload {
                            DecodeStep {
                                result: Err(ProtocolError::PayloadTooLarge(h.payload_len)),
                                pending: None,
                                rest: input.skip(HEADER_SIZE as int),
                            }
                        } else {
                            payload_step(h, input.skip(HEADER_SIZE as int))
                        }
                    },
                }
            }
        },
    }
}

/// A decoder's result with each frame taken as a value.
pub open spec fn decoded_view(r: Result<Option<Frame>, ProtocolError>) -> Result<
    Option<FrameModel>,
    ProtocolError,
> {
    match r {
        Ok(Some(f)) => Ok(Some(f@)),
        Ok(None) => Ok(None),
        Err(e) => Err(e),
    }
}

/// The step taken when the peer has closed the stream: input that is left
/// over, or a header without its payload, is a truncated frame.
pub open spec fn eof_step(pending: Option<FrameHeader>, max_payload: u32, input: Seq<u8>)
    -> DecodeStep {
    let step = decode_step(pending, max_payload, input);
    if step.result == Ok::<Option<FrameModel>, ProtocolError>(None) && (step.pending is Some
        || step.rest.len() > 0) {
        DecodeStep { result: Err(ProtocolError::TruncatedFrame), ..step }
    } else {
        step
    }
}

/// Decoder and encoder of frames on a byte stream.
#[derive(Debug)]
pub struct VcpCodec {
    pending: Option<FrameHeader>,
    max_payload: u32,
}

/// Removes the first `n` bytes of `src` and returns them.
fn split_front(src: &mut Vec<u8>, n: usize) -> (head: Vec<u8>)
    requires
        n <= old(src).len(),
    ensures
        head@ == old(src)@.take(n as int),
        final(src)@ == old(src)@.skip(n as int),
{
    let mut tail = src.split_off(n);
    std::mem::swap(src, &mut tail);
    tail
}

impl VcpCodec {
    /// The header read by an earlier call whose payload has not arrived.
    pub closed spec fn pending(&self) -> Option<FrameHeader> {
        self.pending
    }

    /// The largest payload length that this codec accepts.
    pub closed spec fn max_payload(&self) -> u32 {
        self.max_payload
    }

    /// A codec at the start of a stream that accepts every payload length.
    pub fn new() -> (c: VcpCodec)
        ensures
            c.pending() is None,
            c.max_payload() == u32::MAX,
    {
        VcpCodec { pending: None, max_payload: u32::MAX }
    }

    /// A codec at the start of a stream that refuses frames whose declared
    /// payload length is over `max_payload`.
    pub fn with_max_payload(max_payload: u32) -> (c: VcpCodec)
        ensures
            c.pending() is None,
            c.max_payload() == max_payload,
    {
        VcpCodec { pending: None, max_payload }
    }

    /// Takes the next frame off the front of `src`, if all of it is there.
    ///
    /// Returns `Ok(None)` while the header or the payload is incomplete;
    /// what was read so far is kept. A header with a wrong magic, an unknown
    /// opcode or a payload length over the limit is consumed and reported.
    pub fn decode(&mut self, src: &mut Vec<u8>) -> (r: Result<Option<Frame>, ProtocolError>)
        ensures
            decoded_view(r) == decode_step(
                old(self).pending(),
                old(self).max_payload(),
                old(src)@,
            ).result,
            final(self).pending() == decode_step(
                old(self).pending(),
                old(self).max_payload(),
                old(src)@,
            ).pending,
            final(src)@ == decode_step(
                old(self).pending(),
                old(self).max_payload(),
                old(src)@,
            ).rest,
            final(self).max_payload() == old(self).max_payload(),
    {
        let header = match self.pending {
            Some(h) => h,
            None => {
                if src.len() < HEADER_SIZE {
                    return Ok(None);
                }
                let head = split_front(src, HEADER_SIZE);
                match FrameHeader::decode(&head) {
                    Err(e) => {
                        return Err(e);
                    },
                    Ok(h) => {
                        if h.payload_len > self.max_payload {
                            return Err(ProtocolError::PayloadTooLarge(h.payload_len));
                        }
                        h
                    },
                }
            },
        };
        if src.len() < header.payload_len as usize {
            self.pending = Some(header);
            return Ok(None);
        }
        let payload = split_front(src, header.payload_len as usize);
        self.pending = None;
        Ok(Some(Frame { header, payload }))
    }

    /// As `decode`, for the last call after the peer has closed: input that
    /// makes no whole frame is an error.
    pub fn decode_eof(&mut self, src: &mut Vec<u8>) -> (r: Result<Option<Frame>, ProtocolError>)
        ensures
            decoded_view(r) == eof_step(
                old(self).pending(),
                old(self).max_payload(),
                old(src)@,
            ).result,
            final(self).pending() == eof_step(
                old(self).pending(),
                old(self).max_payload(),
                old(src)@,
            ).pending,
            final(src)@ == eof_step(old(self).pending(), old(self).max_payload(), old(src)@).rest,
            final(self).max_payload() == old(self).max_payload(),
    {
        match self.decode(src) {
            Ok(None) => {
                if self.pending.is_some() || src.len() > 0 {
                    Err(ProtocolError::TruncatedFrame)
                } else {
                    Ok(None)
                }
            },
            other => other,
        }
    }

    /// Appends the bytes of `item` to `dst`.
    pub fn encode(&mut self, item: Frame, dst: &mut Vec<u8>) -> (r: Result<(), ProtocolError>)
        ensures
            r is Ok,
            final(dst)@ == old(dst)@ + frame_bytes(item@),
            *final(self) == *old(self),
    {
        item.encode(dst);
        Ok(())
    }
}

/// Decoding what was encoded gives the frame back and leaves what came
/// after it: for every well-formed frame within the payload limit, read by
/// a decoder that holds no header.
pub proof fn lemma_frame_roundtrip(f: FrameModel, max_payload: u32, rest: Seq<u8>)
    requires
        f.wf(),
        f.header.payload_len <= max_payload,
    ensures
        decode_step(None, max_payload, frame_bytes(f) + rest) == (DecodeStep {
            result: Ok(Some(f)),
            pending: None,
            rest,
        }),
{
    let input = frame_bytes(f) + rest;
    lemma_header_roundtrip(f.header, Seq::empty());
    assert(header_bytes(f.header) + Seq::<u8>::empty() =~= header_bytes(f.header));
    assert(input.take(HEADER_SIZE as int) =~= header_bytes(f.header));
    let after = input.skip(HEADER_SIZE as int);
    assert(after =~= f.payload + rest);
    assert(after.take(f.header.payload_len as int) =~= f.payload);
    assert(after.skip(f.header.payload_len as int) =~= rest);
}

/// A request that is written to a stream as a frame is read from it as
/// the same request under the same identifier: for every request whose
/// lengths fit their fields and whose payload is within the limit.
pub proof fn lemma_request_roundtrip(
    c: CommandModel,
    request_id: u64,
    max_payload: u32,
    rest: Seq<u8>,
)
    requires
        c.wf(),
        c.payload().len() <= max_payload,
    ensures
        ({
            let f = new_frame(c.opcode(), request_id, c.payload());
            &&& decode_step(None, max_payload, frame_bytes(f) + rest) == (DecodeStep {
                result: Ok(Some(f)),
                pending: None,
                rest,
            })
            &&& f.header.request_id == request_id
            &&& parse_command(f.header.opcode, f.payload) == Ok::<CommandModel, ProtocolError>(c)
        }),
{
    lemma_frame_roundtrip(new_frame(c.opcode(), request_id, c.payload()), max_payload, rest);
    lemma_command_roundtrip(c);
}

/// An answer that is written to a stream as a frame is read from it as
/// the same answer under the same identifier: for every answer whose
/// counts and lengths fit their fields and whose payload is within the
/// limit.
pub proof fn lemma_reply_roundtrip(
    r: ResponseModel,
    request_id: u64,
    max_payload: u32,
    rest: Seq<u8>,
)
    requires
        r.wf(),
        r.payload().len() <= max_payload,
    ensures
        ({
            let f = new_frame(r.opcode(), request_id, r.payload());
            &&& decode_step(None, max_payload, frame_bytes(f) + rest) == (DecodeStep {
                result: Ok(Some(f)),
                pending: None,
                rest,
            })
            &&& f.header.request_id == request_id
            &&& parse_response(f.header.opcode, f.payload) == Ok::<ResponseModel, ProtocolError>(r)
        }),
{
    lemma_frame_roundtrip(new_frame(r.opcode(), request_id, r.payload()), max_payload, rest);
    lemma_response_roundtrip(r);
}

/// A frame that arrives in two pieces is read as if it had arrived whole:
/// the first call keeps what it has, the second hands the frame out.
pub proof fn lemma_frame_in_two_pieces(f: FrameModel, max_payload: u32, cut: int)
    requires
        f.wf(),
        f.header.payload_len <= max_payload,
        0 <= cut < frame_bytes(f).len(),
    ensures
        ({
            let first = decode_step(None, max_payload, frame_bytes(f).take(cut));
            let second = decode_step(
                first.pending,
                max_payload,
                first.rest + frame_bytes(f).skip(cut),
            );
            &&& first.result == Ok::<Option<FrameModel>, ProtocolError>(None)
            &&& second == (DecodeStep { result: Ok(Some(f)), pending: None, rest: Seq::empty() })
        }),
{
    let whole = frame_bytes(f);
    let head = whole.take(cut);
    let tail = whole.skip(cut);
    lemma_frame_roundtrip(f, max_payload, Seq::empty());
    assert(whole + Seq::<u8>::empty() =~= whole);
    lemma_header_roundtrip(f.header, Seq::empty());
    assert(header_bytes(f.header) + Seq::<u8>::empty() =~= header_bytes(f.header));
    if cut < HEADER_SIZE {
        assert(head + tail =~= whole);
    } else {
        assert(head.take(HEADER_SIZE as int) =~= header_bytes(f.header));
        let got = head.skip(HEADER_SIZE as int);
        assert(got.len() < f.header.payload_len);
        assert(got + tail =~= f.payload);
        assert((got + tail).take(f.header.payload_len as int) =~= f.payload);
        assert((got + tail).skip(f.header.payload_len as int) =~= Seq::<u8>::empty());
    }
}

} // verus!
