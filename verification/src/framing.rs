//! Frames for a byte stream: each message behind its length.
//!
//! A stream of bytes does not say where one message ends and the next
//! begins, and one read may bring half a message or two at once. A peer
//! that opts into framing sends every message, text included, in its binary
//! encoding behind a four-byte length, least significant byte first, and
//! cuts what it receives at those lengths.

use vstd::prelude::*;
use vstd::bytes::*;
use vstd::slice::*;
use crate::protocol::{Message, MessageView};
use crate::wire::{decode, encode, DecodeError};

verus! {

/// Number of bytes of the length in front of a frame.
pub const FRAME_HEADER_LEN: usize = 4;

/// Longest payload that fits in a frame.
pub const MAX_FRAME_PAYLOAD: usize = 0xffff_ffff;

/// The frame of a payload: its length in four bytes, then the payload.
pub open spec fn framed(payload: Seq<u8>) -> Seq<u8> {
    spec_u32_to_le_bytes(payload.len() as u32) + payload
}

/// What the front of a buffer holds: a whole frame, given by its payload
/// and the bytes after it, or not yet a whole frame.
pub open spec fn first_frame(buffer: Seq<u8>) -> Option<(Seq<u8>, Seq<u8>)> {
    if buffer.len() < FRAME_HEADER_LEN {
        None
    } else {
        let len = spec_u32_from_le_bytes(buffer.subrange(0, FRAME_HEADER_LEN as int));
        if buffer.len() - FRAME_HEADER_LEN < len {
            None
        } else {
            Some(
                (
                    buffer.subrange(FRAME_HEADER_LEN as int, FRAME_HEADER_LEN + len),
                    buffer.skip(FRAME_HEADER_LEN + len),
                ),
            )
        }
    }
}

/// A frame followed by anything is cut exactly at its end: the payload comes
/// back as it was framed, and what follows is left for the next cut.
pub proof fn lemma_frame_is_cut_at_its_end(payload: Seq<u8>, rest: Seq<u8>)
    requires
        payload.len() <= MAX_FRAME_PAYLOAD,
    ensures
        first_frame(framed(payload) + rest) == Some((payload, rest)),
{
    lemma_auto_spec_u32_to_from_le_bytes();
    let buffer = framed(payload) + rest;
    let header = spec_u32_to_le_bytes(payload.len() as u32);
    assert(buffer.subrange(0, FRAME_HEADER_LEN as int) =~= header);
    assert(buffer.subrange(FRAME_HEADER_LEN as int, FRAME_HEADER_LEN + payload.len())
        =~= payload);
    assert(buffer.skip(FRAME_HEADER_LEN + payload.len()) =~= rest);
}

/// A frame that has not arrived in full is not cut: every proper prefix of a
/// frame is reported as incomplete, whatever bytes the payload holds.
pub proof fn lemma_partial_frame_is_incomplete(payload: Seq<u8>, received: int)
    requires
        payload.len() <= MAX_FRAME_PAYLOAD,
        0 <= received < framed(payload).len(),
    ensures
        first_frame(framed(payload).take(received)) is None,
{
    lemma_auto_spec_u32_to_from_le_bytes();
    let header = spec_u32_to_le_bytes(payload.len() as u32);
    let partial = framed(payload).take(received);
    if received >= FRAME_HEADER_LEN {
        assert(partial.subrange(0, FRAME_HEADER_LEN as int) =~= header);
    }
}

/// What is cut off the front of a buffer is a frame of the payload, and the
/// buffer is that frame followed by the rest.
pub proof fn lemma_cut_is_a_frame(buffer: Seq<u8>)
    ensures
        first_frame(buffer) matches Some((payload, rest)) ==> payload.len() <= MAX_FRAME_PAYLOAD
            && buffer == framed(payload) + rest,
{
    lemma_auto_spec_u32_to_from_le_bytes();
    if let Some((payload, rest)) = first_frame(buffer) {
        let header = buffer.subrange(0, FRAME_HEADER_LEN as int);
        assert(spec_u32_to_le_bytes(spec_u32_from_le_bytes(header)) == header);
        assert(buffer =~= framed(payload) + rest);
    }
}

/// Puts a payload behind its length. A payload too long for the length to
/// be written has no frame.
pub fn frame(payload: &[u8]) -> (r: Option<Vec<u8>>)
    ensures
        match r {
            Some(bytes) => payload@.len() <= MAX_FRAME_PAYLOAD && bytes@ == framed(payload@),
            None => payload@.len() > MAX_FRAME_PAYLOAD,
        },
{
    if payload.len() > MAX_FRAME_PAYLOAD {
        return None;
    }
    let mut bytes = u32_to_le_bytes(payload.len() as u32);
    let mut body = slice_to_vec(payload);
    bytes.append(&mut body);
    Some(bytes)
}

/// Cuts the first frame off the front of a buffer: returns its payload and
/// the number of bytes the frame took, or `None` while the frame has not
/// arrived in full.
pub fn take_frame(buffer: &[u8]) -> (r: Option<(Vec<u8>, usize)>)
    ensures
        match r {
            Some((payload, used)) => used <= buffer@.len() && first_frame(buffer@) == Some(
                (payload@, buffer@.skip(used as int)),
            ) && used == FRAME_HEADER_LEN + payload@.len(),
            None => first_frame(buffer@) is None,
        },
{
    if buffer.len() < FRAME_HEADER_LEN {
        return None;
    }
    let len = u32_from_le_bytes(slice_subrange(buffer, 0, FRAME_HEADER_LEN));
    if ((buffer.len() - FRAME_HEADER_LEN) as u64) < len as u64 {
        return None;
    }
    let end = FRAME_HEADER_LEN + len as usize;
    let payload = slice_to_vec(slice_subrange(buffer, FRAME_HEADER_LEN, end));
    Some((payload, end))
}

/// What the front of a buffer of framed messages holds.
#[derive(Debug)]
pub enum FramedRead {
    /// Not yet a whole frame: read more.
    Incomplete,
    /// A frame that holds a message; it took this many bytes.
    Message(Message, usize),
    /// A frame that holds no message; it took this many bytes.
    Invalid(DecodeError, usize),
}

/// The frame in which a message travels, if it has one: the frame of its
/// binary encoding.
pub open spec fn framed_message(m: MessageView) -> Option<Seq<u8>> {
    if m.timestamp.is_valid() && encode(m).len() <= MAX_FRAME_PAYLOAD {
        Some(framed(encode(m)))
    } else {
        None
    }
}

/// Frames a message. A message that cannot be encoded, or whose encoding is
/// too long for a frame, has none.
pub fn frame_message(message: &Message) -> (r: Option<Vec<u8>>)
    ensures
        match r {
            Some(bytes) => framed_message(message@) == Some(bytes@),
            None => framed_message(message@) is None,
        },
{
    match message.serialize() {
        Ok(payload) => frame(payload.as_slice()),
        Err(_) => None,
    }
}

/// Takes the first framed message off the front of a buffer.
pub fn read_framed(buffer: &[u8]) -> (r: FramedRead)
    ensures
        match r {
            FramedRead::Incomplete => first_frame(buffer@) is None,
            FramedRead::Message(message, used) => first_frame(buffer@) matches Some(
                (payload, rest),
            ) && decode(payload) == Ok::<MessageView, DecodeError>(message@) && used
                == FRAME_HEADER_LEN + payload.len() && rest == buffer@.skip(used as int),
            FramedRead::Invalid(error, used) => first_frame(buffer@) matches Some(
                (payload, rest),
            ) && decode(payload) == Err::<MessageView, DecodeError>(error) && used
                == FRAME_HEADER_LEN + payload.len() && rest == buffer@.skip(used as int),
        },
{
    match take_frame(buffer) {
        None => FramedRead::Incomplete,
        Some((payload, used)) => match Message::deserialize(payload.as_slice()) {
            Ok(message) => FramedRead::Message(message, used),
            Err(error) => FramedRead::Invalid(error, used),
        },
    }
}

/// A framed message is read back as it was sent, whatever follows it in the
/// buffer.
pub proof fn lemma_framed_message_is_read_back(m: MessageView, rest: Seq<u8>)
    requires
        framed_message(m) is Some,
        crate::wire::encodable(m),
    ensures
        first_frame(framed_message(m)->0 + rest) == Some((encode(m), rest)),
        decode(encode(m)) == Ok::<MessageView, DecodeError>(m),
{
    lemma_frame_is_cut_at_its_end(encode(m), rest);
    crate::wire::lemma_decode_encode(m);
}

} // verus!
