//! Framing of messages: a one-byte type tag, a four-byte big-endian length
//! that counts itself and the payload but not the tag, then the payload.

use crate::error::Error;
use crate::wire::{be_u32, get_u32, put_u32, u32_be_bytes};
use vstd::prelude::*;
use vstd::slice::{slice_subrange, slice_to_vec};

verus! {

/// Bytes of the length field.
pub const LENGTH_LEN: usize = 4;

/// Bytes before the payload: the tag and the length field.
pub const HEADER_LEN: usize = 5;

/// The longest payload whose length the length field can hold.
pub const MAX_PAYLOAD_LEN: usize = 0xffff_fffb;

/// One message as it travels: its type tag and its payload.
#[derive(Clone, Debug, PartialEq, Eq)]
pub struct Frame {
    pub tag: u8,
    pub payload: Vec<u8>,
}

/// What the start of a byte stream holds.
pub enum Parsed {
    /// The stream ends before the first frame does.
    Incomplete,
    /// The length field is smaller than its own size: no frame starts here.
    Malformed,
    /// A whole frame, which takes up the first `consumed` bytes.
    Complete { tag: u8, payload: Seq<u8>, consumed: nat },
}

/// The bytes of a frame.
pub open spec fn frame_bytes(tag: u8, payload: Seq<u8>) -> Seq<u8>
    recommends
        payload.len() <= MAX_PAYLOAD_LEN,
{
    seq![tag] + u32_be_bytes((payload.len() + LENGTH_LEN) as u32) + payload
}

/// Reads the first frame of a byte stream.
pub open spec fn parse_frame(bytes: Seq<u8>) -> Parsed {
    if bytes.len() < HEADER_LEN {
        Parsed::Incomplete
    } else {
        let length = be_u32(bytes.subrange(1, 5));
        if length < LENGTH_LEN {
            Parsed::Malformed
        } else if bytes.len() < 1 + length {
            Parsed::Incomplete
        } else {
            Parsed::Complete {
                tag: bytes[0],
                payload: bytes.subrange(5, 1 + length),
                consumed: (1 + length) as nat,
            }
        }
    }
}

/// A frame takes up its header and its payload.
pub proof fn lemma_frame_len(tag: u8, payload: Seq<u8>)
    ensures
        frame_bytes(tag, payload).len() == HEADER_LEN + payload.len(),
        frame_bytes(tag, payload)[0] == tag,
{
}

/// Decoding what was encoded gives the tag and the payload back, whatever
/// follows the frame in the stream, for every tag and every payload that the
/// length field can describe: the empty one and the longest one too.
pub proof fn lemma_frame_round_trip(tag: u8, payload: Seq<u8>, rest: Seq<u8>)
    requires
        payload.len() <= MAX_PAYLOAD_LEN,
    ensures
        parse_frame(frame_bytes(tag, payload) + rest) == (Parsed::Complete {
            tag,
            payload,
            consumed: HEADER_LEN as nat + payload.len(),
        }),
{
    let length = (payload.len() + LENGTH_LEN) as u32;
    let bytes = frame_bytes(tag, payload) + rest;
    crate::wire::lemma_be_u32_of_bytes(length);
    assert(bytes.subrange(1, 5) =~= u32_be_bytes(length));
    assert(bytes.subrange(5, 1 + length) =~= payload);
}

/// Encoding what was decoded gives back the bytes that were consumed.
pub proof fn lemma_parsed_frame_bytes(bytes: Seq<u8>)
    requires
        parse_frame(bytes) is Complete,
    ensures
        ({
            let parsed = parse_frame(bytes);
            &&& parsed->payload.len() <= MAX_PAYLOAD_LEN
            &&& parsed->consumed <= bytes.len()
            &&& frame_bytes(parsed->tag, parsed->payload) == bytes.subrange(
                0,
                parsed->consumed as int,
            )
        }),
{
    let parsed = parse_frame(bytes);
    let field = bytes.subrange(1, 5);
    crate::wire::lemma_be_u32_range(field);
    crate::wire::lemma_bytes_of_be_u32(field);
    assert(frame_bytes(parsed->tag, parsed->payload) =~= bytes.subrange(
        0,
        parsed->consumed as int,
    ));
}

/// A stream that stops anywhere inside a frame is incomplete, not malformed.
pub proof fn lemma_frame_prefix_incomplete(tag: u8, payload: Seq<u8>, n: int)
    requires
        payload.len() <= MAX_PAYLOAD_LEN,
        0 <= n < HEADER_LEN + payload.len(),
    ensures
        parse_frame(frame_bytes(tag, payload).subrange(0, n)) is Incomplete,
{
    let length = (payload.len() + LENGTH_LEN) as u32;
    let prefix = frame_bytes(tag, payload).subrange(0, n);
    if n >= HEADER_LEN {
        crate::wire::lemma_be_u32_of_bytes(length);
        assert(prefix.subrange(1, 5) =~= u32_be_bytes(length));
    }
}

/// Bytes that arrive after a whole frame do not change how it is read.
pub proof fn lemma_parse_frame_stable(bytes: Seq<u8>, more: Seq<u8>)
    requires
        parse_frame(bytes) is Complete,
    ensures
        parse_frame(bytes + more) == parse_frame(bytes),
{
    let longer = bytes + more;
    assert(longer.subrange(1, 5) =~= bytes.subrange(1, 5));
    let length = be_u32(bytes.subrange(1, 5));
    assert(longer.subrange(5, 1 + length) =~= bytes.subrange(5, 1 + length));
}

/// A malformed start stays malformed, whatever arrives after it.
pub proof fn lemma_parse_frame_malformed_stable(bytes: Seq<u8>, more: Seq<u8>)
    requires
        parse_frame(bytes) is Malformed,
    ensures
        parse_frame(bytes + more) is Malformed,
{
    assert((bytes + more).subrange(1, 5) =~= bytes.subrange(1, 5));
}

/// Appends the frame of `tag` and `payload` to `buf`. A payload too long for
/// the length field is refused and `buf` stays as it was.
pub fn encode_frame(tag: u8, payload: &[u8], buf: &mut Vec<u8>) -> (r: Result<(), Error>)
    ensures
        payload@.len() <= MAX_PAYLOAD_LEN ==> r.is_ok() && final(buf)@ == old(buf)@ + frame_bytes(
            tag,
            payload@,
        ),
        payload@.len() > MAX_PAYLOAD_LEN ==> r == Err::<(), _>(Error::Protocol) && final(buf)@
            == old(buf)@,
{
    if payload.len() > MAX_PAYLOAD_LEN {
        return Err(Error::Protocol);
    }
    let length: u32 = (payload.len() + LENGTH_LEN) as u32;
    buf.push(tag);
    put_u32(buf, length);
    buf.extend_from_slice(payload);
    assert(buf@ =~= old(buf)@ + frame_bytes(tag, payload@));
    Ok(())
}

/// Reads the first frame of `buf`, and says how many bytes it takes up.
/// `Ok(None)` asks for more bytes: nothing is consumed until a whole frame
/// is there.
pub fn decode_frame(buf: &[u8]) -> (r: Result<Option<(Frame, usize)>, Error>)
    ensures
        match parse_frame(buf@) {
            Parsed::Incomplete => r == Ok::<_, Error>(None::<(Frame, usize)>),
            Parsed::Malformed => r == Err::<Option<(Frame, usize)>, _>(Error::Protocol),
            Parsed::Complete { tag, payload, consumed } => r.is_ok() && r.unwrap().is_some() && {
                let (frame, used) = r.unwrap().unwrap();
                frame.tag == tag && frame.payload@ == payload && used == consumed
            },
        },
{
    if buf.len() < HEADER_LEN {
        return Ok(None);
    }
    let length: usize = match get_u32(buf, 1) {
        Some(n) => n as usize,
        None => return Ok(None),
    };
    if length < LENGTH_LEN {
        return Err(Error::Protocol);
    }
    if buf.len() - 1 < length {
        return Ok(None);
    }
    let payload = slice_to_vec(slice_subrange(buf, HEADER_LEN, 1 + length));
    Ok(Some((Frame { tag: buf[0], payload }, 1 + length)))
}

} // verus!
