//! Messages that the backend sends, as typed values.

use crate::backend_key_data::{BackendKeyData, BACKEND_KEY_DATA_LEN};
use crate::error::Error;
use crate::frame::{encode_frame, Frame, MAX_PAYLOAD_LEN};
use crate::wire::{be_u32, get_u32, put_u32, u32_be_bytes};
use vstd::prelude::*;
use vstd::slice::{slice_subrange, slice_to_vec};

verus! {

pub const TAG_AUTHENTICATION: u8 = 0x52;

pub const TAG_PARAMETER_STATUS: u8 = 0x53;

pub const TAG_BACKEND_KEY_DATA: u8 = 0x4b;

pub const TAG_READY_FOR_QUERY: u8 = 0x5a;

pub const TAG_PARSE_COMPLETE: u8 = 0x31;

pub const TAG_BIND_COMPLETE: u8 = 0x32;

pub const TAG_CLOSE_COMPLETE: u8 = 0x33;

pub const TAG_NO_DATA: u8 = 0x6e;

pub const TAG_PARAMETER_DESCRIPTION: u8 = 0x74;

pub const TAG_ROW_DESCRIPTION: u8 = 0x54;

pub const TAG_DATA_ROW: u8 = 0x44;

pub const TAG_COMMAND_COMPLETE: u8 = 0x43;

pub const TAG_ERROR_RESPONSE: u8 = 0x45;

/// A message from the backend. Payloads that this layer does not take apart
/// are kept as the bytes that arrived: they need not be UTF-8.
#[derive(Clone, Debug, PartialEq, Eq)]
pub enum BackendMessage {
    /// An authentication request or its outcome: a method code and the
    /// data that belongs to the method.
    Authentication { method: u32, data: Vec<u8> },
    /// A configuration parameter of the backend.
    ParameterStatus(Vec<u8>),
    BackendKeyData(BackendKeyData),
    /// The backend is ready for the next request; the byte is its
    /// transaction status.
    ReadyForQuery(u8),
    ParseComplete,
    BindComplete,
    CloseComplete,
    /// The statement returns no rows.
    NoData,
    ParameterDescription(Vec<u8>),
    RowDescription(Vec<u8>),
    DataRow(Vec<u8>),
    CommandComplete(Vec<u8>),
    ErrorResponse(Vec<u8>),
}

/// A backend message as a mathematical value.
pub enum Message {
    Authentication { method: u32, data: Seq<u8> },
    ParameterStatus(Seq<u8>),
    BackendKeyData(BackendKeyData),
    ReadyForQuery(u8),
    ParseComplete,
    BindComplete,
    CloseComplete,
    NoData,
    ParameterDescription(Seq<u8>),
    RowDescription(Seq<u8>),
    DataRow(Seq<u8>),
    CommandComplete(Seq<u8>),
    ErrorResponse(Seq<u8>),
}

impl View for BackendMessage {
    type V = Message;

    open spec fn view(&self) -> Message {
        match self {
            BackendMessage::Authentication { method, data } => Message::Authentication {
                method: *method,
                data: data@,
            },
            BackendMessage::ParameterStatus(p) => Message::ParameterStatus(p@),
            BackendMessage::BackendKeyData(k) => Message::BackendKeyData(*k),
            BackendMessage::ReadyForQuery(s) => Message::ReadyForQuery(*s),
            BackendMessage::ParseComplete => Message::ParseComplete,
            BackendMessage::BindComplete => Message::BindComplete,
            BackendMessage::CloseComplete => Message::CloseComplete,
            BackendMessage::NoData => Message::NoData,
            BackendMessage::ParameterDescription(p) => Message::ParameterDescription(p@),
            BackendMessage::RowDescription(p) => Message::RowDescription(p@),
            BackendMessage::DataRow(p) => Message::DataRow(p@),
            BackendMessage::CommandComplete(p) => Message::CommandComplete(p@),
            BackendMessage::ErrorResponse(p) => Message::ErrorResponse(p@),
        }
    }
}

/// Whether `tag` is the type tag of a message that this client knows.
pub open spec fn known_tag(tag: u8) -> bool {
    tag == TAG_AUTHENTICATION || tag == TAG_PARAMETER_STATUS || tag == TAG_BACKEND_KEY_DATA || tag
        == TAG_READY_FOR_QUERY || tag == TAG_PARSE_COMPLETE || tag == TAG_BIND_COMPLETE || tag
        == TAG_CLOSE_COMPLETE || tag == TAG_NO_DATA || tag == TAG_PARAMETER_DESCRIPTION || tag
        == TAG_ROW_DESCRIPTION || tag == TAG_DATA_ROW || tag == TAG_COMMAND_COMPLETE || tag
        == TAG_ERROR_RESPONSE
}

impl Message {
    /// The type tag under which the message travels.
    pub open spec fn tag(self) -> u8 {
        match self {
            Message::Authentication { .. } => TAG_AUTHENTICATION,
            Message::ParameterStatus(_) => TAG_PARAMETER_STATUS,
            Message::BackendKeyData(_) => TAG_BACKEND_KEY_DATA,
            Message::ReadyForQuery(_) => TAG_READY_FOR_QUERY,
            Message::ParseComplete => TAG_PARSE_COMPLETE,
            Message::BindComplete => TAG_BIND_COMPLETE,
            Message::CloseComplete => TAG_CLOSE_COMPLETE,
            Message::NoData => TAG_NO_DATA,
            Message::ParameterDescription(_) => TAG_PARAMETER_DESCRIPTION,
            Message::RowDescription(_) => TAG_ROW_DESCRIPTION,
            Message::DataRow(_) => TAG_DATA_ROW,
            Message::CommandComplete(_) => TAG_COMMAND_COMPLETE,
            Message::ErrorResponse(_) => TAG_ERROR_RESPONSE,
        }
    }

    /// The payload of the message.
    pub open spec fn payload(self) -> Seq<u8> {
        match self {
            Message::Authentication { method, data } => u32_be_bytes(method) + data,
            Message::ParameterStatus(p) => p,
            Message::BackendKeyData(k) => k.payload(),
            Message::ReadyForQuery(s) => seq![s],
            Message::ParseComplete => Seq::empty(),
            Message::BindComplete => Seq::empty(),
            Message::CloseComplete => Seq::empty(),
            Message::NoData => Seq::empty(),
            Message::ParameterDescription(p) => p,
            Message::RowDescription(p) => p,
            Message::DataRow(p) => p,
            Message::CommandComplete(p) => p,
            Message::ErrorResponse(p) => p,
        }
    }

    /// Reads a message from the tag and the payload of a frame: an unknown
    /// tag is unsupported, and a payload that does not fit its tag is a
    /// protocol error.
    pub open spec fn parse(tag: u8, payload: Seq<u8>) -> Result<Message, Error> {
        if tag == TAG_AUTHENTICATION {
            if payload.len() < 4 {
                Err(Error::Protocol)
            } else {
                Ok(
                    Message::Authentication {
                        method: be_u32(payload.subrange(0, 4)) as u32,
                        data: payload.subrange(4, payload.len() as int),
                    },
                )
            }
        } else if tag == TAG_PARAMETER_STATUS {
            Ok(Message::ParameterStatus(payload))
        } else if tag == TAG_BACKEND_KEY_DATA {
            if payload.len() < BACKEND_KEY_DATA_LEN {
                Err(Error::Protocol)
            } else {
                Ok(Message::BackendKeyData(BackendKeyData::from_payload(payload)))
            }
        } else if tag == TAG_READY_FOR_QUERY {
            if payload.len() != 1 {
                Err(Error::Protocol)
            } else {
                Ok(Message::ReadyForQuery(payload[0]))
            }
        } else if tag == TAG_PARSE_COMPLETE {
            Self::parse_empty(Message::ParseComplete, payload)
        } else if tag == TAG_BIND_COMPLETE {
            Self::parse_empty(Message::BindComplete, payload)
        } else if tag == TAG_CLOSE_COMPLETE {
            Self::parse_empty(Message::CloseComplete, payload)
        } else if tag == TAG_NO_DATA {
            Self::parse_empty(Message::NoData, payload)
        } else if tag == TAG_PARAMETER_DESCRIPTION {
            Ok(Message::ParameterDescription(payload))
        } else if tag == TAG_ROW_DESCRIPTION {
            Ok(Message::RowDescription(payload))
        } else if tag == TAG_DATA_ROW {
            Ok(Message::DataRow(payload))
        } else if tag == TAG_COMMAND_COMPLETE {
            Ok(Message::CommandComplete(payload))
        } else if tag == TAG_ERROR_RESPONSE {
            Ok(Message::ErrorResponse(payload))
        } else {
            Err(Error::UnsupportedMessage(tag))
        }
    }

    /// A message without content, which travels with an empty payload.
    pub open spec fn parse_empty(message: Message, payload: Seq<u8>) -> Result<Message, Error> {
        if payload.len() == 0 {
            Ok(message)
        } else {
            Err(Error::Protocol)
        }
    }
}

/// Decoding what a message is encoded as gives the message back, for every
/// kind of message: those with an empty payload too.
pub proof fn lemma_message_round_trip(message: Message)
    ensures
        known_tag(message.tag()),
        Message::parse(message.tag(), message.payload()) == Ok::<_, Error>(message),
{
    match message {
        Message::Authentication { method, data } => {
            let payload = message.payload();
            crate::wire::lemma_be_u32_of_bytes(method);
            assert(payload.subrange(0, 4) =~= u32_be_bytes(method));
            assert(payload.subrange(4, payload.len() as int) =~= data);
        },
        Message::BackendKeyData(key) => {
            BackendKeyData::lemma_payload_round_trip(key);
        },
        _ => {},
    }
}

/// A frame is refused as unsupported exactly when its tag is unknown, and
/// the error then names that tag.
pub proof fn lemma_unsupported_iff_unknown_tag(tag: u8, payload: Seq<u8>)
    ensures
        Message::parse(tag, payload) is Err && Message::parse(tag, payload)->Err_0
            is UnsupportedMessage <==> !known_tag(tag),
        !known_tag(tag) ==> Message::parse(tag, payload) == Err::<Message, _>(
            Error::UnsupportedMessage(tag),
        ),
{
}

/// A message that was read from a frame travels under the tag of that frame.
pub proof fn lemma_parsed_tag(tag: u8, payload: Seq<u8>)
    requires
        Message::parse(tag, payload) is Ok,
    ensures
        Message::parse(tag, payload)->Ok_0.tag() == tag,
{
}

impl BackendMessage {
    /// Reads the message that a frame holds.
    pub fn decode(frame: &Frame) -> (r: Result<BackendMessage, Error>)
        ensures
            match Message::parse(frame.tag, frame.payload@) {
                Ok(message) => r.is_ok() && r.unwrap()@ == message,
                Err(e) => r.is_err() && r.unwrap_err() == e,
            },
    {
        let payload = frame.payload.as_slice();
        let tag = frame.tag;
        if tag == TAG_AUTHENTICATION {
            match get_u32(payload, 0) {
                Some(method) => {
                    let data = slice_to_vec(slice_subrange(payload, 4, payload.len()));
                    Ok(BackendMessage::Authentication { method, data })
                },
                None => Err(Error::Protocol),
            }
        } else if tag == TAG_PARAMETER_STATUS {
            Ok(BackendMessage::ParameterStatus(slice_to_vec(payload)))
        } else if tag == TAG_BACKEND_KEY_DATA {
            match BackendKeyData::decode(payload) {
                Ok(key) => Ok(BackendMessage::BackendKeyData(key)),
                Err(e) => Err(e),
            }
        } else if tag == TAG_READY_FOR_QUERY {
            if payload.len() != 1 {
                Err(Error::Protocol)
            } else {
                Ok(BackendMessage::ReadyForQuery(payload[0]))
            }
        } else if tag == TAG_PARSE_COMPLETE {
            Self::decode_empty(BackendMessage::ParseComplete, payload)
        } else if tag == TAG_BIND_COMPLETE {
            Self::decode_empty(BackendMessage::BindComplete, payload)
        } else if tag == TAG_CLOSE_COMPLETE {
            Self::decode_empty(BackendMessage::CloseComplete, payload)
        } else if tag == TAG_NO_DATA {
            Self::decode_empty(BackendMessage::NoData, payload)
        } else if tag == TAG_PARAMETER_DESCRIPTION {
            Ok(BackendMessage::ParameterDescription(slice_to_vec(payload)))
        } else if tag == TAG_ROW_DESCRIPTION {
            Ok(BackendMessage::RowDescription(slice_to_vec(payload)))
        } else if tag == TAG_DATA_ROW {
            Ok(BackendMessage::DataRow(slice_to_vec(payload)))
        } else if tag == TAG_COMMAND_COMPLETE {
            Ok(BackendMessage::CommandComplete(slice_to_vec(payload)))
        } else if tag == TAG_ERROR_RESPONSE {
            Ok(BackendMessage::ErrorResponse(slice_to_vec(payload)))
        } else {
            Err(Error::UnsupportedMessage(tag))
        }
    }

    fn decode_empty(message: BackendMessage, payload: &[u8]) -> (r: Result<BackendMessage, Error>)
        ensures
            match Message::parse_empty(message@, payload@) {
                Ok(m) => r.is_ok() && r.unwrap()@ == m,
                Err(e) => r.is_err() && r.unwrap_err() == e,
            },
    {
        if payload.len() == 0 {
            Ok(message)
        } else {
            Err(Error::Protocol)
        }
    }

    /// Appends the frame of this message to `buf`. A message whose payload
    /// is too long for a frame is refused and `buf` stays as it was.
    pub fn encode(&self, buf: &mut Vec<u8>) -> (r: Result<(), Error>)
        ensures
            self@.payload().len() <= MAX_PAYLOAD_LEN ==> r.is_ok() && final(buf)@ == old(buf)@
                + crate::frame::frame_bytes(self@.tag(), self@.payload()),
            self@.payload().len() > MAX_PAYLOAD_LEN ==> r == Err::<(), _>(Error::Protocol)
                && final(buf)@ == old(buf)@,
    {
        match self {
            BackendMessage::Authentication { method, data } => {
                if data.len() > MAX_PAYLOAD_LEN - 4 {
                    return Err(Error::Protocol);
                }
                let mut payload: Vec<u8> = Vec::new();
                put_u32(&mut payload, *method);
                payload.extend_from_slice(data.as_slice());
                assert(payload@ =~= self@.payload());
                encode_frame(TAG_AUTHENTICATION, payload.as_slice(), buf)
            },
            BackendMessage::ParameterStatus(p) => encode_frame(
                TAG_PARAMETER_STATUS,
                p.as_slice(),
                buf,
            ),
            BackendMessage::BackendKeyData(key) => {
                let mut payload: Vec<u8> = Vec::new();
                key.encode(&mut payload);
                assert(payload@ =~= self@.payload());
                encode_frame(TAG_BACKEND_KEY_DATA, payload.as_slice(), buf)
            },
            BackendMessage::ReadyForQuery(status) => {
                let mut payload: Vec<u8> = Vec::new();
                payload.push(*status);
                assert(payload@ =~= self@.payload());
                encode_frame(TAG_READY_FOR_QUERY, payload.as_slice(), buf)
            },
            BackendMessage::ParseComplete => Self::encode_empty(TAG_PARSE_COMPLETE, buf),
            BackendMessage::BindComplete => Self::encode_empty(TAG_BIND_COMPLETE, buf),
            BackendMessage::CloseComplete => Self::encode_empty(TAG_CLOSE_COMPLETE, buf),
            BackendMessage::NoData => Self::encode_empty(TAG_NO_DATA, buf),
            BackendMessage::ParameterDescription(p) => encode_frame(
                TAG_PARAMETER_DESCRIPTION,
                p.as_slice(),
                buf,
            ),
            BackendMessage::RowDescription(p) => encode_frame(TAG_ROW_DESCRIPTION, p.as_slice(), buf),
            BackendMessage::DataRow(p) => encode_frame(TAG_DATA_ROW, p.as_slice(), buf),
            BackendMessage::CommandComplete(p) => encode_frame(
                TAG_COMMAND_COMPLETE,
                p.as_slice(),
                buf,
            ),
            BackendMessage::ErrorResponse(p) => encode_frame(TAG_ERROR_RESPONSE, p.as_slice(), buf),
        }
    }

    fn encode_empty(tag: u8, buf: &mut Vec<u8>) -> (r: Result<(), Error>)
        ensures
            r.is_ok(),
            final(buf)@ == old(buf)@ + crate::frame::frame_bytes(tag, Seq::empty()),
    {
        let payload: Vec<u8> = Vec::new();
        encode_frame(tag, payload.as_slice(), buf)
    }
}

} // verus!
