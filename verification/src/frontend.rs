//! Messages that the client sends.

use crate::backend_key_data::BackendKeyData;
use crate::error::Error;
use crate::frame::{encode_frame, frame_bytes, MAX_PAYLOAD_LEN};
use crate::statement::StatementRef;
use crate::wire::{put_u16, put_u32, u16_be_bytes, u32_be_bytes};
use vstd::prelude::*;
use vstd::string::StringSliceAdditionalSpecFns;

verus! {

pub const TAG_PARSE: u8 = 0x50;

pub const TAG_BIND: u8 = 0x42;

pub const TAG_DESCRIBE: u8 = 0x44;

pub const TAG_EXECUTE: u8 = 0x45;

pub const TAG_SYNC: u8 = 0x53;

pub const TAG_CLOSE: u8 = 0x43;

/// The byte that says that a describe or a close is about a statement.
pub const TARGET_STATEMENT: u8 = 0x53;

/// The code that marks a request to cancel a running query.
pub const CANCEL_REQUEST_CODE: u32 = 80877102;

/// The bytes of a cancel request, its length field included.
pub const CANCEL_REQUEST_LEN: u32 = 16;

/// Most parameter types that a parse can declare.
pub const MAX_PARAMETERS: usize = 0xffff;

/// The bytes of a string that ends where its first zero byte would be: the
/// text and a terminating zero byte.
pub open spec fn cstr(text: Seq<u8>) -> Seq<u8>
    recommends
        !text.contains(0u8),
{
    text.push(0u8)
}

/// The numbers one after the other, each as a big-endian `u32`.
pub open spec fn u32s_bytes(numbers: Seq<u32>) -> Seq<u8>
    decreases numbers.len(),
{
    if numbers.len() == 0 {
        Seq::empty()
    } else {
        u32s_bytes(numbers.drop_last()) + u32_be_bytes(numbers.last())
    }
}

/// The payload of a parse: the name of the statement, the SQL text and the
/// types that the client declares for the parameters.
pub open spec fn parse_payload(statement: StatementRef, sql: Seq<u8>, types: Seq<u32>) -> Seq<u8> {
    statement.wire_name() + cstr(sql) + u16_be_bytes(types.len() as u16) + u32s_bytes(types)
}

/// The payload of a describe or of a close of a statement.
pub open spec fn statement_payload(statement: StatementRef) -> Seq<u8> {
    seq![TARGET_STATEMENT] + statement.wire_name()
}

/// The payload of an execute of the unnamed portal: the name of the portal,
/// which is empty, and the most rows to return, where zero is no limit.
pub open spec fn execute_payload(limit: u32) -> Seq<u8> {
    seq![0u8] + u32_be_bytes(limit)
}

/// The bytes of a cancel request for the backend with this key. The request
/// has no type tag.
pub open spec fn cancel_request_bytes(key: BackendKeyData) -> Seq<u8> {
    u32_be_bytes(CANCEL_REQUEST_LEN) + u32_be_bytes(CANCEL_REQUEST_CODE) + key.payload()
}

/// Whether a parse of this text with these types can be sent: the text
/// holds no zero byte, which would end it early, and the message is not too
/// long for its length fields.
pub open spec fn parse_fits(statement: StatementRef, sql: Seq<u8>, types: Seq<u32>) -> bool {
    &&& !sql.contains(0u8)
    &&& types.len() <= MAX_PARAMETERS
    &&& parse_payload(statement, sql, types).len() <= MAX_PAYLOAD_LEN
}

/// Appends `text` and a terminating zero byte to `buf`, unless the text
/// holds a zero byte: then `buf` stays as it was.
fn put_cstr(buf: &mut Vec<u8>, text: &[u8]) -> (ok: bool)
    ensures
        ok == !text@.contains(0u8),
        ok ==> final(buf)@ == old(buf)@ + cstr(text@),
        !ok ==> final(buf)@ == old(buf)@,
{
    let mut i: usize = 0;
    while i < text.len()
        invariant
            i <= text.len(),
            forall|k: int| 0 <= k < i ==> text@[k] != 0u8,
        decreases text.len() - i,
    {
        if text[i] == 0 {
            return false;
        }
        i += 1;
    }
    buf.extend_from_slice(text);
    buf.push(0);
    assert(buf@ =~= old(buf)@ + cstr(text@));
    true
}

/// Appends the numbers to `buf`, each as a big-endian `u32`.
fn put_u32s(buf: &mut Vec<u8>, numbers: &[u32])
    ensures
        final(buf)@ == old(buf)@ + u32s_bytes(numbers@),
{
    let mut i: usize = 0;
    assert(u32s_bytes(numbers@.subrange(0, 0)) =~= Seq::<u8>::empty());
    while i < numbers.len()
        invariant
            i <= numbers.len(),
            buf@ == old(buf)@ + u32s_bytes(numbers@.subrange(0, i as int)),
        decreases numbers.len() - i,
    {
        put_u32(buf, numbers[i]);
        proof {
            let done = numbers@.subrange(0, i + 1);
            assert(done.drop_last() =~= numbers@.subrange(0, i as int));
            assert(done.last() == numbers@[i as int]);
        }
        i += 1;
    }
    assert(numbers@.subrange(0, numbers.len() as int) =~= numbers@);
}

/// Appends a parse message: prepare `sql` under the name of `statement`,
/// with `types` as the types of its first parameters. A text with a zero
/// byte in it and a message that is too long are refused, and `buf` then
/// stays as it was.
pub fn parse(statement: StatementRef, sql: &str, types: &[u32], buf: &mut Vec<u8>) -> (r: Result<
    (),
    Error,
>)
    ensures
        parse_fits(statement, sql.spec_bytes(), types@) ==> r.is_ok() && final(buf)@ == old(buf)@
            + frame_bytes(TAG_PARSE, parse_payload(statement, sql.spec_bytes(), types@)),
        !parse_fits(statement, sql.spec_bytes(), types@) ==> r == Err::<(), _>(Error::Protocol)
            && final(buf)@ == old(buf)@,
{
    if types.len() > MAX_PARAMETERS {
        return Err(Error::Protocol);
    }
    let mut payload: Vec<u8> = Vec::new();
    let _ = statement.serialize_with(&mut payload, ());
    if !put_cstr(&mut payload, sql.as_bytes()) {
        return Err(Error::Protocol);
    }
    put_u16(&mut payload, types.len() as u16);
    put_u32s(&mut payload, types);
    assert(payload@ =~= parse_payload(statement, sql.spec_bytes(), types@));
    encode_frame(TAG_PARSE, payload.as_slice(), buf)
}

/// Appends a describe message for `statement`: ask for the types of its
/// parameters and of its result columns.
pub fn describe(statement: StatementRef, buf: &mut Vec<u8>)
    ensures
        final(buf)@ == old(buf)@ + frame_bytes(TAG_DESCRIBE, statement_payload(statement)),
{
    put_statement(TAG_DESCRIBE, statement, buf);
}

/// Appends a close message for `statement`: the backend may forget it.
pub fn close(statement: StatementRef, buf: &mut Vec<u8>)
    ensures
        final(buf)@ == old(buf)@ + frame_bytes(TAG_CLOSE, statement_payload(statement)),
{
    put_statement(TAG_CLOSE, statement, buf);
}

fn put_statement(tag: u8, statement: StatementRef, buf: &mut Vec<u8>)
    ensures
        final(buf)@ == old(buf)@ + frame_bytes(tag, statement_payload(statement)),
{
    let mut payload: Vec<u8> = Vec::new();
    payload.push(TARGET_STATEMENT);
    let _ = statement.serialize_with(&mut payload, ());
    assert(payload@ =~= statement_payload(statement));
    proof {
        StatementRef::lemma_wire_name_len(statement);
    }
    let _ = encode_frame(tag, payload.as_slice(), buf);
}

/// One parameter of a bind.
#[derive(Clone, Debug, PartialEq, Eq)]
pub struct Parameter {
    /// Whether the value is in the binary format of its type, not in text.
    pub binary: bool,
    /// The value as the backend is to read it; `None` is the SQL null.
    pub value: Option<Vec<u8>>,
}

/// One parameter of a bind as a mathematical value.
pub struct Param {
    pub binary: bool,
    pub value: Option<Seq<u8>>,
}

impl View for Parameter {
    type V = Param;

    open spec fn view(&self) -> Param {
        Param {
            binary: self.binary,
            value: match self.value {
                Some(bytes) => Some(bytes@),
                None => None,
            },
        }
    }
}

/// The parameters of a slice as mathematical values.
pub open spec fn params_view(params: Seq<Parameter>) -> Seq<Param> {
    params.map_values(|p: Parameter| p@)
}

/// The longest value that a bind can carry.
pub const MAX_VALUE_LEN: usize = 0x7fff_ffff;

/// The length that stands for the SQL null.
pub const NULL_LEN: u32 = 0xffff_ffff;

/// The code of a format: one for binary, zero for text.
pub open spec fn format_code(binary: bool) -> u16 {
    if binary {
        1
    } else {
        0
    }
}

/// The format codes of the parameters, in order.
pub open spec fn formats_bytes(params: Seq<Param>) -> Seq<u8>
    decreases params.len(),
{
    if params.len() == 0 {
        Seq::empty()
    } else {
        formats_bytes(params.drop_last()) + u16_be_bytes(format_code(params.last().binary))
    }
}

/// One value: its length and its bytes, or the length that stands for null.
pub open spec fn value_bytes(value: Option<Seq<u8>>) -> Seq<u8> {
    match value {
        Some(bytes) => u32_be_bytes(bytes.len() as u32) + bytes,
        None => u32_be_bytes(NULL_LEN),
    }
}

/// The values of the parameters, in order.
pub open spec fn values_bytes(params: Seq<Param>) -> Seq<u8>
    decreases params.len(),
{
    if params.len() == 0 {
        Seq::empty()
    } else {
        values_bytes(params.drop_last()) + value_bytes(params.last().value)
    }
}

/// The payload of a bind of `statement` to the unnamed portal: the empty
/// name of the portal, the name of the statement, the format of each
/// parameter, the value of each parameter, and the one format of all result
/// columns.
pub open spec fn bind_payload(statement: StatementRef, params: Seq<Param>, binary_result: bool) -> Seq<
    u8,
> {
    seq![0u8] + statement.wire_name() + u16_be_bytes(params.len() as u16) + formats_bytes(params)
        + u16_be_bytes(params.len() as u16) + values_bytes(params) + u16_be_bytes(1)
        + u16_be_bytes(format_code(binary_result))
}

/// Whether a bind with these parameters can be sent: their number and the
/// length of each value fit their length fields, and so does the message.
pub open spec fn bind_fits(statement: StatementRef, params: Seq<Param>, binary_result: bool) -> bool {
    &&& params.len() <= MAX_PARAMETERS
    &&& forall|i: int|
        0 <= i < params.len() ==> ((#[trigger] params[i]).value matches Some(bytes) ==> bytes.len()
            <= MAX_VALUE_LEN)
    &&& bind_payload(statement, params, binary_result).len() <= MAX_PAYLOAD_LEN
}

/// Appends a bind message: bind `params` to `statement` and ask for the
/// result in binary format or in text. A bind that cannot be sent is
/// refused, and `buf` then stays as it was.
pub fn bind(
    statement: StatementRef,
    params: &[Parameter],
    binary_result: bool,
    buf: &mut Vec<u8>,
) -> (r: Result<(), Error>)
    ensures
        bind_fits(statement, params_view(params@), binary_result) ==> r.is_ok() && final(buf)@
            == old(buf)@ + frame_bytes(
            TAG_BIND,
            bind_payload(statement, params_view(params@), binary_result),
        ),
        !bind_fits(statement, params_view(params@), binary_result) ==> r == Err::<(), _>(
            Error::Protocol,
        ) && final(buf)@ == old(buf)@,
{
    if params.len() > MAX_PARAMETERS {
        return Err(Error::Protocol);
    }
    let ghost all = params_view(params@);
    let count = params.len() as u16;
    let mut payload: Vec<u8> = Vec::new();
    payload.push(0);
    let _ = statement.serialize_with(&mut payload, ());
    put_u16(&mut payload, count);
    let ghost head = payload@;
    let mut i: usize = 0;
    assert(formats_bytes(all.subrange(0, 0)) =~= Seq::<u8>::empty());
    while i < params.len()
        invariant
            i <= params.len(),
            all == params_view(params@),
            payload@ == head + formats_bytes(all.subrange(0, i as int)),
        decreases params.len() - i,
    {
        put_u16(
            &mut payload,
            if params[i].binary {
                1
            } else {
                0
            },
        );
        proof {
            let done = all.subrange(0, i + 1);
            assert(done.drop_last() =~= all.subrange(0, i as int));
            assert(done.last() == params@[i as int]@);
        }
        i += 1;
    }
    assert(all.subrange(0, params.len() as int) =~= all);
    put_u16(&mut payload, count);
    let ghost middle = payload@;
    let mut i: usize = 0;
    assert(values_bytes(all.subrange(0, 0)) =~= Seq::<u8>::empty());
    while i < params.len()
        invariant
            i <= params.len(),
            all == params_view(params@),
            payload@ == middle + values_bytes(all.subrange(0, i as int)),
            forall|k: int|
                0 <= k < i ==> ((#[trigger] all[k]).value matches Some(bytes) ==> bytes.len()
                    <= MAX_VALUE_LEN),
        decreases params.len() - i,
    {
        match &params[i].value {
            Some(bytes) => {
                if bytes.len() > MAX_VALUE_LEN {
                    assert(all[i as int].value matches Some(b) && b.len() > MAX_VALUE_LEN);
                    return Err(Error::Protocol);
                }
                put_u32(&mut payload, bytes.len() as u32);
                payload.extend_from_slice(bytes.as_slice());
            },
            None => {
                put_u32(&mut payload, NULL_LEN);
            },
        }
        proof {
            let done = all.subrange(0, i + 1);
            assert(done.drop_last() =~= all.subrange(0, i as int));
            assert(done.last() == params@[i as int]@);
            assert(payload@ =~= middle + values_bytes(done));
        }
        i += 1;
    }
    put_u16(&mut payload, 1);
    put_u16(
        &mut payload,
        if binary_result {
            1
        } else {
            0
        },
    );
    assert(payload@ =~= bind_payload(statement, all, binary_result));
    encode_frame(TAG_BIND, payload.as_slice(), buf)
}

/// Appends an execute message: run the statement that was bound last and
/// return at most `limit` rows, or all rows if `limit` is zero.
pub fn execute(limit: u32, buf: &mut Vec<u8>)
    ensures
        final(buf)@ == old(buf)@ + frame_bytes(TAG_EXECUTE, execute_payload(limit)),
{
    let mut payload: Vec<u8> = Vec::new();
    payload.push(0);
    put_u32(&mut payload, limit);
    assert(payload@ =~= execute_payload(limit));
    let _ = encode_frame(TAG_EXECUTE, payload.as_slice(), buf);
}

/// Appends a sync message: the backend answers what was sent so far and
/// then says that it is ready.
pub fn sync(buf: &mut Vec<u8>)
    ensures
        final(buf)@ == old(buf)@ + frame_bytes(TAG_SYNC, Seq::empty()),
{
    let payload: Vec<u8> = Vec::new();
    let _ = encode_frame(TAG_SYNC, payload.as_slice(), buf);
}

/// Appends the request to cancel the query that runs on the backend with
/// this key. It is sent over a connection of its own.
pub fn cancel_request(key: &BackendKeyData, buf: &mut Vec<u8>)
    ensures
        final(buf)@ == old(buf)@ + cancel_request_bytes(*key),
{
    put_u32(buf, CANCEL_REQUEST_LEN);
    put_u32(buf, CANCEL_REQUEST_CODE);
    key.encode(buf);
    assert(buf@ =~= old(buf)@ + cancel_request_bytes(*key));
}

} // verus!
