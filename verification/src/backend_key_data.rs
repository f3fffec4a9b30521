//! The key that the backend hands out at startup, needed later to ask it to
//! cancel a running query over a separate connection.

use crate::error::Error;
use crate::wire::{be_u32, get_u32, put_u32, u32_be_bytes};
use vstd::prelude::*;

verus! {

/// Length in bytes of the payload of a backend key data message.
pub const BACKEND_KEY_DATA_LEN: usize = 8;

#[derive(Clone, Copy, Debug, PartialEq, Eq, Structural)]
pub struct BackendKeyData {
    /// The process ID of this backend.
    process_id: u32,
    /// The secret key of this backend.
    secret_key: u32,
}

impl BackendKeyData {
    pub closed spec fn spec_process_id(&self) -> u32 {
        self.process_id
    }

    pub closed spec fn spec_secret_key(&self) -> u32 {
        self.secret_key
    }

    /// The key of the given process ID and secret.
    pub closed spec fn spec_new(process_id: u32, secret_key: u32) -> BackendKeyData {
        BackendKeyData { process_id, secret_key }
    }

    /// The key that a payload of at least eight bytes holds.
    pub open spec fn from_payload(payload: Seq<u8>) -> BackendKeyData
        recommends
            payload.len() >= BACKEND_KEY_DATA_LEN,
    {
        Self::spec_new(be_u32(payload.subrange(0, 4)) as u32, be_u32(payload.subrange(4, 8)) as u32)
    }

    /// The eight bytes of the payload that holds this key.
    pub open spec fn payload(&self) -> Seq<u8> {
        u32_be_bytes(self.process_id()) + u32_be_bytes(self.secret_key())
    }

    #[verifier::when_used_as_spec(spec_new)]
    pub fn new(process_id: u32, secret_key: u32) -> (key: BackendKeyData)
        ensures
            key == Self::spec_new(process_id, secret_key),
            key.process_id() == process_id,
            key.secret_key() == secret_key,
    {
        BackendKeyData { process_id, secret_key }
    }

    #[inline]
    #[verifier::when_used_as_spec(spec_process_id)]
    pub fn process_id(&self) -> (id: u32)
        ensures
            id == self.spec_process_id(),
    {
        self.process_id
    }

    #[inline]
    #[verifier::when_used_as_spec(spec_secret_key)]
    pub fn secret_key(&self) -> (key: u32)
        ensures
            key == self.spec_secret_key(),
    {
        self.secret_key
    }

    /// A key is made of its process ID and its secret, and of nothing else.
    pub proof fn lemma_new_fields(process_id: u32, secret_key: u32)
        ensures
            Self::spec_new(process_id, secret_key).process_id() == process_id,
            Self::spec_new(process_id, secret_key).secret_key() == secret_key,
    {
    }

    /// Decoding the payload of a key gives the key back.
    pub proof fn lemma_payload_round_trip(key: BackendKeyData)
        ensures
            key.payload().len() == BACKEND_KEY_DATA_LEN,
            Self::from_payload(key.payload()) == key,
    {
        let payload = key.payload();
        crate::wire::lemma_be_u32_of_bytes(key.process_id());
        crate::wire::lemma_be_u32_of_bytes(key.secret_key());
        assert(payload.subrange(0, 4) =~= u32_be_bytes(key.process_id()));
        assert(payload.subrange(4, 8) =~= u32_be_bytes(key.secret_key()));
    }

    /// Two keys with the same process ID and the same secret are the same key.
    pub proof fn lemma_same_fields(a: BackendKeyData, b: BackendKeyData)
        requires
            a.process_id() == b.process_id(),
            a.secret_key() == b.secret_key(),
        ensures
            a == b,
    {
    }

    /// Decodes the payload of a backend key data message: the process ID and
    /// then the secret key, each a big-endian `u32`. Bytes after the first
    /// eight are ignored; a shorter payload is malformed.
    pub fn decode(buf: &[u8]) -> (r: Result<BackendKeyData, Error>)
        ensures
            buf@.len() < BACKEND_KEY_DATA_LEN ==> r == Err::<BackendKeyData, _>(
                Error::Protocol,
            ),
            buf@.len() >= BACKEND_KEY_DATA_LEN ==> r == Ok::<_, Error>(Self::from_payload(buf@)),
            buf@.len() >= BACKEND_KEY_DATA_LEN ==> r.unwrap().process_id() == be_u32(
                buf@.subrange(0, 4),
            ) && r.unwrap().secret_key() == be_u32(buf@.subrange(4, 8)),
    {
        let process_id = match get_u32(buf, 0) {
            Some(n) => n,
            None => return Err(Error::Protocol),
        };
        let secret_key = match get_u32(buf, 4) {
            Some(n) => n,
            None => return Err(Error::Protocol),
        };
        proof {
            crate::wire::lemma_be_u32_range(buf@.subrange(0, 4));
            crate::wire::lemma_be_u32_range(buf@.subrange(4, 8));
        }
        Ok(BackendKeyData { process_id, secret_key })
    }

    /// Appends the payload that holds this key to `buf`.
    pub fn encode(&self, buf: &mut Vec<u8>)
        ensures
            final(buf)@ == old(buf)@ + self.payload(),
    {
        put_u32(buf, self.process_id);
        put_u32(buf, self.secret_key);
        assert(buf@ =~= old(buf)@ + self.payload());
    }
}

} // verus!
