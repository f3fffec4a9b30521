//! The kinds of failure that the client distinguishes.

use vstd::prelude::*;

verus! {

/// What went wrong, by kind. `Database` and `PoolTimeout` leave the
/// connection usable; every other kind does not.
#[derive(Clone, Copy, Debug, PartialEq, Eq, Structural)]
pub enum Error {
    /// The transport failed.
    Io,
    /// A message is malformed, or arrived where it is not expected.
    Protocol,
    /// A well-framed message carries a type tag that this client does not
    /// know; the caller may skip the frame or give up.
    UnsupportedMessage(u8),
    /// The backend rejected the handshake.
    Authentication,
    /// The backend answered one statement with an error response.
    Database,
    /// No connection became available in time. `exhausted` tells whether the
    /// pool was at its limit of open connections.
    PoolTimeout { exhausted: bool },
    /// The connection has failed before and cannot be used any more.
    ConnectionFailed,
}

impl Error {
    /// Whether a connection that met this error must be discarded.
    pub open spec fn spec_is_fatal(&self) -> bool {
        !(self is Database || self is PoolTimeout)
    }

    #[verifier::when_used_as_spec(spec_is_fatal)]
    pub fn is_fatal(&self) -> (fatal: bool)
        ensures
            fatal == self.spec_is_fatal(),
    {
        match self {
            Error::Database => false,
            Error::PoolTimeout { .. } => false,
            _ => true,
        }
    }
}

} // verus!
