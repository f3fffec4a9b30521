//! The states of a connection and the steps between them.
//!
//! A connection is opened, authenticates, and is then ready. A request takes
//! it through parsing, binding and executing and back to ready; several
//! requests may follow each other before the backend says that it is ready
//! again. A connection that met a fatal error has failed for good.

use crate::backend_key_data::BackendKeyData;
use crate::error::Error;
use crate::message::{BackendMessage, Message};
use vstd::prelude::*;

verus! {

#[derive(Clone, Copy, Debug, PartialEq, Eq, Structural)]
pub enum ConnectionState {
    /// The transport is being opened; the startup message is not sent yet.
    Connecting,
    /// The startup message is sent; the backend has not said yet that it is
    /// ready.
    Authenticating,
    /// The backend waits for the next request.
    Ready,
    /// A parse was sent.
    Parsing,
    /// A bind was sent.
    Binding,
    /// An execute was sent.
    Executing,
    /// The connection is being closed in good order.
    Closing,
    /// The connection was closed in good order.
    Closed,
    /// The connection met a fatal error: it must be discarded.
    Failed,
}

/// What a connection does or learns.
#[derive(Clone, Copy, Debug, PartialEq, Eq, Structural)]
pub enum Operation {
    /// The startup message was sent.
    Startup,
    /// A parse is sent.
    Parse,
    /// A bind is sent.
    Bind,
    /// An execute is sent.
    Execute,
    /// The backend said that it is ready for the next request.
    ReadyForQuery,
    /// The connection is told to close.
    Close,
    /// The transport was closed.
    Closed,
}

impl ConnectionState {
    /// Whether the connection has come to its end.
    pub open spec fn spec_is_terminal(&self) -> bool {
        *self == ConnectionState::Closed || *self == ConnectionState::Failed
    }

    /// The state after an operation, or why the operation is refused. A
    /// failed connection refuses everything with an error of its own; an
    /// operation that is out of place is a protocol error.
    pub open spec fn next(self, operation: Operation) -> Result<ConnectionState, Error> {
        match (self, operation) {
            (ConnectionState::Failed, _) => Err(Error::ConnectionFailed),
            (ConnectionState::Connecting, Operation::Startup) => Ok(ConnectionState::Authenticating),
            (ConnectionState::Authenticating, Operation::ReadyForQuery) => Ok(
                ConnectionState::Ready,
            ),
            (ConnectionState::Ready, Operation::Parse) => Ok(ConnectionState::Parsing),
            (ConnectionState::Executing, Operation::Parse) => Ok(ConnectionState::Parsing),
            (ConnectionState::Ready, Operation::Bind) => Ok(ConnectionState::Binding),
            (ConnectionState::Parsing, Operation::Bind) => Ok(ConnectionState::Binding),
            (ConnectionState::Executing, Operation::Bind) => Ok(ConnectionState::Binding),
            (ConnectionState::Binding, Operation::Execute) => Ok(ConnectionState::Executing),
            (ConnectionState::Parsing, Operation::ReadyForQuery) => Ok(ConnectionState::Ready),
            (ConnectionState::Binding, Operation::ReadyForQuery) => Ok(ConnectionState::Ready),
            (ConnectionState::Executing, Operation::ReadyForQuery) => Ok(ConnectionState::Ready),
            (ConnectionState::Ready, Operation::Close) => Ok(ConnectionState::Closing),
            (ConnectionState::Closing, Operation::Closed) => Ok(ConnectionState::Closed),
            _ => Err(Error::Protocol),
        }
    }

    /// The state after an error: a fatal error makes a connection that has
    /// not come to its end fail, any other error changes nothing.
    pub open spec fn spec_after_error(self, error: Error) -> ConnectionState {
        if error.is_fatal() && !self.spec_is_terminal() {
            ConnectionState::Failed
        } else {
            self
        }
    }

    /// The state after the operations `operations`, in order, as far as
    /// none is refused.
    pub open spec fn run(self, operations: Seq<Operation>) -> Result<ConnectionState, Error>
        decreases operations.len(),
    {
        if operations.len() == 0 {
            Ok(self)
        } else {
            match self.run(operations.drop_last()) {
                Ok(state) => state.next(operations.last()),
                Err(e) => Err(e),
            }
        }
    }

    #[verifier::when_used_as_spec(spec_is_terminal)]
    pub fn is_terminal(&self) -> (b: bool)
        ensures
            b == self.spec_is_terminal(),
    {
        matches!(self, ConnectionState::Closed | ConnectionState::Failed)
    }

    /// Whether the connection may go back to the idle ones of a pool.
    pub fn is_ready(&self) -> (b: bool)
        ensures
            b == (*self == ConnectionState::Ready),
    {
        matches!(self, ConnectionState::Ready)
    }

    /// Checks that the connection may perform `operation` and gives the
    /// state that it is in afterwards.
    pub fn apply(self, operation: Operation) -> (r: Result<ConnectionState, Error>)
        ensures
            r == self.next(operation),
    {
        match (self, operation) {
            (ConnectionState::Failed, _) => Err(Error::ConnectionFailed),
            (ConnectionState::Connecting, Operation::Startup) => Ok(ConnectionState::Authenticating),
            (ConnectionState::Ready, Operation::Parse)
            | (ConnectionState::Executing, Operation::Parse) => Ok(ConnectionState::Parsing),
            (ConnectionState::Ready, Operation::Bind)
            | (ConnectionState::Parsing, Operation::Bind)
            | (ConnectionState::Executing, Operation::Bind) => Ok(ConnectionState::Binding),
            (ConnectionState::Binding, Operation::Execute) => Ok(ConnectionState::Executing),
            (ConnectionState::Authenticating, Operation::ReadyForQuery)
            | (ConnectionState::Parsing, Operation::ReadyForQuery)
            | (ConnectionState::Binding, Operation::ReadyForQuery)
            | (ConnectionState::Executing, Operation::ReadyForQuery) => Ok(ConnectionState::Ready),
            (ConnectionState::Ready, Operation::Close) => Ok(ConnectionState::Closing),
            (ConnectionState::Closing, Operation::Closed) => Ok(ConnectionState::Closed),
            _ => Err(Error::Protocol),
        }
    }

    /// The state of the connection after it met `error`.
    #[verifier::when_used_as_spec(spec_after_error)]
    pub fn after_error(self, error: Error) -> (state: ConnectionState)
        ensures
            state == self.spec_after_error(error),
    {
        if error.is_fatal() && !self.is_terminal() {
            ConnectionState::Failed
        } else {
            self
        }
    }

    /// A connection that has come to its end stays where it is: no
    /// operation is accepted, and no error changes the state.
    pub proof fn lemma_terminal_states_are_final(self, operation: Operation, error: Error)
        requires
            self.is_terminal(),
        ensures
            self.next(operation) is Err,
            self == ConnectionState::Failed ==> self.next(operation) == Err::<ConnectionState, _>(
                Error::ConnectionFailed,
            ),
            self.after_error(error) == self,
    {
    }

    /// An operation never makes a connection fail and never revives one:
    /// only an error leads to the failed state, and nothing leads out of it.
    pub proof fn lemma_operations_do_not_fail(self, operation: Operation)
        requires
            self.next(operation) is Ok,
        ensures
            self != ConnectionState::Failed,
            self.next(operation)->Ok_0 != ConnectionState::Failed,
    {
    }

    /// A fatal error makes every connection that is still in use fail; an
    /// error of the database or of the pool leaves every connection as it is.
    pub proof fn lemma_errors(self, error: Error)
        ensures
            error.is_fatal() && !self.is_terminal() ==> self.after_error(error)
                == ConnectionState::Failed,
            error == Error::Database || error is PoolTimeout ==> self.after_error(error) == self,
    {
    }

    /// A connection becomes ready only when the backend says so.
    pub proof fn lemma_ready_only_when_told(self, operation: Operation)
        requires
            self != ConnectionState::Ready,
            self.next(operation) == Ok::<_, Error>(ConnectionState::Ready),
        ensures
            operation == Operation::ReadyForQuery,
    {
    }

    /// A new connection that sends its startup message, hears that the
    /// backend is ready, and then runs any number of requests, each a parse,
    /// a bind and an execute, is ready again once the backend says so.
    pub proof fn lemma_requests_return_to_ready(requests: nat)
        ensures
            ConnectionState::Connecting.run(session(requests)) == Ok::<_, Error>(
                ConnectionState::Ready,
            ),
        decreases requests,
    {
        let start = ConnectionState::Connecting;
        if requests == 0 {
            let handshake = seq![Operation::Startup, Operation::ReadyForQuery];
            assert(handshake.drop_last() =~= seq![Operation::Startup]);
            assert(handshake.drop_last().drop_last() =~= Seq::<Operation>::empty());
            assert(start.run(Seq::<Operation>::empty()) == Ok::<_, Error>(start));
            assert(start.run(seq![Operation::Startup]) == Ok::<_, Error>(
                ConnectionState::Authenticating,
            ));
        } else {
            Self::lemma_requests_return_to_ready((requests - 1) as nat);
            let before = session((requests - 1) as nat);
            let s1 = before.push(Operation::Parse);
            let s2 = s1.push(Operation::Bind);
            let s3 = s2.push(Operation::Execute);
            let s4 = s3.push(Operation::ReadyForQuery);
            assert(s1.drop_last() =~= before);
            assert(s2.drop_last() =~= s1);
            assert(s3.drop_last() =~= s2);
            assert(s4.drop_last() =~= s3);
            assert(start.run(s1) == Ok::<_, Error>(ConnectionState::Parsing));
            assert(start.run(s2) == Ok::<_, Error>(ConnectionState::Binding));
            assert(start.run(s3) == Ok::<_, Error>(ConnectionState::Executing));
            assert(session(requests) =~= s4);
        }
    }
}

/// The method code with which the backend says that it asks for no further
/// proof of identity.
pub const AUTH_OK: u32 = 0;

/// The method code with which the backend asks for the password as it is.
pub const AUTH_CLEARTEXT: u32 = 3;

/// The method code with which the backend asks for a digest of the password
/// and of the salt that it sends along.
pub const AUTH_DIGEST: u32 = 5;

/// The bytes of the salt of a digest challenge.
pub const SALT_LEN: usize = 4;

/// What the connection has to do next while it starts up.
#[derive(Clone, Debug, PartialEq, Eq)]
pub enum Startup {
    /// Read the next message.
    Continue,
    /// Send the password as it is, then read the next message.
    SendPassword,
    /// Send the digest of the password and of this salt, then read the next
    /// message.
    SendDigest(Vec<u8>),
    /// The backend is ready: the connection can take requests.
    Ready,
}

/// The next step of a startup as a mathematical value.
pub enum StartupStep {
    Continue,
    SendPassword,
    SendDigest(Seq<u8>),
    Ready,
}

impl View for Startup {
    type V = StartupStep;

    open spec fn view(&self) -> StartupStep {
        match self {
            Startup::Continue => StartupStep::Continue,
            Startup::SendPassword => StartupStep::SendPassword,
            Startup::SendDigest(salt) => StartupStep::SendDigest(salt@),
            Startup::Ready => StartupStep::Ready,
        }
    }
}

/// What a connection that starts up has learned so far.
#[derive(Clone, Copy, Debug, PartialEq, Eq, Structural)]
pub struct Handshake {
    /// Whether the backend has accepted the client.
    pub authenticated: bool,
    /// The key for cancel requests, once the backend has sent it.
    pub key: Option<BackendKeyData>,
}

impl Handshake {
    /// The handshake after a message of the backend, and what the connection
    /// has to do next. The backend must accept the client before it sends
    /// anything else; it is ready only after that. An error response, or a
    /// challenge of a kind that the client cannot answer, is a failure of
    /// authentication; any other message out of place is a protocol error.
    pub open spec fn step(self, message: Message) -> Result<(Handshake, StartupStep), Error> {
        match message {
            Message::Authentication { method, data } => if self.authenticated {
                Err(Error::Protocol)
            } else if method == AUTH_OK {
                if data.len() == 0 {
                    Ok((Handshake { authenticated: true, ..self }, StartupStep::Continue))
                } else {
                    Err(Error::Protocol)
                }
            } else if method == AUTH_CLEARTEXT {
                if data.len() == 0 {
                    Ok((self, StartupStep::SendPassword))
                } else {
                    Err(Error::Protocol)
                }
            } else if method == AUTH_DIGEST {
                if data.len() == SALT_LEN {
                    Ok((self, StartupStep::SendDigest(data)))
                } else {
                    Err(Error::Protocol)
                }
            } else {
                Err(Error::Authentication)
            },
            Message::ErrorResponse(_) => Err(Error::Authentication),
            Message::ParameterStatus(_) => if self.authenticated {
                Ok((self, StartupStep::Continue))
            } else {
                Err(Error::Protocol)
            },
            Message::BackendKeyData(key) => if self.authenticated && self.key.is_none() {
                Ok((Handshake { key: Some(key), ..self }, StartupStep::Continue))
            } else {
                Err(Error::Protocol)
            },
            Message::ReadyForQuery(_) => if self.authenticated {
                Ok((self, StartupStep::Ready))
            } else {
                Err(Error::Protocol)
            },
            _ => Err(Error::Protocol),
        }
    }

    /// A handshake that has heard nothing yet.
    pub fn new() -> (handshake: Handshake)
        ensures
            handshake == (Handshake { authenticated: false, key: None }),
    {
        Handshake { authenticated: false, key: None }
    }

    /// Takes the next message of the backend during startup.
    pub fn on_message(self, message: BackendMessage) -> (r: Result<(Handshake, Startup), Error>)
        ensures
            match self.step(message@) {
                Ok((handshake, step)) => r matches Ok((h, s)) && h == handshake && s@ == step,
                Err(e) => r matches Err(x) && x == e,
            },
    {
        match message {
            BackendMessage::Authentication { method, data } => {
                if self.authenticated {
                    Err(Error::Protocol)
                } else if method == AUTH_OK {
                    if data.len() == 0 {
                        Ok((Handshake { authenticated: true, key: self.key }, Startup::Continue))
                    } else {
                        Err(Error::Protocol)
                    }
                } else if method == AUTH_CLEARTEXT {
                    if data.len() == 0 {
                        Ok((self, Startup::SendPassword))
                    } else {
                        Err(Error::Protocol)
                    }
                } else if method == AUTH_DIGEST {
                    if data.len() == SALT_LEN {
                        Ok((self, Startup::SendDigest(data)))
                    } else {
                        Err(Error::Protocol)
                    }
                } else {
                    Err(Error::Authentication)
                }
            },
            BackendMessage::ErrorResponse(_) => Err(Error::Authentication),
            BackendMessage::ParameterStatus(_) => {
                if self.authenticated {
                    Ok((self, Startup::Continue))
                } else {
                    Err(Error::Protocol)
                }
            },
            BackendMessage::BackendKeyData(key) => {
                if self.authenticated && self.key.is_none() {
                    Ok(
                        (
                            Handshake { authenticated: self.authenticated, key: Some(key) },
                            Startup::Continue,
                        ),
                    )
                } else {
                    Err(Error::Protocol)
                }
            },
            BackendMessage::ReadyForQuery(_) => {
                if self.authenticated {
                    Ok((self, Startup::Ready))
                } else {
                    Err(Error::Protocol)
                }
            },
            _ => Err(Error::Protocol),
        }
    }

    /// No message makes a connection ready that the backend has not
    /// accepted, no message takes the acceptance back, and every failure of
    /// the handshake is fatal to the connection.
    pub proof fn lemma_step(self, message: Message)
        ensures
            match self.step(message) {
                Ok((after, step)) => {
                    &&& step is Ready ==> self.authenticated
                    &&& self.authenticated ==> after.authenticated
                    &&& self.key is Some ==> after.key == self.key
                    &&& after.key is Some ==> after.authenticated
                        || self.key is Some
                },
                Err(e) => e.is_fatal() && ConnectionState::Authenticating.after_error(e)
                    == ConnectionState::Failed,
            },
    {
    }
}

/// The operations of a connection that starts up and then runs `requests`
/// requests, one after the other.
pub open spec fn session(requests: nat) -> Seq<Operation>
    decreases requests,
{
    if requests == 0 {
        seq![Operation::Startup, Operation::ReadyForQuery]
    } else {
        session((requests - 1) as nat) + seq![
            Operation::Parse,
            Operation::Bind,
            Operation::Execute,
            Operation::ReadyForQuery,
        ]
    }
}

} // verus!
