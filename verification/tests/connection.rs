use pgwire::backend_key_data::BackendKeyData;
use pgwire::connection::{ConnectionState, Handshake, Operation, Startup};
use pgwire::error::Error;
use pgwire::message::BackendMessage;

const STATES: [ConnectionState; 9] = [
    ConnectionState::Connecting,
    ConnectionState::Authenticating,
    ConnectionState::Ready,
    ConnectionState::Parsing,
    ConnectionState::Binding,
    ConnectionState::Executing,
    ConnectionState::Closing,
    ConnectionState::Closed,
    ConnectionState::Failed,
];

const OPERATIONS: [Operation; 7] = [
    Operation::Startup,
    Operation::Parse,
    Operation::Bind,
    Operation::Execute,
    Operation::ReadyForQuery,
    Operation::Close,
    Operation::Closed,
];

fn run(operations: &[Operation]) -> Result<ConnectionState, Error> {
    let mut state = ConnectionState::Connecting;
    for operation in operations {
        state = state.apply(*operation)?;
    }
    Ok(state)
}

#[test]
fn a_connection_starts_up_runs_a_request_and_closes() {
    assert_eq!(run(&[]), Ok(ConnectionState::Connecting));
    assert_eq!(run(&[Operation::Startup]), Ok(ConnectionState::Authenticating));
    assert_eq!(run(&[Operation::Startup, Operation::ReadyForQuery]), Ok(ConnectionState::Ready));
    assert_eq!(run(&[Operation::Startup, Operation::ReadyForQuery, Operation::Parse]), Ok(ConnectionState::Parsing));
    assert_eq!(run(&[Operation::Startup, Operation::ReadyForQuery, Operation::Parse, Operation::Bind]), Ok(ConnectionState::Binding));
    assert_eq!(run(&[Operation::Startup, Operation::ReadyForQuery, Operation::Parse, Operation::Bind, Operation::Execute]), Ok(ConnectionState::Executing));
    assert_eq!(
        run(&[Operation::Startup, Operation::ReadyForQuery, Operation::Parse, Operation::Bind, Operation::Execute, Operation::ReadyForQuery]),
        Ok(ConnectionState::Ready)
    );
    assert_eq!(run(&[Operation::Startup, Operation::ReadyForQuery, Operation::Close]), Ok(ConnectionState::Closing));
    assert_eq!(run(&[Operation::Startup, Operation::ReadyForQuery, Operation::Close, Operation::Closed]), Ok(ConnectionState::Closed));
}

#[test]
fn a_cached_statement_is_bound_without_a_parse() {
    assert_eq!(
        run(&[Operation::Startup, Operation::ReadyForQuery, Operation::Bind, Operation::Execute, Operation::ReadyForQuery]),
        Ok(ConnectionState::Ready)
    );
}

#[test]
fn requests_may_follow_each_other_before_the_backend_is_ready() {
    assert_eq!(
        run(&[Operation::Startup, Operation::ReadyForQuery, Operation::Parse, Operation::Bind, Operation::Execute, Operation::Bind, Operation::Execute, Operation::Parse, Operation::Bind, Operation::Execute, Operation::ReadyForQuery]),
        Ok(ConnectionState::Ready)
    );
}

#[test]
fn operations_out_of_place_are_protocol_errors() {
    assert_eq!(run(&[Operation::Parse]), Err(Error::Protocol));
    assert_eq!(run(&[Operation::Startup, Operation::Parse]), Err(Error::Protocol));
    assert_eq!(run(&[Operation::Startup, Operation::ReadyForQuery, Operation::Execute]), Err(Error::Protocol));
    assert_eq!(run(&[Operation::Startup, Operation::ReadyForQuery, Operation::ReadyForQuery]), Err(Error::Protocol));
    assert_eq!(run(&[Operation::Startup, Operation::ReadyForQuery, Operation::Parse, Operation::Close]), Err(Error::Protocol));
    assert_eq!(run(&[Operation::Startup, Operation::Startup]), Err(Error::Protocol));
}

#[test]
fn a_failed_connection_refuses_everything() {
    for operation in OPERATIONS {
        assert_eq!(ConnectionState::Failed.apply(operation), Err(Error::ConnectionFailed));
    }
    assert!(Error::ConnectionFailed.is_fatal());
}

#[test]
fn a_closed_connection_accepts_nothing() {
    for operation in OPERATIONS {
        assert_eq!(ConnectionState::Closed.apply(operation), Err(Error::Protocol));
    }
}

#[test]
fn no_operation_leads_to_the_failed_state() {
    for state in STATES {
        for operation in OPERATIONS {
            assert_ne!(state.apply(operation), Ok(ConnectionState::Failed));
        }
    }
}

#[test]
fn fatal_errors_make_a_connection_fail() {
    let fatal = [Error::Io, Error::Protocol, Error::UnsupportedMessage(b'?'), Error::Authentication];
    for state in STATES {
        for error in fatal {
            let after = state.after_error(error);
            if state.is_terminal() {
                assert_eq!(after, state);
            } else {
                assert_eq!(after, ConnectionState::Failed);
            }
        }
    }
}

#[test]
fn database_and_pool_errors_leave_the_connection_alone() {
    for state in STATES {
        assert_eq!(state.after_error(Error::Database), state);
        assert_eq!(state.after_error(Error::PoolTimeout { exhausted: true }), state);
        assert_eq!(state.after_error(Error::PoolTimeout { exhausted: false }), state);
    }
}

#[test]
fn only_closed_and_failed_are_terminal_and_only_ready_is_ready() {
    for state in STATES {
        assert_eq!(
            state.is_terminal(),
            state == ConnectionState::Closed || state == ConnectionState::Failed
        );
        assert_eq!(state.is_ready(), state == ConnectionState::Ready);
    }
}

fn auth(method: u32, data: &[u8]) -> BackendMessage {
    BackendMessage::Authentication { method, data: data.to_vec() }
}

#[test]
fn a_handshake_with_a_cleartext_password() {
    let key = BackendKeyData::new(10182, 2303903019);
    let h = Handshake::new();
    let (h, step) = h.on_message(auth(3, b"")).unwrap();
    assert_eq!(step, Startup::SendPassword);
    assert!(!h.authenticated);
    let (h, step) = h.on_message(auth(0, b"")).unwrap();
    assert_eq!(step, Startup::Continue);
    assert!(h.authenticated);
    let (h, step) = h.on_message(BackendMessage::ParameterStatus(b"a\0b\0".to_vec())).unwrap();
    assert_eq!(step, Startup::Continue);
    let (h, step) = h.on_message(BackendMessage::BackendKeyData(key)).unwrap();
    assert_eq!(step, Startup::Continue);
    assert_eq!(h.key, Some(key));
    let (h, step) = h.on_message(BackendMessage::ReadyForQuery(b'I')).unwrap();
    assert_eq!(step, Startup::Ready);
    assert_eq!(h, Handshake { authenticated: true, key: Some(key) });
}

#[test]
fn a_digest_challenge_hands_over_its_salt() {
    let (h, step) = Handshake::new().on_message(auth(5, &[1, 2, 3, 4])).unwrap();
    assert_eq!(step, Startup::SendDigest(vec![1, 2, 3, 4]));
    assert_eq!(h, Handshake::new());
    assert_eq!(Handshake::new().on_message(auth(5, &[1, 2, 3])), Err(Error::Protocol));
    assert_eq!(Handshake::new().on_message(auth(5, &[1, 2, 3, 4, 5])), Err(Error::Protocol));
}

#[test]
fn a_rejected_handshake_is_an_authentication_error() {
    let rejected = Handshake::new().on_message(BackendMessage::ErrorResponse(b"SFATAL\0".to_vec()));
    assert_eq!(rejected, Err(Error::Authentication));
    assert_eq!(Handshake::new().on_message(auth(7, b"")), Err(Error::Authentication));
    assert_eq!(
        ConnectionState::Authenticating.after_error(Error::Authentication),
        ConnectionState::Failed
    );
}

#[test]
fn nothing_but_a_challenge_comes_before_the_acceptance() {
    let key = BackendKeyData::new(1, 2);
    for message in [
        BackendMessage::ReadyForQuery(b'I'),
        BackendMessage::ParameterStatus(vec![]),
        BackendMessage::BackendKeyData(key),
        BackendMessage::DataRow(vec![]),
        BackendMessage::ParseComplete,
    ] {
        assert_eq!(Handshake::new().on_message(message), Err(Error::Protocol));
    }
}

#[test]
fn the_backend_accepts_and_sends_its_key_once() {
    let accepted = Handshake { authenticated: true, key: None };
    assert_eq!(accepted.on_message(auth(0, b"")), Err(Error::Protocol));
    assert_eq!(accepted.on_message(auth(3, b"")), Err(Error::Protocol));
    let keyed = Handshake { authenticated: true, key: Some(BackendKeyData::new(1, 2)) };
    assert_eq!(
        keyed.on_message(BackendMessage::BackendKeyData(BackendKeyData::new(3, 4))),
        Err(Error::Protocol)
    );
    assert_eq!(Handshake::new().on_message(auth(0, b"x")), Err(Error::Protocol));
}
