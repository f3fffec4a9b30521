use pgwire::connection::ConnectionState;
use pgwire::error::Error;
use pgwire::frame::decode_frame;
use pgwire::frontend::Parameter;
use pgwire::message::BackendMessage;
use pgwire::pipeline::{Outcome, Pipeline, Progress};
use pgwire::query_string::{AssertQuerySafe, QuerySafeStr};
use pgwire::session::Session;
use pgwire::statement::StatementRef;

/// The type tags of the frames in `bytes`, in order.
fn tags(bytes: &[u8]) -> Vec<u8> {
    let mut tags = Vec::new();
    let mut at = 0;
    while let Some((frame, used)) = decode_frame(&bytes[at..]).unwrap() {
        tags.push(frame.tag);
        at += used;
    }
    assert_eq!(at, bytes.len());
    tags
}

/// The payloads of the frames with type tag `tag` in `bytes`, in order.
fn payloads(bytes: &[u8], tag: u8) -> Vec<Vec<u8>> {
    let mut found = Vec::new();
    let mut at = 0;
    while let Some((frame, used)) = decode_frame(&bytes[at..]).unwrap() {
        if frame.tag == tag {
            found.push(frame.payload);
        }
        at += used;
    }
    found
}

fn submit(session: &mut Session, sql: &str, wire: &mut Vec<u8>) -> Result<StatementRef, Error> {
    let query = AssertQuerySafe(sql).into_query_string();
    session.submit(&query, &[], &[], 0, true, wire)
}

fn answers(pipeline: Pipeline, messages: Vec<BackendMessage>) -> Vec<Outcome> {
    let mut pipeline = pipeline;
    for message in messages {
        match pipeline.on_message(message).unwrap() {
            Progress::More(next) => pipeline = next,
            Progress::Done(outcomes) => return outcomes,
        }
    }
    panic!("the backend did not say that it is ready");
}

#[test]
fn a_new_statement_is_parsed_described_bound_and_executed() {
    let mut session = Session::new(4);
    let mut wire = Vec::new();
    let statement = session.submit(&"SELECT 1".into_query_string(), &[], &[], 0, true, &mut wire);
    assert_eq!(statement, Ok(StatementRef::Named(0)));
    assert_eq!(tags(&wire), b"PDBE");
    assert_eq!(payloads(&wire, b'P'), vec![b"_sqlx_s_0\0SELECT 1\0\0\0".to_vec()]);
    assert_eq!(session.state(), ConnectionState::Executing);
    assert_eq!(session.queued(), 1);
}

#[test]
fn the_second_submission_sends_no_parse() {
    let mut session = Session::new(4);
    let mut wire = Vec::new();
    let first = submit(&mut session, "SELECT $1", &mut wire).unwrap();
    assert_eq!(tags(&wire), b"PDBE");
    wire.clear();
    let second = submit(&mut session, "SELECT $1", &mut wire).unwrap();
    assert_eq!(second, first);
    assert_eq!(tags(&wire), b"BE");
    assert_eq!(payloads(&wire, b'B'), vec![b"\0_sqlx_s_0\0\0\0\0\0\0\x01\0\x01".to_vec()]);
}

#[test]
fn the_same_text_is_the_same_statement_whatever_holds_it() {
    let mut session = Session::new(4);
    let mut wire = Vec::new();
    let owned = String::from("SELECT 1");
    let queries = [
        "SELECT 1".into_query_string(),
        AssertQuerySafe(owned.as_str()).into_query_string(),
        AssertQuerySafe(owned.clone()).into_query_string(),
        AssertQuerySafe(owned.as_str()).into_query_string().into_static(),
    ];
    for query in &queries {
        assert_eq!(session.submit(query, &[], &[], 0, true, &mut wire), Ok(StatementRef::Named(0)));
    }
    assert_eq!(tags(&wire), b"PDBEBEBEBE");
}

#[test]
fn one_statement_too_many_sends_one_close_before_the_parse() {
    let capacity = 3;
    let mut session = Session::new(capacity);
    let mut wire = Vec::new();
    for i in 0..capacity {
        submit(&mut session, &format!("SELECT {}", i), &mut wire).unwrap();
    }
    assert!(payloads(&wire, b'C').is_empty());
    wire.clear();
    let statement = submit(&mut session, "SELECT 'one more'", &mut wire).unwrap();
    assert_eq!(statement, StatementRef::Named(3));
    assert_eq!(tags(&wire), b"CPDBE");
    assert_eq!(payloads(&wire, b'C'), vec![b"S_sqlx_s_0\0".to_vec()]);

    wire.clear();
    assert_eq!(submit(&mut session, "SELECT 0", &mut wire), Ok(StatementRef::Named(4)));
    assert_eq!(tags(&wire), b"CPDBE");
    assert_eq!(payloads(&wire, b'C'), vec![b"S_sqlx_s_1\0".to_vec()]);
}

#[test]
fn a_session_without_cache_uses_the_unnamed_statement() {
    let mut session = Session::new(0);
    let mut wire = Vec::new();
    assert_eq!(submit(&mut session, "SELECT 1", &mut wire), Ok(StatementRef::Unnamed));
    assert_eq!(submit(&mut session, "SELECT 1", &mut wire), Ok(StatementRef::Unnamed));
    assert_eq!(tags(&wire), b"PDBEPDBE");
}

#[test]
fn parameters_and_limit_reach_the_wire() {
    let mut session = Session::new(1);
    let mut wire = Vec::new();
    let params = [Parameter { binary: true, value: Some(vec![0, 0, 0, 9]) }];
    let query = "SELECT $1::int4".into_query_string();
    session.submit(&query, &[23], &params, 50, false, &mut wire).unwrap();
    assert_eq!(payloads(&wire, b'P'), vec![b"_sqlx_s_0\0SELECT $1::int4\0\0\x01\0\0\0\x17".to_vec()]);
    assert_eq!(
        payloads(&wire, b'B'),
        vec![b"\0_sqlx_s_0\0\0\x01\0\x01\0\x01\0\0\0\x04\0\0\0\x09\0\x01\0\0".to_vec()]
    );
    assert_eq!(payloads(&wire, b'E'), vec![b"\0\0\0\0\x32".to_vec()]);
}

#[test]
fn a_request_that_cannot_be_written_changes_nothing() {
    let mut session = Session::new(1);
    let mut wire = vec![1, 2];
    submit(&mut session, "SELECT 1", &mut wire).unwrap();
    let before = wire.clone();
    assert_eq!(submit(&mut session, "SELECT\0 2", &mut wire), Err(Error::Protocol));
    assert_eq!(wire, before);
    assert_eq!(session.queued(), 1);
    wire.clear();
    assert_eq!(submit(&mut session, "SELECT 1", &mut wire), Ok(StatementRef::Named(0)));
    assert_eq!(tags(&wire), b"BE");
}

#[test]
fn a_pipeline_with_a_failing_request_leaves_the_session_usable() {
    let mut session = Session::new(8);
    let mut wire = Vec::new();
    submit(&mut session, "SELECT 1", &mut wire).unwrap();
    submit(&mut session, "SELECT 1/0", &mut wire).unwrap();
    submit(&mut session, "SELECT 3", &mut wire).unwrap();
    let pipeline = session.sync(&mut wire).unwrap();
    assert_eq!(tags(&wire), b"PDBEPDBEPDBES");

    let outcomes = answers(
        pipeline,
        vec![
            BackendMessage::ParseComplete,
            BackendMessage::ParameterDescription(vec![0, 0]),
            BackendMessage::RowDescription(vec![0, 1]),
            BackendMessage::BindComplete,
            BackendMessage::DataRow(vec![1]),
            BackendMessage::CommandComplete(b"SELECT 1\0".to_vec()),
            BackendMessage::ParseComplete,
            BackendMessage::ParameterDescription(vec![0, 0]),
            BackendMessage::RowDescription(vec![0, 1]),
            BackendMessage::BindComplete,
            BackendMessage::ErrorResponse(b"SERROR\0Mdivision by zero\0\0".to_vec()),
            BackendMessage::ReadyForQuery(b'I'),
        ],
    );
    assert_eq!(outcomes.len(), 3);
    assert_eq!(outcomes[0].error(), None);
    assert_eq!(outcomes[1], Outcome::Failed(b"SERROR\0Mdivision by zero\0\0".to_vec()));
    assert_eq!(outcomes[2], Outcome::Skipped);

    session.fail(outcomes[1].error().unwrap());
    session.settle(&outcomes);
    assert_eq!(session.state(), ConnectionState::Ready);
    assert_eq!(session.queued(), 0);

    wire.clear();
    assert_eq!(submit(&mut session, "SELECT 1", &mut wire), Ok(StatementRef::Named(0)));
    assert_eq!(tags(&wire), b"BE");
}

#[test]
fn statements_of_requests_that_did_not_run_are_parsed_again() {
    let mut session = Session::new(8);
    let mut wire = Vec::new();
    submit(&mut session, "SELECT 1", &mut wire).unwrap();
    submit(&mut session, "SELEC 2", &mut wire).unwrap();
    submit(&mut session, "SELECT 3", &mut wire).unwrap();
    let pipeline = session.sync(&mut wire).unwrap();
    let outcomes = answers(
        pipeline,
        vec![
            BackendMessage::ParseComplete,
            BackendMessage::BindComplete,
            BackendMessage::CommandComplete(b"SELECT 1\0".to_vec()),
            BackendMessage::ErrorResponse(b"SERROR\0".to_vec()),
            BackendMessage::ReadyForQuery(b'I'),
        ],
    );
    session.settle(&outcomes);

    wire.clear();
    assert_eq!(submit(&mut session, "SELECT 1", &mut wire), Ok(StatementRef::Named(0)));
    assert_eq!(submit(&mut session, "SELEC 2", &mut wire), Ok(StatementRef::Named(3)));
    assert_eq!(submit(&mut session, "SELECT 3", &mut wire), Ok(StatementRef::Named(4)));
    assert_eq!(tags(&wire), b"BEPDBEPDBE");
}

#[test]
fn a_known_statement_that_fails_stays_prepared() {
    let mut session = Session::new(8);
    let mut wire = Vec::new();
    submit(&mut session, "SELECT 1/$1", &mut wire).unwrap();
    let pipeline = session.sync(&mut wire).unwrap();
    let outcomes = answers(
        pipeline,
        vec![
            BackendMessage::ParseComplete,
            BackendMessage::BindComplete,
            BackendMessage::CommandComplete(b"SELECT 1\0".to_vec()),
            BackendMessage::ReadyForQuery(b'I'),
        ],
    );
    session.settle(&outcomes);

    submit(&mut session, "SELECT 1/$1", &mut wire).unwrap();
    let pipeline = session.sync(&mut wire).unwrap();
    let outcomes = answers(
        pipeline,
        vec![
            BackendMessage::BindComplete,
            BackendMessage::ErrorResponse(b"SERROR\0".to_vec()),
            BackendMessage::ReadyForQuery(b'I'),
        ],
    );
    assert_eq!(outcomes, vec![Outcome::Failed(b"SERROR\0".to_vec())]);
    session.settle(&outcomes);

    wire.clear();
    assert_eq!(submit(&mut session, "SELECT 1/$1", &mut wire), Ok(StatementRef::Named(0)));
    assert_eq!(tags(&wire), b"BE");
}

#[test]
fn a_failed_session_refuses_requests() {
    let mut session = Session::new(2);
    let mut wire = Vec::new();
    session.fail(Error::Io);
    assert_eq!(session.state(), ConnectionState::Failed);
    assert_eq!(submit(&mut session, "SELECT 1", &mut wire), Err(Error::ConnectionFailed));
    assert_eq!(session.sync(&mut wire).err(), Some(Error::ConnectionFailed));
    assert!(wire.is_empty());
    session.settle(&[]);
    assert_eq!(session.state(), ConnectionState::Failed);
}

#[test]
fn a_sync_without_requests_opens_an_empty_pipeline() {
    let mut session = Session::new(2);
    let mut wire = Vec::new();
    let pipeline = session.sync(&mut wire).unwrap();
    assert_eq!(wire, b"S\0\0\0\x04");
    assert!(answers(pipeline, vec![BackendMessage::ReadyForQuery(b'I')]).is_empty());
}

#[test]
fn described_types_are_kept_with_the_statement() {
    let mut session = Session::new(2);
    let mut wire = Vec::new();
    submit(&mut session, "SELECT $1", &mut wire).unwrap();
    assert!(session.describe("SELECT $1", vec![25], vec![25]));
    assert!(!session.describe("SELECT $2", vec![25], vec![25]));
}
