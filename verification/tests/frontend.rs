use pgwire::backend_key_data::BackendKeyData;
use pgwire::error::Error;
use pgwire::frame::decode_frame;
use pgwire::frontend::{bind, cancel_request, close, describe, execute, parse, sync, Parameter};
use pgwire::statement::StatementRef;

#[test]
fn a_parse_names_the_statement_and_carries_the_text() {
    let mut buf = Vec::new();
    parse(StatementRef::Named(7), "SELECT $1", &[23], &mut buf).unwrap();
    assert_eq!(buf, b"P\0\0\0\x1e_sqlx_s_7\0SELECT $1\0\0\x01\0\0\0\x17");
}

#[test]
fn a_parse_of_the_unnamed_statement() {
    let mut buf = Vec::new();
    parse(StatementRef::Unnamed, "", &[], &mut buf).unwrap();
    assert_eq!(buf, b"P\0\0\0\x08\0\0\0\0");
}

#[test]
fn a_parse_carries_text_that_is_not_ascii() {
    let mut buf = Vec::new();
    parse(StatementRef::Unnamed, "SELECT 'é'", &[], &mut buf).unwrap();
    assert_eq!(buf, b"P\0\0\0\x13\0SELECT '\xc3\xa9'\0\0\0");
}

#[test]
fn a_parse_refuses_text_with_a_zero_byte() {
    let mut buf = vec![9];
    assert_eq!(parse(StatementRef::Named(1), "SELECT\0 1", &[], &mut buf), Err(Error::Protocol));
    assert_eq!(buf, [9]);
}

#[test]
fn a_parse_refuses_too_many_parameter_types() {
    let mut buf = Vec::new();
    let types = vec![23u32; 0x1_0000];
    assert_eq!(parse(StatementRef::Unnamed, "SELECT 1", &types, &mut buf), Err(Error::Protocol));
    assert!(buf.is_empty());
    assert!(parse(StatementRef::Unnamed, "SELECT 1", &types[1..], &mut buf).is_ok());
    assert_eq!(buf.len(), 5 + 1 + 9 + 2 + 4 * 0xffff);
}

#[test]
fn describe_and_close_are_about_a_statement() {
    let mut buf = Vec::new();
    describe(StatementRef::Named(12), &mut buf);
    assert_eq!(buf, b"D\0\0\0\x10S_sqlx_s_12\0");
    buf.clear();
    close(StatementRef::Named(12), &mut buf);
    assert_eq!(buf, b"C\0\0\0\x10S_sqlx_s_12\0");
    buf.clear();
    describe(StatementRef::Unnamed, &mut buf);
    assert_eq!(buf, b"D\0\0\0\x06S\0");
    buf.clear();
    close(StatementRef::Named(u32::MAX), &mut buf);
    assert_eq!(buf, b"C\0\0\0\x18S_sqlx_s_4294967295\0");
}

#[test]
fn an_execute_carries_its_row_limit() {
    let mut buf = Vec::new();
    execute(0, &mut buf);
    assert_eq!(buf, b"E\0\0\0\x09\0\0\0\0\0");
    buf.clear();
    execute(500, &mut buf);
    assert_eq!(buf, b"E\0\0\0\x09\0\0\0\x01\xf4");
}

#[test]
fn a_sync_has_no_payload() {
    let mut buf = vec![1];
    sync(&mut buf);
    assert_eq!(buf, b"\x01S\0\0\0\x04");
}

#[test]
fn a_bind_carries_formats_and_values() {
    let params = [
        Parameter { binary: true, value: Some(vec![0, 0, 0, 42]) },
        Parameter { binary: false, value: Some(b"text".to_vec()) },
        Parameter { binary: false, value: None },
        Parameter { binary: true, value: Some(vec![]) },
    ];
    let mut buf = Vec::new();
    bind(StatementRef::Named(3), &params, true, &mut buf).unwrap();
    let mut expected = Vec::new();
    expected.extend_from_slice(b"B\0\0\0\x37");
    expected.extend_from_slice(b"\0_sqlx_s_3\0");
    expected.extend_from_slice(&[0, 4, 0, 1, 0, 0, 0, 0, 0, 1]);
    expected.extend_from_slice(&[0, 4]);
    expected.extend_from_slice(&[0, 0, 0, 4, 0, 0, 0, 42]);
    expected.extend_from_slice(b"\0\0\0\x04text");
    expected.extend_from_slice(&[0xff, 0xff, 0xff, 0xff]);
    expected.extend_from_slice(&[0, 0, 0, 0]);
    expected.extend_from_slice(&[0, 1, 0, 1]);
    assert_eq!(buf, expected);
}

#[test]
fn a_bind_without_parameters_and_with_a_text_result() {
    let mut buf = Vec::new();
    bind(StatementRef::Unnamed, &[], false, &mut buf).unwrap();
    assert_eq!(buf, b"B\0\0\0\x0e\0\0\0\0\0\0\0\x01\0\0");
}

#[test]
fn a_bind_refuses_too_many_parameters() {
    let params = vec![Parameter { binary: false, value: None }; 0x1_0000];
    let mut buf = vec![5];
    assert_eq!(bind(StatementRef::Unnamed, &params, false, &mut buf), Err(Error::Protocol));
    assert_eq!(buf, [5]);
    assert!(bind(StatementRef::Unnamed, &params[1..], false, &mut buf).is_ok());
}

#[test]
fn every_frontend_message_is_one_frame() {
    let mut buf = Vec::new();
    parse(StatementRef::Named(1), "SELECT 1", &[], &mut buf).unwrap();
    describe(StatementRef::Named(1), &mut buf);
    bind(StatementRef::Named(1), &[], true, &mut buf).unwrap();
    execute(0, &mut buf);
    close(StatementRef::Named(0), &mut buf);
    sync(&mut buf);
    let mut tags = Vec::new();
    let mut at = 0;
    while let Some((frame, used)) = decode_frame(&buf[at..]).unwrap() {
        tags.push(frame.tag);
        at += used;
    }
    assert_eq!(tags, b"PDBECS");
    assert_eq!(at, buf.len());
}

#[test]
fn a_cancel_request_carries_the_key_of_the_backend() {
    let key = BackendKeyData::decode(b"\0\0'\xc6\x89R\xc5+").unwrap();
    let mut buf = Vec::new();
    cancel_request(&key, &mut buf);
    assert_eq!(buf, b"\0\0\0\x10\x04\xd2\x16\x2e\0\0'\xc6\x89R\xc5+");
}

#[test]
fn an_encoded_key_decodes_to_itself() {
    for (process_id, secret_key) in [(0, 0), (1, u32::MAX), (10182, 2303903019), (u32::MAX, 7)] {
        let key = BackendKeyData::new(process_id, secret_key);
        let mut buf = Vec::new();
        key.encode(&mut buf);
        assert_eq!(buf.len(), 8);
        assert_eq!(BackendKeyData::decode(&buf), Ok(key));
    }
}
