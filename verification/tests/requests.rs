use bytes::Bytes;
use scylla::cql_to_rust::ValueList;
use scylla::frame::frame_errors::{BadDataReason, EncodeError, ParseError};
use scylla::frame::header::{read_frame, read_frame_header, FrameHeader, OPCODE_RESULT};
use scylla::frame::request::{
    bind_values, parameters_payload, write_execute, write_prepare, write_query, BoundValue,
    QueryParameters,
};
use scylla::frame::response::error::{deser_error, ServerError};
use scylla::frame::types::write_long_string;
use scylla::statement::prepared_statement::{step, PreparedAction, PreparedEvent, PreparedState};

fn plain(consistency: u16) -> QueryParameters {
    QueryParameters {
        consistency,
        skip_metadata: false,
        values: vec![],
        page_size: None,
        paging_state: None,
        serial_consistency: None,
        default_timestamp: None,
    }
}

#[test]
fn a_long_string_has_an_int_length() {
    let mut out = Vec::new();
    assert_eq!(write_long_string("ab\u{e9}", &mut out), Ok(()));
    assert_eq!(out, vec![0, 0, 0, 4, b'a', b'b', 0xc3, 0xa9]);
}

#[test]
fn parameters_without_anything_are_consistency_and_empty_flags() {
    assert_eq!(parameters_payload(&plain(0x0004), false), Ok(vec![0x00, 0x04, 0x00]));
}

#[test]
fn every_part_of_the_parameters_sets_its_flag() {
    let mut p = plain(1);
    p.values = vec![BoundValue::Null];
    assert_eq!(
        parameters_payload(&p, false),
        Ok(vec![0, 1, 0x01, 0, 1, 0xff, 0xff, 0xff, 0xff])
    );
    let mut p = plain(1);
    p.skip_metadata = true;
    assert_eq!(parameters_payload(&p, false), Ok(vec![0, 1, 0x02]));
    let mut p = plain(1);
    p.page_size = Some(5000);
    assert_eq!(parameters_payload(&p, false), Ok(vec![0, 1, 0x04, 0, 0, 0x13, 0x88]));
    let mut p = plain(1);
    p.paging_state = Some(Bytes::from(vec![0xca, 0xfe]));
    assert_eq!(
        parameters_payload(&p, false),
        Ok(vec![0, 1, 0x08, 0, 0, 0, 2, 0xca, 0xfe])
    );
    let mut p = plain(1);
    p.serial_consistency = Some(8);
    assert_eq!(parameters_payload(&p, false), Ok(vec![0, 1, 0x10, 0, 8]));
    let mut p = plain(1);
    p.default_timestamp = Some(-2);
    assert_eq!(
        parameters_payload(&p, false),
        Ok(vec![0, 1, 0x20, 0xff, 0xff, 0xff, 0xff, 0xff, 0xff, 0xff, 0xfe])
    );
}

#[test]
fn the_parts_of_the_parameters_come_in_a_fixed_order() {
    let p = QueryParameters {
        consistency: 6,
        skip_metadata: true,
        values: vec![BoundValue::Value(vec![0, 0, 0, 7]), BoundValue::Null],
        page_size: Some(2),
        paging_state: Some(Bytes::from(vec![9])),
        serial_consistency: Some(9),
        default_timestamp: Some(1),
    };
    assert_eq!(
        parameters_payload(&p, false),
        Ok(vec![
            0, 6, 0x3f, // consistency, flags
            0, 2, 0, 0, 0, 4, 0, 0, 0, 7, 0xff, 0xff, 0xff, 0xff, // values
            0, 0, 0, 2, // page size
            0, 0, 0, 1, 9, // paging state
            0, 9, // serial consistency
            0, 0, 0, 0, 0, 0, 0, 1, // timestamp
        ])
    );
}

#[test]
fn a_value_that_is_not_set_needs_a_protocol_that_knows_it() {
    let mut p = plain(1);
    p.values = vec![BoundValue::Value(vec![1]), BoundValue::NotSet];
    assert_eq!(parameters_payload(&p, false), Err(EncodeError::Unsupported));
    assert_eq!(
        parameters_payload(&p, true),
        Ok(vec![0, 1, 0x01, 0, 2, 0, 0, 0, 1, 1, 0xff, 0xff, 0xff, 0xfe])
    );
    let mut out = vec![7];
    assert_eq!(write_query("q", &p, false, &mut out), Err(EncodeError::Unsupported));
    assert_eq!(out, vec![7]);
}

#[test]
fn too_many_values_are_refused() {
    let mut p = plain(1);
    p.values = vec![BoundValue::Null; 0x1_0000];
    assert_eq!(parameters_payload(&p, true), Err(EncodeError::TooLong));
    p.values = vec![BoundValue::Null; 0xffff];
    assert_eq!(parameters_payload(&p, true).unwrap().len(), 2 + 1 + 2 + 4 * 0xffff);
}

#[test]
fn query_is_the_statement_and_the_parameters() {
    let mut out = vec![0xee];
    assert_eq!(write_query("SELECT 1", &plain(1), false, &mut out), Ok(()));
    let mut expected = vec![0xee, 0, 0, 0, 8];
    expected.extend_from_slice(b"SELECT 1");
    expected.extend_from_slice(&[0, 1, 0]);
    assert_eq!(out, expected);
}

#[test]
fn prepare_is_the_statement() {
    let mut out = Vec::new();
    assert_eq!(write_prepare("INSERT", &mut out), Ok(()));
    let mut expected = vec![0, 0, 0, 6];
    expected.extend_from_slice(b"INSERT");
    assert_eq!(out, expected);
}

#[test]
fn execute_is_the_id_and_the_parameters() {
    let record = (7i32, "x".to_string());
    let mut p = plain(0x000a);
    p.values = bind_values(record.value_list().unwrap());
    assert_eq!(
        p.values,
        vec![BoundValue::Value(vec![0, 0, 0, 7]), BoundValue::Value(vec![b'x'])]
    );
    let id = Bytes::from(vec![0xaa, 0xbb]);
    let mut out = Vec::new();
    assert_eq!(write_execute(&id, &p, false, &mut out), Ok(()));
    assert_eq!(
        out,
        vec![0, 2, 0xaa, 0xbb, 0, 0x0a, 0x01, 0, 2, 0, 0, 0, 4, 0, 0, 0, 7, 0, 0, 0, 1, b'x']
    );
    let long_id = Bytes::from(vec![0u8; 0x1_0000]);
    let mut out = vec![1];
    assert_eq!(write_execute(&long_id, &p, false, &mut out), Err(EncodeError::TooLong));
    assert_eq!(out, vec![1]);
}

#[test]
fn no_payload_is_bound_as_null() {
    assert_eq!(
        bind_values(vec![Some(vec![1, 2]), None, Some(vec![])]),
        vec![BoundValue::Value(vec![1, 2]), BoundValue::Null, BoundValue::Value(vec![])]
    );
    assert_eq!(bind_values(vec![]), vec![]);
}

#[test]
fn frame_header_and_body() {
    let data = [0x84, 0x00, 0x12, 0x34, 0x08, 0, 0, 0, 4, 0, 0, 0, 1, 0x99];
    let mut buf = &data[..];
    let (header, body) = read_frame(&mut buf).unwrap();
    assert_eq!(
        header,
        FrameHeader { version: 0x84, flags: 0, stream: 0x1234, opcode: OPCODE_RESULT, length: 4 }
    );
    assert_eq!(body, &[0, 0, 0, 1][..]);
    assert_eq!(buf, &[0x99][..]);
    let mut buf = &data[..8];
    assert_eq!(read_frame_header(&mut buf), Err(ParseError::ShortRead));
    let mut buf = &data[..12];
    assert_eq!(read_frame(&mut buf), Err(ParseError::ShortRead));
    let data = [0x84, 0x00, 0x00, 0x01, 0x00, 0xff, 0xff, 0xff, 0xff];
    let mut buf = &data[..];
    assert_eq!(
        read_frame_header(&mut buf),
        Err(ParseError::BadData(BadDataReason::NegativeLength { value: -1 }))
    );
}

#[test]
fn error_body_with_and_without_an_unknown_id() {
    let data = [0, 0, 0x25, 0x00, 0, 2, b'n', b'o', 0, 2, 0xaa, 0xbb, 0x11];
    let mut buf = &data[..];
    match deser_error(&mut buf).unwrap() {
        ServerError::Unprepared { message, id } => {
            assert_eq!(message, "no");
            assert_eq!(id.as_ref(), &[0xaa, 0xbb][..]);
        }
        other => panic!("not unprepared: {:?}", other),
    }
    assert_eq!(buf, &[0x11][..]);
    let data = [0, 0, 0x20, 0x00, 0, 3, b'b', b'a', b'd', 0x55];
    let mut buf = &data[..];
    match deser_error(&mut buf).unwrap() {
        ServerError::Other { code, message } => {
            assert_eq!(code, 0x2000);
            assert_eq!(message, "bad");
        }
        other => panic!("not a plain error: {:?}", other),
    }
    assert_eq!(buf, &[0x55][..]);
    let data = [0, 0, 0x25, 0x00, 0, 0, 0, 4, 1];
    let mut buf = &data[..];
    assert_eq!(deser_error(&mut buf).unwrap_err(), ParseError::ShortRead);
}

fn ready(id: &[u8], retried: bool) -> PreparedState {
    PreparedState::Ready { id: Bytes::copy_from_slice(id), retried }
}

fn is_ready(state: &PreparedState, expected_id: &[u8], expected_retried: bool) -> bool {
    match state {
        PreparedState::Ready { id, retried } => {
            id.as_ref() == expected_id && *retried == expected_retried
        }
        _ => false,
    }
}

#[test]
fn an_unknown_id_is_retried_once_and_then_surfaced() {
    let (state, action) = step(
        PreparedState::Absent,
        PreparedEvent::Prepared { id: Bytes::from(vec![1, 2]) },
    );
    assert_eq!(action, PreparedAction::Complete);
    assert!(is_ready(&state, &[1, 2], false));

    let (state, action) = step(
        state,
        PreparedEvent::Unprepared { unknown_id: Bytes::from(vec![1, 2]) },
    );
    assert_eq!(action, PreparedAction::Prepare);
    assert!(matches!(state, PreparedState::Repreparing));

    let (state, action) = step(state, PreparedEvent::Prepared { id: Bytes::from(vec![1, 2]) });
    assert_eq!(action, PreparedAction::Execute);
    assert!(is_ready(&state, &[1, 2], true));

    let (state, action) = step(
        state,
        PreparedEvent::Unprepared { unknown_id: Bytes::from(vec![1, 2]) },
    );
    assert_eq!(action, PreparedAction::Surface);
    assert!(matches!(state, PreparedState::Absent));
}

#[test]
fn a_retry_that_succeeds_makes_the_statement_ready_again() {
    let (state, action) = step(ready(&[5], true), PreparedEvent::Executed);
    assert_eq!(action, PreparedAction::Complete);
    assert!(is_ready(&state, &[5], false));
    let (state, action) = step(state, PreparedEvent::Unprepared { unknown_id: Bytes::from(vec![5]) });
    assert_eq!(action, PreparedAction::Prepare);
    assert!(matches!(state, PreparedState::Repreparing));
}

#[test]
fn ids_are_compared_byte_by_byte() {
    let (state, action) = step(
        ready(&[1, 2, 3], false),
        PreparedEvent::Unprepared { unknown_id: Bytes::from(vec![1, 2, 4]) },
    );
    assert_eq!(action, PreparedAction::Surface);
    assert!(is_ready(&state, &[1, 2, 3], false));
    let (state, action) = step(
        ready(&[1, 2, 3], false),
        PreparedEvent::Unprepared { unknown_id: Bytes::from(vec![1, 2]) },
    );
    assert_eq!(action, PreparedAction::Surface);
    assert!(is_ready(&state, &[1, 2, 3], false));
}

#[test]
fn other_errors_and_events_out_of_place_are_surfaced() {
    let (state, action) = step(ready(&[1], true), PreparedEvent::Failed);
    assert_eq!(action, PreparedAction::Surface);
    assert!(is_ready(&state, &[1], false));
    let (state, action) = step(PreparedState::Repreparing, PreparedEvent::Failed);
    assert_eq!(action, PreparedAction::Surface);
    assert!(matches!(state, PreparedState::Absent));
    let (state, action) = step(PreparedState::Absent, PreparedEvent::Executed);
    assert_eq!(action, PreparedAction::Surface);
    assert!(matches!(state, PreparedState::Absent));
    let (state, action) = step(PreparedState::Repreparing, PreparedEvent::Executed);
    assert_eq!(action, PreparedAction::Surface);
    assert!(matches!(state, PreparedState::Repreparing));
    let (state, action) = step(ready(&[1], false), PreparedEvent::Prepared { id: Bytes::from(vec![2]) });
    assert_eq!(action, PreparedAction::Complete);
    assert!(is_ready(&state, &[2], false));
}
