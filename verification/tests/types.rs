use scylla::frame::frame_errors::{EncodeError, ParseError};
use scylla::frame::response::result::{deser_type, ColumnType};
use scylla::frame::value::{type_payload, write_type};

fn same_type(a: &ColumnType, b: &ColumnType) -> bool {
    a == b
}

fn round_trip(t: ColumnType, expected: &[u8]) {
    let mut out = vec![0xee];
    assert_eq!(write_type(&t, &mut out), Ok(()));
    assert_eq!(&out[1..], expected);
    out.push(0x77);
    let mut buf = &out[1..];
    let back = deser_type(&mut buf).unwrap();
    assert!(same_type(&back, &t));
    assert_eq!(buf, &[0x77][..]);
}

#[test]
fn every_plain_type_has_its_tag() {
    round_trip(ColumnType::Ascii, &[0x00, 0x01]);
    round_trip(ColumnType::BigInt, &[0x00, 0x02]);
    round_trip(ColumnType::Boolean, &[0x00, 0x04]);
    round_trip(ColumnType::Counter, &[0x00, 0x05]);
    round_trip(ColumnType::Int, &[0x00, 0x09]);
    round_trip(ColumnType::Timestamp, &[0x00, 0x0b]);
    round_trip(ColumnType::Text, &[0x00, 0x0d]);
    round_trip(ColumnType::Inet, &[0x00, 0x10]);
    round_trip(ColumnType::Date, &[0x00, 0x11]);
    round_trip(ColumnType::Time, &[0x00, 0x12]);
    round_trip(ColumnType::SmallInt, &[0x00, 0x13]);
    round_trip(ColumnType::TinyInt, &[0x00, 0x14]);
}

#[test]
fn list_set_and_map_carry_their_inner_types() {
    round_trip(
        ColumnType::List(Box::new(ColumnType::Int)),
        &[0x00, 0x20, 0x00, 0x09],
    );
    round_trip(
        ColumnType::CqlSet(Box::new(ColumnType::Text)),
        &[0x00, 0x22, 0x00, 0x0d],
    );
    round_trip(
        ColumnType::CqlMap(Box::new(ColumnType::Text), Box::new(ColumnType::BigInt)),
        &[0x00, 0x21, 0x00, 0x0d, 0x00, 0x02],
    );
}

#[test]
fn user_defined_type_keeps_the_order_of_its_fields() {
    let t = ColumnType::UserDefinedType {
        udt_name: "pt".to_string(),
        keyspace: "ks".to_string(),
        field_types: vec![
            ("y".to_string(), ColumnType::Int),
            ("x".to_string(), ColumnType::List(Box::new(ColumnType::Ascii))),
        ],
    };
    round_trip(
        t,
        &[
            0x00, 0x30, 0x00, 0x02, b'k', b's', 0x00, 0x02, b'p', b't', 0x00, 0x02, 0x00, 0x01,
            b'y', 0x00, 0x09, 0x00, 0x01, b'x', 0x00, 0x20, 0x00, 0x01,
        ],
    );
}

#[test]
fn tuple_lists_its_members() {
    round_trip(
        ColumnType::Tuple(vec![ColumnType::Int, ColumnType::Text, ColumnType::Boolean]),
        &[0x00, 0x31, 0x00, 0x03, 0x00, 0x09, 0x00, 0x0d, 0x00, 0x04],
    );
    round_trip(ColumnType::Tuple(vec![]), &[0x00, 0x31, 0x00, 0x00]);
}

#[test]
fn nested_types_round_trip() {
    let t = ColumnType::List(Box::new(ColumnType::CqlMap(
        Box::new(ColumnType::Text),
        Box::new(ColumnType::UserDefinedType {
            udt_name: "u".to_string(),
            keyspace: "k".to_string(),
            field_types: vec![(
                "t".to_string(),
                ColumnType::Tuple(vec![ColumnType::Inet, ColumnType::Date]),
            )],
        }),
    )));
    let bytes = type_payload(&t).unwrap();
    let mut buf = &bytes[..];
    let back = deser_type(&mut buf).unwrap();
    assert!(same_type(&back, &t));
    assert!(buf.is_empty());
    assert!(same_type(&t.clone(), &t));
}

#[test]
fn an_unknown_tag_is_refused_by_its_number() {
    let data = [0x00, 0x03];
    let mut buf = &data[..];
    assert_eq!(
        deser_type(&mut buf).unwrap_err(),
        ParseError::TypeNotImplemented(0x0003)
    );
    let data = [0x00, 0x20, 0x12, 0x34];
    let mut buf = &data[..];
    assert_eq!(
        deser_type(&mut buf).unwrap_err(),
        ParseError::TypeNotImplemented(0x1234)
    );
}

#[test]
fn a_type_that_ends_early_is_a_short_read() {
    let data = [0x00];
    let mut buf = &data[..];
    assert_eq!(deser_type(&mut buf).unwrap_err(), ParseError::ShortRead);
    let data = [0x00, 0x21, 0x00, 0x09];
    let mut buf = &data[..];
    assert_eq!(deser_type(&mut buf).unwrap_err(), ParseError::ShortRead);
    let data = [0x00, 0x31, 0x00, 0x02, 0x00, 0x09];
    let mut buf = &data[..];
    assert_eq!(deser_type(&mut buf).unwrap_err(), ParseError::ShortRead);
}

#[test]
fn a_type_with_a_name_that_is_too_long_cannot_be_written() {
    let t = ColumnType::UserDefinedType {
        udt_name: "n".repeat(0x1_0000),
        keyspace: "ks".to_string(),
        field_types: vec![],
    };
    let mut out = vec![5];
    assert_eq!(write_type(&t, &mut out), Err(EncodeError::TooLong));
    assert_eq!(out, vec![5]);
}
