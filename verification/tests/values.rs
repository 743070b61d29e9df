use scylla::frame::frame_errors::{BadDataReason, ParseError};
use scylla::frame::response::result::{
    deser_cql_value, CQLValue, ColumnType, CqlDate, CqlInet, CqlTime, CqlTimestamp,
};
use scylla::frame::value::{value_payload, write_value};

fn decode(typ: &ColumnType, payload: &[u8]) -> Result<CQLValue, ParseError> {
    let mut buf = payload;
    deser_cql_value(typ, &mut buf)
}

fn round_trip(typ: &ColumnType, value: CQLValue, expected: &[u8]) {
    let mut out = vec![0xaa];
    assert_eq!(write_value(&value, &mut out), Ok(()));
    assert_eq!(&out[1..], expected);
    let mut buf = &out[1..];
    assert_eq!(deser_cql_value(typ, &mut buf), Ok(value));
    assert!(buf.is_empty());
}

fn wrong_length(expected: usize, actual: usize) -> ParseError {
    ParseError::BadData(BadDataReason::WrongLength { expected, actual })
}

#[test]
fn test_list_from_cql() {
    let mut my_vec: Vec<CQLValue> = Vec::new();

    my_vec.push(CQLValue::Int(20));
    my_vec.push(CQLValue::Int(2));
    my_vec.push(CQLValue::Int(13));

    let cql: CQLValue = CQLValue::List(my_vec);
    let decoded = cql.into_vec().unwrap();

    assert_eq!(decoded[0], CQLValue::Int(20));
    assert_eq!(decoded[1], CQLValue::Int(2));
    assert_eq!(decoded[2], CQLValue::Int(13));
}

#[test]
fn test_set_from_cql() {
    let mut my_vec: Vec<CQLValue> = Vec::new();

    my_vec.push(CQLValue::Int(20));
    my_vec.push(CQLValue::Int(2));
    my_vec.push(CQLValue::Int(13));

    let cql: CQLValue = CQLValue::CqlSet(my_vec);
    let decoded = cql.as_set().unwrap();

    assert_eq!(decoded[0], CQLValue::Int(20));
    assert_eq!(decoded[1], CQLValue::Int(2));
    assert_eq!(decoded[2], CQLValue::Int(13));
}

#[test]
fn test_map_from_cql() {
    let mut my_vec: Vec<(CQLValue, CQLValue)> = Vec::new();

    my_vec.push((CQLValue::Int(20), CQLValue::Int(21)));
    my_vec.push((CQLValue::Int(2), CQLValue::Int(3)));

    let cql: CQLValue = CQLValue::CqlMap(my_vec);

    let decoded = cql.into_pair_vec().unwrap();

    assert_eq!(CQLValue::Int(20), decoded[0].0);
    assert_eq!(CQLValue::Int(21), decoded[0].1);

    assert_eq!(CQLValue::Int(2), decoded[1].0);
    assert_eq!(CQLValue::Int(3), decoded[1].1);
}

#[test]
fn accessors_give_what_the_variant_holds_and_nothing_else() {
    let ascii = CQLValue::Ascii("a".to_string());
    let text = CQLValue::Text("t".to_string());
    assert_eq!(ascii.as_ascii(), Some(&"a".to_string()));
    assert_eq!(ascii.as_text(), None);
    assert_eq!(text.as_text(), Some(&"t".to_string()));
    assert_eq!(text.as_ascii(), None);
    assert_eq!(ascii.into_string(), Some("a".to_string()));
    assert_eq!(text.into_string(), Some("t".to_string()));
    assert_eq!(CQLValue::Int(1).into_string(), None);
    assert_eq!(CQLValue::Int(7).as_int(), Some(7));
    assert_eq!(CQLValue::BigInt(7).as_int(), None);
    assert_eq!(CQLValue::BigInt(-8).as_bigint(), Some(-8));
    assert_eq!(CQLValue::Boolean(true).as_boolean(), Some(true));
    assert_eq!(CQLValue::Counter(u64::MAX).as_counter(), Some(u64::MAX));
    assert_eq!(CQLValue::BigInt(1).as_counter(), None);
    assert_eq!(CQLValue::SmallInt(-3).as_smallint(), Some(-3));
    assert_eq!(CQLValue::TinyInt(-4).as_tinyint(), Some(-4));
    let date = CqlDate { days_since_epoch: 19000 };
    assert_eq!(CQLValue::Date(date).as_date(), Some(date));
    let time = CqlTime { nanoseconds: 1_000_000_000 };
    assert_eq!(CQLValue::Time(time).as_time(), Some(time));
    let stamp = CqlTimestamp { millis_since_epoch: -1 };
    assert_eq!(CQLValue::Timestamp(stamp).as_timestamp(), Some(stamp));
    assert_eq!(CQLValue::Timestamp(stamp).as_time(), None);
    let inet = CqlInet::V4([127, 0, 0, 1]);
    assert_eq!(CQLValue::Inet(inet).as_inet(), Some(inet));
    let list = CQLValue::List(vec![CQLValue::Int(1)]);
    assert_eq!(list.as_list(), Some(&vec![CQLValue::Int(1)]));
    assert_eq!(list.as_set(), None);
    assert_eq!(CQLValue::CqlSet(vec![]).into_vec(), Some(vec![]));
    assert_eq!(CQLValue::Int(1).into_vec(), None);
    assert_eq!(CQLValue::Int(1).into_pair_vec(), None);
}

#[test]
fn integers_are_big_endian_twos_complement() {
    round_trip(&ColumnType::Int, CQLValue::Int(42), &[0, 0, 0, 0x2a]);
    round_trip(&ColumnType::Int, CQLValue::Int(-2), &[0xff, 0xff, 0xff, 0xfe]);
    round_trip(&ColumnType::Int, CQLValue::Int(i32::MIN), &[0x80, 0, 0, 0]);
    round_trip(
        &ColumnType::BigInt,
        CQLValue::BigInt(0x0102_0304_0506_0708),
        &[1, 2, 3, 4, 5, 6, 7, 8],
    );
    round_trip(
        &ColumnType::BigInt,
        CQLValue::BigInt(-1),
        &[0xff, 0xff, 0xff, 0xff, 0xff, 0xff, 0xff, 0xff],
    );
    round_trip(&ColumnType::SmallInt, CQLValue::SmallInt(-2), &[0xff, 0xfe]);
    round_trip(&ColumnType::SmallInt, CQLValue::SmallInt(0x1234), &[0x12, 0x34]);
    round_trip(&ColumnType::TinyInt, CQLValue::TinyInt(-128), &[0x80]);
    round_trip(&ColumnType::TinyInt, CQLValue::TinyInt(127), &[0x7f]);
    round_trip(&ColumnType::TinyInt, CQLValue::TinyInt(-1), &[0xff]);
}

#[test]
fn counter_is_unsigned() {
    round_trip(
        &ColumnType::Counter,
        CQLValue::Counter(0xffff_ffff_ffff_fffe),
        &[0xff, 0xff, 0xff, 0xff, 0xff, 0xff, 0xff, 0xfe],
    );
    round_trip(
        &ColumnType::Counter,
        CQLValue::Counter(0x8000_0000_0000_0000),
        &[0x80, 0, 0, 0, 0, 0, 0, 0],
    );
}

#[test]
fn boolean_is_true_where_the_signed_byte_is_above_zero() {
    round_trip(&ColumnType::Boolean, CQLValue::Boolean(true), &[1]);
    round_trip(&ColumnType::Boolean, CQLValue::Boolean(false), &[0]);
    assert_eq!(
        decode(&ColumnType::Boolean, &[0x7f]),
        Ok(CQLValue::Boolean(true))
    );
    assert_eq!(
        decode(&ColumnType::Boolean, &[0x80]),
        Ok(CQLValue::Boolean(false))
    );
    assert_eq!(
        decode(&ColumnType::Boolean, &[0xff]),
        Ok(CQLValue::Boolean(false))
    );
}

#[test]
fn date_time_and_timestamp_hold_the_number_on_the_wire() {
    round_trip(
        &ColumnType::Date,
        CQLValue::Date(CqlDate { days_since_epoch: 1 }),
        &[0, 0, 0, 1],
    );
    round_trip(
        &ColumnType::Date,
        CQLValue::Date(CqlDate { days_since_epoch: -1 }),
        &[0xff, 0xff, 0xff, 0xff],
    );
    round_trip(
        &ColumnType::Date,
        CQLValue::Date(CqlDate { days_since_epoch: i32::MAX }),
        &[0x7f, 0xff, 0xff, 0xff],
    );
    round_trip(
        &ColumnType::Time,
        CQLValue::Time(CqlTime { nanoseconds: 86_399_999_999_999 }),
        &[0x00, 0x00, 0x4e, 0x94, 0x91, 0x4e, 0xff, 0xff],
    );
    round_trip(
        &ColumnType::Timestamp,
        CQLValue::Timestamp(CqlTimestamp { millis_since_epoch: 1_600_000_000_000 }),
        &[0x00, 0x00, 0x01, 0x74, 0x87, 0x6e, 0x80, 0x00],
    );
    round_trip(
        &ColumnType::Timestamp,
        CQLValue::Timestamp(CqlTimestamp { millis_since_epoch: i64::MIN }),
        &[0x80, 0, 0, 0, 0, 0, 0, 0],
    );
}

#[test]
fn fixed_width_types_refuse_any_other_length() {
    assert_eq!(decode(&ColumnType::Int, &[0, 0, 1]), Err(wrong_length(4, 3)));
    assert_eq!(decode(&ColumnType::Int, &[0, 0, 0, 1, 0]), Err(wrong_length(4, 5)));
    assert_eq!(decode(&ColumnType::BigInt, &[0; 4]), Err(wrong_length(8, 4)));
    assert_eq!(decode(&ColumnType::Counter, &[]), Err(wrong_length(8, 0)));
    assert_eq!(decode(&ColumnType::SmallInt, &[1]), Err(wrong_length(2, 1)));
    assert_eq!(decode(&ColumnType::TinyInt, &[1, 2]), Err(wrong_length(1, 2)));
    assert_eq!(decode(&ColumnType::Boolean, &[]), Err(wrong_length(1, 0)));
    assert_eq!(decode(&ColumnType::Date, &[0; 8]), Err(wrong_length(4, 8)));
    assert_eq!(decode(&ColumnType::Time, &[0; 7]), Err(wrong_length(8, 7)));
    assert_eq!(decode(&ColumnType::Timestamp, &[0; 9]), Err(wrong_length(8, 9)));
}

#[test]
fn text_is_utf8() {
    assert_eq!(
        decode(&ColumnType::Text, &[0xc3, 0xa9]),
        Ok(CQLValue::Text("\u{e9}".to_string()))
    );
    assert_eq!(
        decode(&ColumnType::Text, &[0xc3, 0x28]),
        Err(ParseError::BadData(BadDataReason::InvalidUtf8))
    );
    round_trip(&ColumnType::Text, CQLValue::Text(String::new()), &[]);
    round_trip(
        &ColumnType::Text,
        CQLValue::Text("h\u{e9}\u{20ac}".to_string()),
        &[b'h', 0xc3, 0xa9, 0xe2, 0x82, 0xac],
    );
}

#[test]
fn text_takes_the_whole_payload() {
    let data = [b'a', b'b', b'c'];
    let mut buf = &data[..];
    assert_eq!(
        deser_cql_value(&ColumnType::Text, &mut buf),
        Ok(CQLValue::Text("abc".to_string()))
    );
    assert!(buf.is_empty());
    let mut buf = &data[..];
    assert_eq!(
        deser_cql_value(&ColumnType::Ascii, &mut buf),
        Ok(CQLValue::Ascii("abc".to_string()))
    );
    assert!(buf.is_empty());
}

#[test]
fn ascii_refuses_bytes_above_7f_that_text_accepts() {
    assert_eq!(
        decode(&ColumnType::Ascii, &[b'o', b'k', 0x7f]),
        Ok(CQLValue::Ascii("ok\u{7f}".to_string()))
    );
    assert_eq!(
        decode(&ColumnType::Ascii, &[b'o', 0xc3, 0xa9]),
        Err(ParseError::BadData(BadDataReason::NotAscii))
    );
    assert_eq!(
        decode(&ColumnType::Ascii, &[0x80]),
        Err(ParseError::BadData(BadDataReason::NotAscii))
    );
    assert_eq!(
        decode(&ColumnType::Text, &[b'o', 0xc3, 0xa9]),
        Ok(CQLValue::Text("o\u{e9}".to_string()))
    );
    round_trip(&ColumnType::Ascii, CQLValue::Ascii("abc".to_string()), b"abc");
}

#[test]
fn inet_is_four_or_sixteen_bytes() {
    round_trip(
        &ColumnType::Inet,
        CQLValue::Inet(CqlInet::V4([192, 168, 0, 1])),
        &[192, 168, 0, 1],
    );
    let v6 = [0x20, 0x01, 0x0d, 0xb8, 0, 0, 0, 0, 0, 0, 0, 0, 0, 0, 0, 0x01];
    round_trip(&ColumnType::Inet, CQLValue::Inet(CqlInet::V6(v6)), &v6);
    for len in [0usize, 1, 3, 5, 15, 17, 32] {
        let payload = vec![1u8; len];
        assert_eq!(
            decode(&ColumnType::Inet, &payload),
            Err(ParseError::BadData(BadDataReason::InvalidInetLength { actual: len }))
        );
    }
}

#[test]
fn list_and_set_keep_the_order_of_their_elements() {
    let typ = ColumnType::List(Box::new(ColumnType::Int));
    let value = CQLValue::List(vec![CQLValue::Int(20), CQLValue::Int(2), CQLValue::Int(13)]);
    round_trip(
        &typ,
        value,
        &[
            0, 0, 0, 3, 0, 0, 0, 4, 0, 0, 0, 20, 0, 0, 0, 4, 0, 0, 0, 2, 0, 0, 0, 4, 0, 0, 0, 13,
        ],
    );
    let typ = ColumnType::CqlSet(Box::new(ColumnType::Text));
    let value = CQLValue::CqlSet(vec![
        CQLValue::Text("b".to_string()),
        CQLValue::Text("a".to_string()),
    ]);
    round_trip(&typ, value, &[0, 0, 0, 2, 0, 0, 0, 1, b'b', 0, 0, 0, 1, b'a']);
    round_trip(
        &ColumnType::List(Box::new(ColumnType::Int)),
        CQLValue::List(vec![]),
        &[0, 0, 0, 0],
    );
}

#[test]
fn map_keeps_the_order_of_its_entries() {
    let typ = ColumnType::CqlMap(Box::new(ColumnType::Text), Box::new(ColumnType::Int));
    let value = CQLValue::CqlMap(vec![
        (CQLValue::Text("z".to_string()), CQLValue::Int(1)),
        (CQLValue::Text("a".to_string()), CQLValue::Int(2)),
    ]);
    round_trip(
        &typ,
        value,
        &[
            0, 0, 0, 2, 0, 0, 0, 1, b'z', 0, 0, 0, 4, 0, 0, 0, 1, 0, 0, 0, 1, b'a', 0, 0, 0, 4, 0,
            0, 0, 2,
        ],
    );
}

#[test]
fn a_null_element_of_a_set_is_an_error() {
    let typ = ColumnType::CqlSet(Box::new(ColumnType::Int));
    assert_eq!(
        decode(&typ, &[0, 0, 0, 1, 0xff, 0xff, 0xff, 0xff]),
        Err(ParseError::BadData(BadDataReason::NegativeLength { value: -1 }))
    );
}

#[test]
fn a_collection_with_a_negative_count_or_too_few_elements_is_an_error() {
    let typ = ColumnType::List(Box::new(ColumnType::Int));
    assert_eq!(
        decode(&typ, &[0xff, 0xff, 0xff, 0xfd]),
        Err(ParseError::BadData(BadDataReason::NegativeLength { value: -3 }))
    );
    assert_eq!(
        decode(&typ, &[0, 0, 0, 2, 0, 0, 0, 4, 0, 0, 0, 1]),
        Err(ParseError::ShortRead)
    );
    assert_eq!(decode(&typ, &[0, 0]), Err(ParseError::ShortRead));
    assert_eq!(
        decode(&typ, &[0, 0, 0, 1, 0, 0, 0, 2, 0, 1]),
        Err(wrong_length(4, 2))
    );
}

#[test]
fn an_element_cannot_reach_into_what_follows_it() {
    let typ = ColumnType::List(Box::new(ColumnType::List(Box::new(ColumnType::Int))));
    let payload = [
        0, 0, 0, 2, 0, 0, 0, 4, 0, 0, 0, 1, 0, 0, 0, 8, 0, 0, 0, 1, 0, 0, 0, 0,
    ];
    assert_eq!(decode(&typ, &payload), Err(ParseError::ShortRead));
}

#[test]
fn bytes_after_a_value_are_refused() {
    let trailing = |left: usize| ParseError::BadData(BadDataReason::TrailingBytes { left });
    let list = ColumnType::List(Box::new(ColumnType::Int));
    assert_eq!(
        decode(&list, &[0, 0, 0, 1, 0, 0, 0, 4, 0, 0, 0, 9, 0xde, 0xad]),
        Err(trailing(2))
    );
    assert_eq!(decode(&list, &[0, 0, 0, 0, 0xff]), Err(trailing(1)));
    let set = ColumnType::CqlSet(Box::new(ColumnType::Int));
    assert_eq!(decode(&set, &[0, 0, 0, 0, 1, 2, 3]), Err(trailing(3)));
    let map = ColumnType::CqlMap(Box::new(ColumnType::Int), Box::new(ColumnType::Int));
    assert_eq!(decode(&map, &[0, 0, 0, 0, 7]), Err(trailing(1)));
    let tuple = ColumnType::Tuple(vec![ColumnType::Int]);
    assert_eq!(
        decode(&tuple, &[0xff, 0xff, 0xff, 0xff, 0, 0]),
        Err(trailing(2))
    );
    assert_eq!(decode(&ColumnType::Tuple(vec![]), &[0]), Err(trailing(1)));
    let udt = ColumnType::UserDefinedType {
        udt_name: "u".to_string(),
        keyspace: "k".to_string(),
        field_types: vec![("a".to_string(), ColumnType::Boolean)],
    };
    assert_eq!(decode(&udt, &[0, 0, 0, 1, 1, 9]), Err(trailing(1)));
}

#[test]
fn bytes_after_a_nested_value_are_refused() {
    let typ = ColumnType::List(Box::new(ColumnType::List(Box::new(ColumnType::Int))));
    assert_eq!(
        decode(&typ, &[0, 0, 0, 1, 0, 0, 0, 5, 0, 0, 0, 0, 0xee]),
        Err(ParseError::BadData(BadDataReason::TrailingBytes { left: 1 }))
    );
    assert_eq!(
        decode(&typ, &[0, 0, 0, 1, 0, 0, 0, 4, 0, 0, 0, 0]),
        Ok(CQLValue::List(vec![CQLValue::List(vec![])]))
    );
}

#[test]
fn a_value_that_decodes_takes_its_whole_payload() {
    let typ = ColumnType::List(Box::new(ColumnType::Int));
    let data = [0, 0, 0, 1, 0, 0, 0, 4, 0, 0, 0, 9];
    let mut buf = &data[..];
    assert_eq!(
        deser_cql_value(&typ, &mut buf),
        Ok(CQLValue::List(vec![CQLValue::Int(9)]))
    );
    assert!(buf.is_empty());
}

#[test]
fn user_defined_type_reads_its_fields_in_declared_order() {
    let typ = ColumnType::UserDefinedType {
        udt_name: "pt".to_string(),
        keyspace: "ks".to_string(),
        field_types: vec![
            ("y".to_string(), ColumnType::Int),
            ("x".to_string(), ColumnType::Text),
            ("a".to_string(), ColumnType::Boolean),
        ],
    };
    let value = CQLValue::UserDefinedType {
        keyspace: "ks".to_string(),
        udt_name: "pt".to_string(),
        fields: vec![
            ("y".to_string(), Some(CQLValue::Int(7))),
            ("x".to_string(), None),
            ("a".to_string(), Some(CQLValue::Boolean(true))),
        ],
    };
    round_trip(
        &typ,
        value,
        &[0, 0, 0, 4, 0, 0, 0, 7, 0xff, 0xff, 0xff, 0xff, 0, 0, 0, 1, 1],
    );
    assert_eq!(decode(&typ, &[0, 0, 0, 4, 0, 0, 0, 7]), Err(ParseError::ShortRead));
}

#[test]
fn tuple_is_positional_and_may_hold_nulls() {
    let typ = ColumnType::Tuple(vec![ColumnType::Int, ColumnType::Text]);
    let value = CQLValue::Tuple(vec![None, Some(CQLValue::Text("t".to_string()))]);
    round_trip(&typ, value, &[0xff, 0xff, 0xff, 0xff, 0, 0, 0, 1, b't']);
    assert_eq!(
        decode(&typ, &[0, 0, 0, 4, 0, 0, 0, 1]),
        Err(ParseError::ShortRead)
    );
    assert_eq!(
        decode(&typ, &[0, 0, 0, 4, 0, 0, 0, 1, 0, 0, 0, 1, 0xff]),
        Err(ParseError::BadData(BadDataReason::InvalidUtf8))
    );
}

#[test]
fn nested_values_round_trip() {
    let typ = ColumnType::CqlMap(
        Box::new(ColumnType::Int),
        Box::new(ColumnType::List(Box::new(ColumnType::Tuple(vec![
            ColumnType::Inet,
            ColumnType::Counter,
        ])))),
    );
    let value = CQLValue::CqlMap(vec![(
        CQLValue::Int(1),
        CQLValue::List(vec![
            CQLValue::Tuple(vec![
                Some(CQLValue::Inet(CqlInet::V4([10, 0, 0, 1]))),
                Some(CQLValue::Counter(5)),
            ]),
            CQLValue::Tuple(vec![None, None]),
        ]),
    )]);
    let payload = value_payload(&value).unwrap();
    assert_eq!(decode(&typ, &payload), Ok(value));
}
