use scylla::cql_to_rust::{
    bind_field, read_field, FromCQLVal, FromCQLValError, FromRow, FromRowError, ValueList,
};
use scylla::frame::response::result::{deser_row, CQLValue, ColumnSpec, ColumnType, Row, TableSpec};
use scylla::frame::types::{write_bytes_opt};

fn column(name: &str, typ: ColumnType) -> ColumnSpec {
    ColumnSpec {
        table_spec: TableSpec { ks_name: "ks".to_string(), table_name: "t".to_string() },
        name: name.to_string(),
        typ,
    }
}

#[test]
fn scalars_read_the_value_of_their_type_only() {
    assert_eq!(i32::from_cql(CQLValue::Int(5)), Ok(5));
    assert_eq!(i32::from_cql(CQLValue::BigInt(5)), Err(FromCQLValError::BadCQLType));
    assert_eq!(i64::from_cql(CQLValue::BigInt(-5)), Ok(-5));
    assert_eq!(i64::from_cql(CQLValue::Int(5)), Err(FromCQLValError::BadCQLType));
    assert_eq!(bool::from_cql(CQLValue::Boolean(true)), Ok(true));
    assert_eq!(i16::from_cql(CQLValue::SmallInt(3)), Ok(3));
    assert_eq!(i8::from_cql(CQLValue::TinyInt(-3)), Ok(-3));
    assert_eq!(u64::from_cql(CQLValue::Counter(9)), Ok(9));
    assert_eq!(String::from_cql(CQLValue::Text("t".to_string())), Ok("t".to_string()));
    assert_eq!(String::from_cql(CQLValue::Ascii("a".to_string())), Ok("a".to_string()));
    assert_eq!(String::from_cql(CQLValue::Int(1)), Err(FromCQLValError::BadCQLType));
    assert_eq!(7i32.to_cql(), CQLValue::Int(7));
    assert_eq!("x".to_string().to_cql(), CQLValue::Text("x".to_string()));
    assert_eq!(true.to_cql(), CQLValue::Boolean(true));
}

#[test]
fn a_row_is_read_by_position() {
    let row = Row { columns: vec![Some(CQLValue::Text("hello".to_string())), Some(CQLValue::Int(3))] };
    assert_eq!(row.into_typed::<(String, i32)>(), Ok(("hello".to_string(), 3)));
    let row = Row { columns: vec![Some(CQLValue::BigInt(-1))] };
    assert_eq!(<(i64,)>::from_row(row), Ok((-1,)));
}

#[test]
fn a_row_of_another_size_is_refused() {
    let row = Row { columns: vec![Some(CQLValue::Int(3))] };
    assert_eq!(
        row.into_typed::<(i32, i32)>(),
        Err(FromRowError::WrongRowSize { expected: 2, actual: 1 })
    );
    let row = Row { columns: vec![] };
    assert_eq!(
        row.into_typed::<(i32,)>(),
        Err(FromRowError::WrongRowSize { expected: 1, actual: 0 })
    );
}

#[test]
fn a_column_that_cannot_be_read_is_named_by_its_index() {
    let row = Row { columns: vec![Some(CQLValue::Int(3)), None] };
    assert_eq!(
        row.into_typed::<(i32, i32)>(),
        Err(FromRowError::BadCQLVal { column_index: 1, reason: FromCQLValError::ValIsNull })
    );
    let row = Row { columns: vec![Some(CQLValue::Int(3)), Some(CQLValue::Int(4))] };
    assert_eq!(
        row.into_typed::<(String, i32)>(),
        Err(FromRowError::BadCQLVal { column_index: 0, reason: FromCQLValError::BadCQLType })
    );
    assert_eq!(
        read_field::<bool>(Some(CQLValue::Int(1)), 7),
        Err(FromRowError::BadCQLVal { column_index: 7, reason: FromCQLValError::BadCQLType })
    );
}

#[test]
fn a_value_list_holds_the_payload_of_each_field() {
    let record = ("ab".to_string(), -2i32);
    assert_eq!(
        record.value_list(),
        Ok(vec![Some(vec![b'a', b'b']), Some(vec![0xff, 0xff, 0xff, 0xfe])])
    );
    assert_eq!((true,).value_list(), Ok(vec![Some(vec![1])]));
    assert_eq!(bind_field(&5i64), Ok(Some(vec![0, 0, 0, 0, 0, 0, 0, 5])));
}

#[test]
fn what_is_bound_is_what_is_read() {
    let record = ("hello world!".to_string(), 0x0eadc0dei32);
    let payloads = record.value_list().unwrap();
    let mut wire = Vec::new();
    for payload in &payloads {
        assert_eq!(write_bytes_opt(payload.as_deref(), &mut wire), Ok(()));
    }
    let columns = vec![column("my_text", ColumnType::Text), column("my_int", ColumnType::Int)];
    let mut buf = &wire[..];
    let row = deser_row(&columns, &mut buf).unwrap();
    assert!(buf.is_empty());
    assert_eq!(row.into_typed::<(String, i32)>(), Ok(record));
}

#[test]
fn a_record_of_four_fields_round_trips() {
    let record = ("hello world!".to_string(), -559038242i32, -2401053089206100307i64, false);
    let payloads = record.value_list().unwrap();
    assert_eq!(payloads.len(), 4);
    let mut wire = Vec::new();
    for payload in &payloads {
        assert_eq!(write_bytes_opt(payload.as_deref(), &mut wire), Ok(()));
    }
    let columns = vec![
        column("my_text", ColumnType::Text),
        column("my_int", ColumnType::Int),
        column("my_bigint", ColumnType::BigInt),
        column("my_boolean", ColumnType::Boolean),
    ];
    let mut buf = &wire[..];
    let row = deser_row(&columns, &mut buf).unwrap();
    assert!(buf.is_empty());
    assert_eq!(row.into_typed::<(String, i32, i64, bool)>(), Ok(record));
    let row = Row { columns: vec![Some(CQLValue::Int(1)), Some(CQLValue::Int(2)), None] };
    assert_eq!(
        row.into_typed::<(i32, i32, i32)>(),
        Err(FromRowError::BadCQLVal { column_index: 2, reason: FromCQLValError::ValIsNull })
    );
    assert_eq!((1i8, 2i16, 3u64).value_list(), Ok(vec![Some(vec![1]), Some(vec![0, 2]), Some(vec![0, 0, 0, 0, 0, 0, 0, 3])]));
}
