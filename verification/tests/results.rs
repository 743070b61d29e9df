use bytes::Bytes;
use scylla::frame::frame_errors::{BadDataReason, EncodeError, ParseError};
use scylla::frame::value::rows_payload;
use scylla::frame::response::result::{
    deser_col_specs, deser_prepared, deser_prepared_metadata, deser_result_metadata, deser_rows,
    deser_schema_change, deser_set_keyspace, deser_table_spec, deserialize, CQLValue, ColumnType,
    ColumnSpec, CqlInet, ResultMetadata, Result as CqlResult, Row, Rows, TableSpec,
};

fn decode(data: &[u8]) -> (Result<CqlResult, ParseError>, usize) {
    let mut buf = data;
    let r = deserialize(&mut buf);
    (r, buf.len())
}

fn rows_of(data: &[u8]) -> Rows {
    match decode(data) {
        (Ok(CqlResult::Rows(rows)), 0) => rows,
        other => panic!("not rows: {:?}", other),
    }
}

fn single_column(type_tag: u16, cell: &[u8]) -> Vec<u8> {
    let mut data = vec![
        0, 0, 0, 2, 0, 0, 0, 0, 0, 0, 0, 1, 0, 2, b'k', b's', 0, 1, b't', 0, 1, b'a',
    ];
    data.extend_from_slice(&type_tag.to_be_bytes());
    data.extend_from_slice(&[0, 0, 0, 1]);
    data.extend_from_slice(cell);
    data
}

#[test]
fn void_result() {
    let (r, left) = decode(&[0x00, 0x00, 0x00, 0x01]);
    assert!(matches!(r, Ok(CqlResult::Void)));
    assert_eq!(left, 0);
}

#[test]
fn single_int_row_without_paging() {
    let data = single_column(0x0009, &[0, 0, 0, 4, 0, 0, 0, 0x2a]);
    let rows = rows_of(&data);
    assert_eq!(rows.metadata.col_count, 1);
    assert!(rows.metadata.paging_state.is_none());
    assert_eq!(rows.metadata.col_specs.len(), 1);
    let spec = &rows.metadata.col_specs[0];
    assert_eq!(spec.table_spec.ks_name, "ks");
    assert_eq!(spec.table_spec.table_name, "t");
    assert_eq!(spec.name, "a");
    assert_eq!(spec.typ, ColumnType::Int);
    assert_eq!(rows.rows_count, 1);
    assert_eq!(rows.rows.len(), 1);
    assert_eq!(rows.rows[0].columns, vec![Some(CQLValue::Int(42))]);
}

#[test]
fn null_cell() {
    let data = single_column(0x0009, &[0xff, 0xff, 0xff, 0xff]);
    let rows = rows_of(&data);
    assert_eq!(rows.rows[0].columns, vec![None]);
}

#[test]
fn utf8_text_cell() {
    let data = single_column(0x000d, &[0, 0, 0, 2, 0xc3, 0xa9]);
    let rows = rows_of(&data);
    assert_eq!(
        rows.rows[0].columns,
        vec![Some(CQLValue::Text("\u{e9}".to_string()))]
    );
    let data = single_column(0x000d, &[0, 0, 0, 2, 0xc3, 0x28]);
    let (r, _) = decode(&data);
    assert_eq!(
        r.unwrap_err(),
        ParseError::BadData(BadDataReason::InvalidUtf8)
    );
}

#[test]
fn inet_ipv6_cell() {
    let address = [0x20, 0x01, 0x0d, 0xb8, 0, 0, 0, 0, 0, 0, 0, 0, 0, 0, 0, 0x01];
    let mut cell = vec![0, 0, 0, 16];
    cell.extend_from_slice(&address);
    let data = single_column(0x0010, &cell);
    let rows = rows_of(&data);
    assert_eq!(
        rows.rows[0].columns,
        vec![Some(CQLValue::Inet(CqlInet::V6(address)))]
    );
}

#[test]
fn every_row_has_one_entry_per_column() {
    let data = [
        0, 0, 0, 2, // rows
        0, 0, 0, 1, // global tables spec
        0, 0, 0, 2, // two columns
        0, 2, b'k', b's', 0, 1, b't', // keyspace and table
        0, 1, b'a', 0, 0x09, // a int
        0, 1, b'b', 0, 0x0d, // b text
        0, 0, 0, 3, // three rows
        0, 0, 0, 4, 0, 0, 0, 1, 0, 0, 0, 1, b'x', //
        0xff, 0xff, 0xff, 0xff, 0, 0, 0, 0, //
        0, 0, 0, 4, 0xff, 0xff, 0xff, 0xff, 0xff, 0xff, 0xff, 0xff,
    ];
    let rows = rows_of(&data);
    assert_eq!(rows.metadata.col_count, 2);
    assert_eq!(rows.rows_count, 3);
    assert_eq!(rows.rows.len(), 3);
    for row in &rows.rows {
        assert_eq!(row.columns.len(), rows.metadata.col_count);
    }
    assert_eq!(
        rows.rows[0].columns,
        vec![Some(CQLValue::Int(1)), Some(CQLValue::Text("x".to_string()))]
    );
    assert_eq!(
        rows.rows[1].columns,
        vec![None, Some(CQLValue::Text(String::new()))]
    );
    assert_eq!(rows.rows[2].columns, vec![Some(CQLValue::Int(-1)), None]);
    for spec in &rows.metadata.col_specs {
        assert_eq!(spec.table_spec.ks_name, "ks");
        assert_eq!(spec.table_spec.table_name, "t");
    }
    assert_eq!(rows.metadata.col_specs[1].name, "b");
}

#[test]
fn no_rows_and_no_columns() {
    let rows = rows_of(&[0, 0, 0, 2, 0, 0, 0, 0, 0, 0, 0, 0, 0, 0, 0, 0]);
    assert_eq!(rows.metadata.col_count, 0);
    assert_eq!(rows.rows_count, 0);
    assert!(rows.rows.is_empty());
}

#[test]
fn a_row_that_ends_early_fails_the_whole_result() {
    let mut data = single_column(0x0009, &[0, 0, 0, 4, 0, 0, 0, 0x2a]);
    data.truncate(data.len() - 1);
    let (r, _) = decode(&data);
    assert_eq!(r.unwrap_err(), ParseError::ShortRead);
    let data = single_column(0x0009, &[0, 0, 0, 2, 0, 0x2a]);
    let (r, _) = decode(&data);
    assert_eq!(
        r.unwrap_err(),
        ParseError::BadData(BadDataReason::WrongLength { expected: 4, actual: 2 })
    );
}

#[test]
fn a_negative_number_of_rows_or_columns_is_bad_data() {
    let (r, _) = decode(&[0, 0, 0, 2, 0, 0, 0, 0, 0xff, 0xff, 0xff, 0xff]);
    assert_eq!(
        r.unwrap_err(),
        ParseError::BadData(BadDataReason::NegativeLength { value: -1 })
    );
    let (r, _) = decode(&[0, 0, 0, 2, 0, 0, 0, 0, 0, 0, 0, 0, 0xff, 0xff, 0xff, 0xfe]);
    assert_eq!(
        r.unwrap_err(),
        ParseError::BadData(BadDataReason::NegativeLength { value: -2 })
    );
}

#[test]
fn metadata_with_paging_state_and_without_columns() {
    let data = [
        0, 0, 0, 6, // has more pages, no metadata
        0, 0, 0, 3, // three columns
        0, 0, 0, 2, 0xca, 0xfe, // paging state
        0x11,
    ];
    let mut buf = &data[..];
    let metadata = deser_result_metadata(&mut buf).unwrap();
    assert_eq!(buf, &[0x11][..]);
    assert_eq!(metadata.col_count, 3);
    assert_eq!(metadata.paging_state, Some(Bytes::from(vec![0xca, 0xfe])));
    assert!(metadata.col_specs.is_empty());
}

#[test]
fn rows_without_the_description_of_their_columns_are_refused() {
    let data = [0, 0, 0, 2, 0, 0, 0, 4, 0, 0, 0, 2, 0, 0, 0, 0];
    let (r, _) = decode(&data);
    assert_eq!(
        r.unwrap_err(),
        ParseError::BadData(BadDataReason::MissingColumnSpecs { col_count: 2, described: 0 })
    );
    let mut buf = &data[4..];
    assert!(deser_rows(&mut buf).is_err());
}

#[test]
fn a_paging_state_must_be_present_where_it_is_announced() {
    let data = [0, 0, 0, 2, 0, 0, 0, 0, 0xff, 0xff, 0xff, 0xff];
    let mut buf = &data[..];
    assert_eq!(
        deser_result_metadata(&mut buf).unwrap_err(),
        ParseError::BadData(BadDataReason::NegativeLength { value: -1 })
    );
}

#[test]
fn table_spec_and_column_specs() {
    let data = [0, 2, b'k', b's', 0, 3, b't', b'b', b'l', 9];
    let mut buf = &data[..];
    let spec = deser_table_spec(&mut buf).unwrap();
    assert_eq!(spec.ks_name, "ks");
    assert_eq!(spec.table_name, "tbl");
    assert_eq!(buf, &[9][..]);

    let global = Some(TableSpec { ks_name: "g".to_string(), table_name: "h".to_string() });
    let data = [0, 1, b'a', 0, 0x09, 0, 1, b'b', 0, 0x20, 0, 0x0d];
    let mut buf = &data[..];
    let specs = deser_col_specs(&mut buf, &global, 2).unwrap();
    assert!(buf.is_empty());
    assert_eq!(specs.len(), 2);
    assert_eq!(specs[0].table_spec, TableSpec { ks_name: "g".to_string(), table_name: "h".to_string() });
    assert_eq!(specs[1].typ, ColumnType::List(Box::new(ColumnType::Text)));
    assert_eq!(specs[1].clone(), specs[1]);

    let data = [0, 1, b'k', 0, 1, b't', 0, 1, b'a', 0, 0x04];
    let mut buf = &data[..];
    let specs = deser_col_specs(&mut buf, &None, 1).unwrap();
    assert_eq!(specs[0].table_spec.ks_name, "k");
    assert_eq!(specs[0].name, "a");
    assert_eq!(specs[0].typ, ColumnType::Boolean);
    let mut buf = &data[..];
    assert_eq!(
        deser_col_specs(&mut buf, &None, 2).unwrap_err(),
        ParseError::ShortRead
    );
}

#[test]
fn prepared_metadata_keeps_the_partition_key_indexes_in_order() {
    let data = [
        0, 0, 0, 1, // global tables spec
        0, 0, 0, 2, // two columns
        0, 0, 0, 2, // two partition key indexes
        0, 1, 0, 0, // 1 then 0
        0, 1, b'k', 0, 1, b't', //
        0, 1, b'a', 0, 0x09, //
        0, 1, b'b', 0, 0x02,
    ];
    let mut buf = &data[..];
    let metadata = deser_prepared_metadata(&mut buf).unwrap();
    assert!(buf.is_empty());
    assert_eq!(metadata.col_count, 2);
    assert_eq!(metadata.pk_indexes, vec![1, 0]);
    assert_eq!(metadata.col_specs.len(), 2);
    assert_eq!(metadata.col_specs[1].typ, ColumnType::BigInt);
    assert_eq!(metadata.clone().pk_indexes, vec![1, 0]);
}

#[test]
fn prepared_result() {
    let data = [
        0, 0, 0, 4, // prepared
        0, 3, 0xaa, 0xbb, 0xcc, // id
        0, 0, 0, 0, 0, 0, 0, 1, 0, 0, 0, 1, 0, 0, // parameters: one column, pk index 0
        0, 1, b'k', 0, 1, b't', 0, 1, b'p', 0, 0x09, //
        0, 0, 0, 4, 0, 0, 0, 1, // result: no metadata, one column
    ];
    let (r, left) = decode(&data);
    assert_eq!(left, 0);
    let prepared = match r {
        Ok(CqlResult::Prepared(p)) => p,
        other => panic!("not prepared: {:?}", other),
    };
    assert_eq!(prepared.id.as_ref(), &[0xaa, 0xbb, 0xcc][..]);
    assert_eq!(prepared.prepared_metadata.col_count, 1);
    assert_eq!(prepared.prepared_metadata.pk_indexes, vec![0]);
    assert_eq!(prepared.prepared_metadata.col_specs[0].name, "p");
    assert_eq!(prepared.result_metadata.col_count, 1);
    assert!(prepared.result_metadata.col_specs.is_empty());
}

#[test]
fn a_prepared_id_that_ends_early_is_a_short_read() {
    let data = [0, 5, 1, 2];
    let mut buf = &data[..];
    assert_eq!(deser_prepared(&mut buf).unwrap_err(), ParseError::ShortRead);
}

#[test]
fn set_keyspace_reads_the_name_and_drops_it() {
    let (r, left) = decode(&[0, 0, 0, 3, 0, 2, b'k', b's']);
    assert!(matches!(r, Ok(CqlResult::SetKeyspace(_))));
    assert_eq!(left, 0);
    let data = [0, 2, b'k'];
    let mut buf = &data[..];
    assert_eq!(deser_set_keyspace(&mut buf).unwrap_err(), ParseError::ShortRead);
}

#[test]
fn schema_change_takes_the_whole_body() {
    let (r, left) = decode(&[0, 0, 0, 5, 1, 2, 3, 4, 5]);
    assert!(matches!(r, Ok(CqlResult::SchemaChange(_))));
    assert_eq!(left, 0);
    let data = [9, 9];
    let mut buf = &data[..];
    assert!(deser_schema_change(&mut buf).is_ok());
    assert!(buf.is_empty());
}

#[test]
fn an_unknown_kind_is_bad_data() {
    let (r, _) = decode(&[0, 0, 0, 6]);
    assert_eq!(
        r.unwrap_err(),
        ParseError::BadData(BadDataReason::UnknownResultKind { kind: 6 })
    );
    let (r, _) = decode(&[0, 0, 0, 0]);
    assert_eq!(
        r.unwrap_err(),
        ParseError::BadData(BadDataReason::UnknownResultKind { kind: 0 })
    );
    let (r, _) = decode(&[0, 0, 1]);
    assert_eq!(r.unwrap_err(), ParseError::ShortRead);
}

fn sample_rows() -> Rows {
    let column = |name: &str, typ: ColumnType| ColumnSpec {
        table_spec: TableSpec { ks_name: "ks".to_string(), table_name: "t".to_string() },
        name: name.to_string(),
        typ,
    };
    Rows {
        metadata: ResultMetadata {
            col_count: 2,
            paging_state: Some(Bytes::from(vec![0xca, 0xfe])),
            col_specs: vec![
                column("a", ColumnType::Int),
                column("b", ColumnType::List(Box::new(ColumnType::Text))),
            ],
        },
        rows_count: 2,
        rows: vec![
            Row { columns: vec![Some(CQLValue::Int(7)), None] },
            Row {
                columns: vec![
                    None,
                    Some(CQLValue::List(vec![CQLValue::Text("x".to_string())])),
                ],
            },
        ],
    }
}

#[test]
fn rows_that_are_written_are_read_back() {
    let rows = sample_rows();
    let body = rows_payload(&rows).unwrap();
    assert_eq!(
        body,
        vec![
            0, 0, 0, 2, // has more pages
            0, 0, 0, 2, // two columns
            0, 0, 0, 2, 0xca, 0xfe, // paging state
            0, 2, b'k', b's', 0, 1, b't', 0, 1, b'a', 0, 0x09, //
            0, 2, b'k', b's', 0, 1, b't', 0, 1, b'b', 0, 0x20, 0, 0x0d, //
            0, 0, 0, 2, // two rows
            0, 0, 0, 4, 0, 0, 0, 7, 0xff, 0xff, 0xff, 0xff, //
            0xff, 0xff, 0xff, 0xff, 0, 0, 0, 9, 0, 0, 0, 1, 0, 0, 0, 1, b'x',
        ]
    );
    let mut buf = &body[..];
    let back = deser_rows(&mut buf).unwrap();
    assert!(buf.is_empty());
    assert_eq!(back.metadata.col_count, rows.metadata.col_count);
    assert_eq!(back.metadata.paging_state, rows.metadata.paging_state);
    assert_eq!(back.metadata.col_specs, rows.metadata.col_specs);
    assert_eq!(back.rows_count, rows.rows_count);
    assert_eq!(back.rows.len(), 2);
    assert_eq!(back.rows[0].columns, rows.rows[0].columns);
    assert_eq!(back.rows[1].columns, rows.rows[1].columns);
}

#[test]
fn an_absent_cell_is_written_as_minus_one_and_read_back_as_absent() {
    let mut rows = sample_rows();
    rows.metadata.paging_state = None;
    rows.metadata.col_specs.truncate(1);
    rows.metadata.col_count = 1;
    rows.rows = vec![Row { columns: vec![None] }];
    rows.rows_count = 1;
    let body = rows_payload(&rows).unwrap();
    assert_eq!(&body[body.len() - 4..], &[0xff, 0xff, 0xff, 0xff][..]);
    let mut buf = &body[..];
    let back = deser_rows(&mut buf).unwrap();
    assert_eq!(back.rows[0].columns, vec![None]);
    assert_eq!(rows_payload(&back), Ok(body));
}

#[test]
fn rows_with_a_name_that_is_too_long_cannot_be_written() {
    let mut rows = sample_rows();
    rows.metadata.col_specs[1].name = "n".repeat(0x1_0000);
    assert_eq!(rows_payload(&rows), Err(EncodeError::TooLong));
}
