//! The body of a Rows result that was written is read back as it was, and
//! a cell without a value stays one.
use crate::frame::frame_errors::ParseError;
use crate::frame::response::grammar::{
    column_types, encodable_col_spec, encodable_rows, encode_col_spec, encode_col_specs,
    encode_members, encode_opt_value, encode_result_metadata, encode_row_seq, encode_rows,
    encode_table_spec, encode_type, fits_string, FLAG_GLOBAL_TABLES_SPEC, FLAG_HAS_MORE_PAGES,
    FLAG_NO_METADATA, metadata_flags, parse_col_spec, parse_col_specs, parse_members,
    parse_paging_state, parse_result_metadata, parse_row_seq, parse_rows, parse_table_spec,
    parse_type, row_fits,
};
use crate::frame::response::result::{
    ColumnSpecView, ColumnTypeView, CQLValueView, ResultMetadataView, RowsView, TableSpecView,
};
use crate::frame::response::round_trip::{
    lemma_members_round_trip, lemma_type_round_trip, members_fit,
};
use crate::frame::types::{
    encode_bytes, encode_int, encode_string, flag_set, lemma_bytes_opt_round_trip,
    lemma_bytes_round_trip, lemma_int_round_trip, lemma_string_round_trip, parse_int,
    parse_int_length, parse_string,
};
use crate::frame::value::{members_encodable, rows_writable};
use vstd::prelude::*;

verus! {

/// A keyspace and a table that were written are read back as they were.
proof fn lemma_table_spec_round_trip(table_spec: TableSpecView, tail: Seq<u8>)
    requires
        fits_string(table_spec.ks_name),
        fits_string(table_spec.table_name),
    ensures
        parse_table_spec(encode_table_spec(table_spec) + tail) == Ok::<_, ParseError>(
            (table_spec, tail),
        ),
{
    let r1 = encode_string(table_spec.table_name) + tail;
    assert(encode_table_spec(table_spec) + tail =~= encode_string(table_spec.ks_name) + r1);
    lemma_string_round_trip(table_spec.ks_name, r1);
    lemma_string_round_trip(table_spec.table_name, tail);
}

/// A keyspace and table, a name and a type read as the description of a
/// column that carries its own keyspace and table.
proof fn lemma_step_col_spec_parts(
    s: Seq<u8>,
    table_spec: TableSpecView,
    r1: Seq<u8>,
    name: Seq<char>,
    r2: Seq<u8>,
    typ: ColumnTypeView,
    tail: Seq<u8>,
)
    requires
        parse_table_spec(s) == Ok::<_, ParseError>((table_spec, r1)),
        parse_string(r1) == Ok::<_, ParseError>((name, r2)),
        parse_type(r2) == Ok::<_, ParseError>((typ, tail)),
    ensures
        parse_col_spec(s, None) == Ok::<_, ParseError>(
            (ColumnSpecView { table_spec, name, typ }, tail),
        ),
{
    reveal(parse_col_spec);
}

/// The description of a column that was written with its own keyspace and
/// table is read back as it was.
proof fn lemma_col_spec_round_trip(col_spec: ColumnSpecView, tail: Seq<u8>)
    requires
        encodable_col_spec(col_spec),
    ensures
        parse_col_spec(encode_col_spec(col_spec) + tail, None) == Ok::<_, ParseError>(
            (col_spec, tail),
        ),
{
    let r2 = encode_type(col_spec.typ) + tail;
    let r1 = encode_string(col_spec.name) + r2;
    let s = encode_col_spec(col_spec) + tail;
    assert(s == encode_table_spec(col_spec.table_spec) + r1) by {
        reveal(encode_col_spec);
        assert(s =~= encode_table_spec(col_spec.table_spec) + r1);
    }
    assert(parse_table_spec(s) == Ok::<_, ParseError>((col_spec.table_spec, r1))) by {
        lemma_table_spec_round_trip(col_spec.table_spec, r1);
    }
    assert(parse_string(r1) == Ok::<_, ParseError>((col_spec.name, r2))) by {
        lemma_string_round_trip(col_spec.name, r2);
    }
    lemma_type_round_trip(col_spec.typ, tail);
    lemma_step_col_spec_parts(s, col_spec.table_spec, r1, col_spec.name, r2, col_spec.typ, tail);
}

/// Every description can be written.
#[verifier::opaque]
pub open spec fn col_specs_fit(col_specs: Seq<ColumnSpecView>) -> bool {
    forall|i: int| 0 <= i < col_specs.len() ==> encodable_col_spec(#[trigger] col_specs[i])
}

/// One more description in front.
proof fn lemma_step_col_spec(
    s: Seq<u8>,
    col_spec: ColumnSpecView,
    rest: Seq<u8>,
    more: Seq<ColumnSpecView>,
    tail: Seq<u8>,
    count: nat,
)
    requires
        count > 0,
        parse_col_spec(s, None) == Ok::<_, ParseError>((col_spec, rest)),
        parse_col_specs(rest, None, (count - 1) as nat) == Ok::<_, ParseError>((more, tail)),
    ensures
        parse_col_specs(s, None, count) == Ok::<_, ParseError>((seq![col_spec] + more, tail)),
{
}

/// The descriptions that were written from `from` on are read back as they
/// were, in their order.
pub proof fn lemma_col_specs_round_trip(col_specs: Seq<ColumnSpecView>, from: int, tail: Seq<u8>)
    requires
        0 <= from <= col_specs.len(),
        col_specs_fit(col_specs),
    ensures
        parse_col_specs(
            encode_col_specs(col_specs, from) + tail,
            None,
            (col_specs.len() - from) as nat,
        ) == Ok::<_, ParseError>((col_specs.skip(from), tail)),
    decreases col_specs.len() - from,
{
    if from < col_specs.len() {
        let col_spec = col_specs[from];
        let rest = encode_col_specs(col_specs, from + 1) + tail;
        let s = encode_col_specs(col_specs, from) + tail;
        assert(encodable_col_spec(col_spec)) by {
            reveal(col_specs_fit);
        }
        assert(s == encode_col_spec(col_spec) + rest) by {
            assert(s =~= encode_col_spec(col_spec) + rest);
        }
        lemma_col_spec_round_trip(col_spec, rest);
        lemma_col_specs_round_trip(col_specs, from + 1, tail);
        lemma_step_col_spec(
            s,
            col_spec,
            rest,
            col_specs.skip(from + 1),
            tail,
            (col_specs.len() - from) as nat,
        );
        assert(seq![col_spec] + col_specs.skip(from + 1) =~= col_specs.skip(from));
    } else {
        assert(encode_col_specs(col_specs, from) + tail =~= tail);
        assert(col_specs.skip(from) =~= Seq::empty());
    }
}

/// Which flags the flags of written metadata have set.
proof fn lemma_metadata_flags(metadata: ResultMetadataView)
    ensures
        !flag_set(metadata_flags(metadata), FLAG_GLOBAL_TABLES_SPEC),
        !flag_set(metadata_flags(metadata), FLAG_NO_METADATA),
        flag_set(metadata_flags(metadata), FLAG_HAS_MORE_PAGES) == (metadata.paging_state is Some),
{
    assert(0i32 & 1i32 == 0 && 0i32 & 2i32 == 0 && 0i32 & 4i32 == 0 && 2i32 & 1i32 == 0 && 2i32
        & 2i32 == 2 && 2i32 & 4i32 == 0) by (bit_vector);
}

/// Whether metadata can be written and read back.
pub open spec fn encodable_metadata(metadata: ResultMetadataView) -> bool {
    &&& metadata.col_count == metadata.col_specs.len()
    &&& metadata.col_count <= i32::MAX
    &&& (metadata.paging_state matches Some(state) ==> state.len() <= i32::MAX)
    &&& col_specs_fit(metadata.col_specs)
}

/// After flags that announce no global keyspace and table and do not leave
/// the descriptions out come the number of columns, the paging state where
/// the flags announce one, and the descriptions.
proof fn lemma_step_metadata(
    s: Seq<u8>,
    flags: i32,
    r1: Seq<u8>,
    col_count: u32,
    r2: Seq<u8>,
    paging_state: Option<Seq<u8>>,
    r3: Seq<u8>,
    col_specs: Seq<ColumnSpecView>,
    tail: Seq<u8>,
)
    requires
        parse_int(s) == Ok::<_, ParseError>((flags, r1)),
        !flag_set(flags, FLAG_GLOBAL_TABLES_SPEC),
        !flag_set(flags, FLAG_NO_METADATA),
        parse_int_length(r1) == Ok::<_, ParseError>((col_count, r2)),
        parse_paging_state(r2, flags) == Ok::<_, ParseError>((paging_state, r3)),
        parse_col_specs(r3, None, col_count as nat) == Ok::<_, ParseError>((col_specs, tail)),
    ensures
        parse_result_metadata(s) == Ok::<_, ParseError>(
            (ResultMetadataView { col_count: col_count as usize, paging_state, col_specs }, tail),
        ),
{
}

/// Metadata that was written is read back as it was.
pub proof fn lemma_metadata_round_trip(metadata: ResultMetadataView, tail: Seq<u8>)
    requires
        encodable_metadata(metadata),
    ensures
        parse_result_metadata(encode_result_metadata(metadata) + tail) == Ok::<_, ParseError>(
            (metadata, tail),
        ),
{
    let flags = metadata_flags(metadata);
    let r3 = encode_col_specs(metadata.col_specs, 0) + tail;
    let paging = match metadata.paging_state {
        Some(state) => encode_bytes(state),
        None => Seq::<u8>::empty(),
    };
    let r2 = paging + r3;
    let r1 = encode_int(metadata.col_count as i32) + r2;
    let s = encode_result_metadata(metadata) + tail;
    assert(s == encode_int(flags) + r1) by {
        assert(s =~= encode_int(flags) + r1);
    }
    lemma_metadata_flags(metadata);
    assert(parse_int(s) == Ok::<_, ParseError>((flags, r1))) by {
        lemma_int_round_trip(flags, r1);
    }
    assert(parse_int_length(r1) == Ok::<_, ParseError>((metadata.col_count as u32, r2))) by {
        lemma_int_round_trip(metadata.col_count as i32, r2);
    }
    assert(parse_paging_state(r2, flags) == Ok::<_, ParseError>((metadata.paging_state, r3)))
        by {
        match metadata.paging_state {
            Some(state) => {
                lemma_bytes_round_trip(state, r3);
            },
            None => {
                assert(r2 =~= r3);
            },
        }
    }
    assert(parse_col_specs(r3, None, metadata.col_count as nat) == Ok::<_, ParseError>(
        (metadata.col_specs, tail),
    )) by {
        lemma_col_specs_round_trip(metadata.col_specs, 0, tail);
        assert(metadata.col_specs.skip(0) =~= metadata.col_specs);
    }
    lemma_step_metadata(
        s,
        flags,
        r1,
        metadata.col_count as u32,
        r2,
        metadata.paging_state,
        r3,
        metadata.col_specs,
        tail,
    );
}

/// Every row fits the types.
#[verifier::opaque]
pub open spec fn rows_fit(types: Seq<ColumnTypeView>, rows: Seq<Seq<Option<CQLValueView>>>) -> bool {
    forall|i: int| 0 <= i < rows.len() ==> row_fits(types, #[trigger] rows[i])
}

/// One more row in front.
proof fn lemma_step_row(
    types: Seq<ColumnTypeView>,
    s: Seq<u8>,
    row: Seq<Option<CQLValueView>>,
    rest: Seq<u8>,
    more: Seq<Seq<Option<CQLValueView>>>,
    tail: Seq<u8>,
    count: nat,
)
    requires
        count > 0,
        parse_members(types, 0, s) == Ok::<_, ParseError>((row, rest)),
        parse_row_seq(types, rest, (count - 1) as nat) == Ok::<_, ParseError>((more, tail)),
    ensures
        parse_row_seq(types, s, count) == Ok::<_, ParseError>((seq![row] + more, tail)),
{
}

/// A row that was written is read back as it was.
proof fn lemma_row_round_trip(
    types: Seq<ColumnTypeView>,
    row: Seq<Option<CQLValueView>>,
    tail: Seq<u8>,
)
    requires
        row_fits(types, row),
    ensures
        parse_members(types, 0, encode_members(row, 0) + tail) == Ok::<_, ParseError>((row, tail)),
{
    assert(members_fit(types, row)) by {
        reveal(members_fit);
    }
    lemma_members_round_trip(types, row, 0, tail);
    assert(row.skip(0) =~= row);
}

/// The rows that were written from `from` on are read back as they were,
/// in their order.
pub proof fn lemma_row_seq_round_trip(
    types: Seq<ColumnTypeView>,
    rows: Seq<Seq<Option<CQLValueView>>>,
    from: int,
    tail: Seq<u8>,
)
    requires
        0 <= from <= rows.len(),
        rows_fit(types, rows),
    ensures
        parse_row_seq(types, encode_row_seq(rows, from) + tail, (rows.len() - from) as nat) == Ok::<
            _,
            ParseError,
        >((rows.skip(from), tail)),
    decreases rows.len() - from,
{
    if from < rows.len() {
        let row = rows[from];
        let rest = encode_row_seq(rows, from + 1) + tail;
        let s = encode_row_seq(rows, from) + tail;
        assert(row_fits(types, row)) by {
            reveal(rows_fit);
        }
        assert(s == encode_members(row, 0) + rest) by {
            assert(s =~= encode_members(row, 0) + rest);
        }
        lemma_row_round_trip(types, row, rest);
        lemma_row_seq_round_trip(types, rows, from + 1, tail);
        lemma_step_row(types, s, row, rest, rows.skip(from + 1), tail, (rows.len() - from) as nat);
        assert(seq![row] + rows.skip(from + 1) =~= rows.skip(from));
    } else {
        assert(encode_row_seq(rows, from) + tail =~= tail);
        assert(rows.skip(from) =~= Seq::empty());
    }
}

/// After the metadata come the number of rows and the rows.
proof fn lemma_step_rows(
    s: Seq<u8>,
    metadata: ResultMetadataView,
    r1: Seq<u8>,
    rows_count: u32,
    r2: Seq<u8>,
    rows: Seq<Seq<Option<CQLValueView>>>,
    tail: Seq<u8>,
)
    requires
        parse_result_metadata(s) == Ok::<_, ParseError>((metadata, r1)),
        metadata.col_count == metadata.col_specs.len(),
        parse_int_length(r1) == Ok::<_, ParseError>((rows_count, r2)),
        parse_row_seq(column_types(metadata.col_specs), r2, rows_count as nat) == Ok::<
            _,
            ParseError,
        >((rows, tail)),
    ensures
        parse_rows(s) == Ok::<_, ParseError>(
            (RowsView { metadata, rows_count: rows_count as usize, rows }, tail),
        ),
{
}

/// The body of a Rows result that was written is read back as it was,
/// whatever follows it.
pub proof fn lemma_rows_round_trip(rows: RowsView, tail: Seq<u8>)
    requires
        encodable_rows(rows),
    ensures
        parse_rows(encode_rows(rows) + tail) == Ok::<_, ParseError>((rows, tail)),
{
    reveal(encodable_rows);
    let types = column_types(rows.metadata.col_specs);
    let r2 = encode_row_seq(rows.rows, 0) + tail;
    let r1 = encode_int(rows.rows_count as i32) + r2;
    let s = encode_rows(rows) + tail;
    assert(s == encode_result_metadata(rows.metadata) + r1) by {
        assert(s =~= encode_result_metadata(rows.metadata) + r1);
    }
    assert(encodable_metadata(rows.metadata)) by {
        reveal(col_specs_fit);
    }
    assert(rows_fit(types, rows.rows)) by {
        reveal(rows_fit);
    }
    lemma_metadata_round_trip(rows.metadata, r1);
    lemma_int_round_trip(rows.rows_count as i32, r2);
    lemma_row_seq_round_trip(types, rows.rows, 0, tail);
    assert(rows.rows.skip(0) =~= rows.rows);
    lemma_step_rows(s, rows.metadata, r1, rows.rows_count as u32, r2, rows.rows, tail);
}

/// A member without a value is written as the length -1 and nothing else.
proof fn lemma_absent_member(row: Seq<Option<CQLValueView>>, column: int)
    requires
        0 <= column < row.len(),
        row[column] is None,
    ensures
        encode_members(row, column) == seq![0xffu8, 0xffu8, 0xffu8, 0xffu8] + encode_members(
            row,
            column + 1,
        ),
{
    lemma_bytes_opt_round_trip(None, Seq::empty());
    assert(encode_opt_value(row[column]) == seq![0xffu8, 0xffu8, 0xffu8, 0xffu8]);
}

/// A cell without a value stays one. In the bytes of a result that can be
/// written, a cell that holds no value is the length -1 and nothing else,
/// never 0 and never -2; read back, the result is the one that was written,
/// so that the cell holds no value again.
pub proof fn lemma_absent_cell_stays_absent(rows: RowsView, row: int, column: int, tail: Seq<u8>)
    requires
        encodable_rows(rows),
        0 <= row < rows.rows.len(),
        0 <= column < rows.rows[row].len(),
        rows.rows[row][column] is None,
    ensures
        parse_rows(encode_rows(rows) + tail) == Ok::<_, ParseError>((rows, tail)),
        encode_members(rows.rows[row], column) == seq![0xffu8, 0xffu8, 0xffu8, 0xffu8]
            + encode_members(rows.rows[row], column + 1),
{
    lemma_rows_round_trip(rows, tail);
    lemma_absent_member(rows.rows[row], column);
}

/// Rows that can be written and read back can be written: for them the
/// encoder succeeds, and what it gives is read back as the rows.
pub proof fn lemma_encodable_rows_are_writable(rows: RowsView)
    requires
        encodable_rows(rows),
    ensures
        rows_writable(rows),
{
    reveal(encodable_rows);
    assert forall|i: int| 0 <= i < rows.rows.len() implies members_encodable(
        #[trigger] rows.rows[i],
    ) by {
        assert(row_fits(column_types(rows.metadata.col_specs), rows.rows[i]));
    }
}

} // verus!
