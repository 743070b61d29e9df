//! What holds of every input: a parser leaves a tail of what it was given,
//! a value takes its whole payload, metadata and rows agree, and the strict
//! types refuse what they must.
use crate::frame::frame_errors::{BadDataReason, ParseError};
use crate::frame::response::grammar::{
    all_ascii, announces_no_metadata, column_types, fixed_width, parse_col_spec,
    parse_col_specs, parse_fields, parse_global_table_spec, parse_members, parse_opt_value,
    parse_paging_state, parse_prepared_metadata, parse_result_metadata, parse_row_seq,
    parse_rows, parse_shorts, parse_type, parse_types, parse_value, plain_type,
};
use crate::frame::response::result::{ColumnTypeView, CQLValueView, TableSpecView};
use crate::frame::tail::{is_tail, lemma_tail_none, lemma_tail_trans};
use crate::frame::types::{
    parse_bytes, parse_bytes_opt, parse_int, parse_int_length, parse_short, parse_string,
};
use vstd::prelude::*;
use vstd::utf8::{decode_utf8, valid_utf8};

verus! {

broadcast use crate::frame::tail::group_tail;

/// A `[string]` takes at least two bytes and leaves a tail of the input.
pub proof fn lemma_parse_string_rest(s: Seq<u8>)
    ensures
        parse_string(s) matches Ok((_, rest)) ==> is_tail(rest, s) && rest.len() + 2 <= s.len(),
{
    if s.len() >= 2 {
        let body = s.skip(2);
        let len = parse_short(s)->Ok_0.0;
        if body.len() >= len {
            lemma_tail_trans(body.skip(len as int), body, s);
        }
    }
}

/// A `[bytes]` takes at least four bytes and leaves a tail of the input.
pub proof fn lemma_parse_bytes_rest(s: Seq<u8>)
    ensures
        parse_bytes(s) matches Ok((_, rest)) ==> is_tail(rest, s) && rest.len() + 4 <= s.len(),
        parse_bytes_opt(s) matches Ok((_, rest)) ==> is_tail(rest, s) && rest.len() + 4
            <= s.len(),
        parse_int_length(s) matches Ok((_, rest)) ==> is_tail(rest, s) && rest.len() + 4
            <= s.len(),
{
    if s.len() >= 4 {
        let body = s.skip(4);
        let len = parse_int(s)->Ok_0.0;
        if len >= 0 && body.len() >= len {
            lemma_tail_trans(body.skip(len as int), body, s);
        }
    }
}

/// A type takes at least two bytes and leaves a tail of the input. So the
/// guard that the grammar of types applies to what a nested type left never
/// changes anything.
pub proof fn lemma_parse_type_rest(s: Seq<u8>)
    ensures
        parse_type(s) matches Ok((_, rest)) ==> is_tail(rest, s) && rest.len() + 2 <= s.len(),
    decreases s.len(), 0nat,
{
    if s.len() >= 2 {
        let body = s.skip(2);
        let tag = parse_short(s)->Ok_0.0;
        if plain_type(tag) is Some {
        } else if tag == 0x0020 || tag == 0x0022 {
            lemma_parse_type_rest(body);
            if parse_type(body) is Ok {
                lemma_tail_trans(parse_type(body)->Ok_0.1, body, s);
            }
        } else if tag == 0x0021 {
            lemma_parse_type_rest(body);
            if parse_type(body) is Ok {
                let mid = parse_type(body)->Ok_0.1;
                lemma_parse_type_rest(mid);
                lemma_tail_trans(mid, body, s);
                if parse_type(mid) is Ok {
                    lemma_tail_trans(parse_type(mid)->Ok_0.1, mid, s);
                }
            }
        } else if tag == 0x0030 {
            lemma_parse_string_rest(body);
            if parse_string(body) is Ok {
                let r1 = parse_string(body)->Ok_0.1;
                lemma_tail_trans(r1, body, s);
                lemma_parse_string_rest(r1);
                if parse_string(r1) is Ok {
                    let r2 = parse_string(r1)->Ok_0.1;
                    lemma_tail_trans(r2, r1, s);
                    if r2.len() >= 2 {
                        let r3 = r2.skip(2);
                        let count = parse_short(r2)->Ok_0.0;
                        lemma_tail_trans(r3, r2, s);
                        lemma_parse_fields_rest(r3, count as nat);
                        if parse_fields(r3, count as nat) is Ok {
                            lemma_tail_trans(parse_fields(r3, count as nat)->Ok_0.1, r3, s);
                        }
                    }
                }
            }
        } else if tag == 0x0031 {
            if body.len() >= 2 {
                let r1 = body.skip(2);
                let count = parse_short(body)->Ok_0.0;
                lemma_tail_trans(r1, body, s);
                lemma_parse_types_rest(r1, count as nat);
                if parse_types(r1, count as nat) is Ok {
                    lemma_tail_trans(parse_types(r1, count as nat)->Ok_0.1, r1, s);
                }
            }
        }
    }
}

/// The fields of a user-defined type leave a tail of the input.
pub proof fn lemma_parse_fields_rest(s: Seq<u8>, count: nat)
    ensures
        parse_fields(s, count) matches Ok((_, rest)) ==> is_tail(rest, s),
    decreases s.len(), count,
{
    if count > 0 {
        lemma_parse_string_rest(s);
        if parse_string(s) is Ok {
            let after_name = parse_string(s)->Ok_0.1;
            lemma_parse_type_rest(after_name);
            if parse_type(after_name) is Ok {
                let rest = parse_type(after_name)->Ok_0.1;
                lemma_tail_trans(rest, after_name, s);
                lemma_parse_fields_rest(rest, (count - 1) as nat);
                if parse_fields(rest, (count - 1) as nat) is Ok {
                    lemma_tail_trans(parse_fields(rest, (count - 1) as nat)->Ok_0.1, rest, s);
                }
            }
        }
    }
}

/// A sequence of types leaves a tail of the input.
pub proof fn lemma_parse_types_rest(s: Seq<u8>, count: nat)
    ensures
        parse_types(s, count) matches Ok((_, rest)) ==> is_tail(rest, s),
    decreases s.len(), count,
{
    if count > 0 {
        lemma_parse_type_rest(s);
        if parse_type(s) is Ok {
            let rest = parse_type(s)->Ok_0.1;
            lemma_parse_types_rest(rest, (count - 1) as nat);
            if parse_types(rest, (count - 1) as nat) is Ok {
                lemma_tail_trans(parse_types(rest, (count - 1) as nat)->Ok_0.1, rest, s);
            }
        }
    }
}

/// Decoding a value is total and a success takes the whole payload:
/// whatever the type and the bytes, the outcome is an error or a value
/// with nothing of the payload left.
pub proof fn lemma_parse_value_rest(typ: ColumnTypeView, s: Seq<u8>)
    ensures
        parse_value(typ, s) matches Ok((_, rest)) ==> rest.len() == 0 && is_tail(rest, s),
{
    if parse_value(typ, s) is Ok {
        lemma_tail_none(parse_value(typ, s)->Ok_0.1, s);
    }
}

/// The members of a tuple, or the cells of a row, leave a tail of the
/// input, and there are as many of them as there are types.
pub proof fn lemma_parse_members_rest(types: Seq<ColumnTypeView>, from: int, s: Seq<u8>)
    requires
        0 <= from <= types.len(),
    ensures
        parse_members(types, from, s) matches Ok((members, rest)) ==> is_tail(rest, s)
            && members.len() == types.len() - from,
    decreases types.len() - from,
{
    if from < types.len() {
        lemma_parse_bytes_rest(s);
        if parse_opt_value(types[from], s) is Ok {
            let rest = parse_opt_value(types[from], s)->Ok_0.1;
            lemma_parse_members_rest(types, from + 1, rest);
            if parse_members(types, from + 1, rest) is Ok {
                lemma_tail_trans(parse_members(types, from + 1, rest)->Ok_0.1, rest, s);
            }
        }
    }
}

/// A payload that holds a byte above `0x7f` is refused as ascii, whatever
/// else it holds. Read as text it is accepted where it is UTF-8.
pub proof fn lemma_ascii_is_strict(payload: Seq<u8>, i: int)
    requires
        0 <= i < payload.len(),
        payload[i] >= 0x80,
    ensures
        parse_value(ColumnTypeView::Ascii, payload) == Err::<(CQLValueView, Seq<u8>), _>(
            ParseError::BadData(BadDataReason::NotAscii),
        ),
        valid_utf8(payload) ==> parse_value(ColumnTypeView::Text, payload) == Ok::<
            _,
            ParseError,
        >((CQLValueView::Text(decode_utf8(payload)), Seq::<u8>::empty())),
{
    assert(!all_ascii(payload));
}

/// An inet address is decoded from 4 or from 16 bytes and from no other
/// number of them.
pub proof fn lemma_inet_length(payload: Seq<u8>)
    ensures
        payload.len() == 4 || payload.len() == 16 ==> parse_value(ColumnTypeView::Inet, payload)
            == Ok::<_, ParseError>((CQLValueView::Inet(payload), Seq::<u8>::empty())),
        payload.len() != 4 && payload.len() != 16 ==> parse_value(ColumnTypeView::Inet, payload)
            == Err::<(CQLValueView, Seq<u8>), _>(
            ParseError::BadData(
                BadDataReason::InvalidInetLength { actual: payload.len() as usize },
            ),
        ),
{
}

/// A value of a fixed-width type is decoded from a payload of exactly that
/// width and refused at any other length.
pub proof fn lemma_fixed_width_is_strict(typ: ColumnTypeView, payload: Seq<u8>)
    requires
        fixed_width(typ) is Some,
    ensures
        parse_value(typ, payload) is Ok <==> payload.len() == fixed_width(typ)->0,
        payload.len() != fixed_width(typ)->0 ==> parse_value(typ, payload) == Err::<
            (CQLValueView, Seq<u8>),
            _,
        >(
            ParseError::BadData(
                BadDataReason::WrongLength {
                    expected: fixed_width(typ)->0 as usize,
                    actual: payload.len() as usize,
                },
            ),
        ),
{
}

/// Rows that are read under `types` are as many as asked for, and each has
/// one entry for each type.
pub proof fn lemma_parse_row_seq_shape(types: Seq<ColumnTypeView>, s: Seq<u8>, count: nat)
    ensures
        parse_row_seq(types, s, count) matches Ok((rows, _)) ==> rows.len() == count && forall|
            i: int,
        | 0 <= i < rows.len() ==> (#[trigger] rows[i]).len() == types.len(),
    decreases count,
{
    if count > 0 {
        lemma_parse_members_rest(types, 0, s);
        if parse_members(types, 0, s) is Ok {
            let rest = parse_members(types, 0, s)->Ok_0.1;
            lemma_parse_row_seq_shape(types, rest, (count - 1) as nat);
        }
    }
}

/// The rows of a result agree with its metadata: there are as many rows as
/// announced, the metadata describes as many columns as it announces, and
/// every row has exactly that many entries.
pub proof fn lemma_rows_agree_with_metadata(s: Seq<u8>)
    ensures
        parse_rows(s) matches Ok((result, _)) ==> {
            &&& result.rows.len() == result.rows_count
            &&& result.metadata.col_specs.len() == result.metadata.col_count
            &&& forall|i: int|
                0 <= i < result.rows.len() ==> (#[trigger] result.rows[i]).len()
                    == result.metadata.col_count
        },
{
    if parse_rows(s) is Ok {
        let (metadata, rest) = parse_result_metadata(s)->Ok_0;
        let (rows_count, rest) = parse_int_length(rest)->Ok_0;
        lemma_parse_row_seq_shape(column_types(metadata.col_specs), rest, rows_count as nat);
    }
}

/// Where the descriptions of `count` columns are read, there are `count`
/// of them.
pub proof fn lemma_parse_col_specs_len(
    s: Seq<u8>,
    global: Option<TableSpecView>,
    count: nat,
)
    ensures
        parse_col_specs(s, global, count) matches Ok((col_specs, _)) ==> col_specs.len() == count,
    decreases count,
{
    if count > 0 {
        if parse_col_spec(s, global) is Ok {
            let rest = parse_col_spec(s, global)->Ok_0.1;
            lemma_parse_col_specs_len(rest, global, (count - 1) as nat);
        }
    }
}

/// Metadata describes exactly the columns that it announces, unless its
/// flags say that the descriptions are left out, and then it describes
/// none.
pub proof fn lemma_metadata_describes_its_columns(s: Seq<u8>)
    ensures
        parse_result_metadata(s) matches Ok((metadata, _)) ==> metadata.col_specs.len() == (
        if announces_no_metadata(s) {
            0
        } else {
            metadata.col_count as int
        }),
        parse_prepared_metadata(s) matches Ok((metadata, _)) ==> metadata.col_specs.len()
            == metadata.col_count,
{
    if parse_result_metadata(s) is Ok && !announces_no_metadata(s) {
        let (flags, rest) = parse_int(s)->Ok_0;
        let (col_count, rest) = parse_int_length(rest)->Ok_0;
        let (paging_state, rest) = parse_paging_state(
            rest,
            flags,
        )->Ok_0;
        let (global, rest) = parse_global_table_spec(
            rest,
            flags,
        )->Ok_0;
        lemma_parse_col_specs_len(rest, global, col_count as nat);
    }
    if parse_prepared_metadata(s) is Ok {
        let (flags, rest) = parse_int(s)->Ok_0;
        let (col_count, rest) = parse_int_length(rest)->Ok_0;
        let (pk_count, rest) = parse_int_length(rest)->Ok_0;
        let (pk_indexes, rest) = parse_shorts(
            rest,
            pk_count as nat,
        )->Ok_0;
        let (global, rest) = parse_global_table_spec(
            rest,
            flags,
        )->Ok_0;
        lemma_parse_col_specs_len(rest, global, col_count as nat);
    }
}

} // verus!
