//! The write side: the bytes that stand for a value or for a type.
use crate::frame::frame_errors::EncodeError;
use crate::frame::response::grammar::{
    encodable_col_spec, encodable_type, encodable_value, encode_col_spec, encode_col_specs,
    encode_elems, encode_entries, encode_fields, encode_members, encode_opt_value,
    encode_result_metadata, encode_row_seq, encode_rows, encode_type, encode_types,
    encode_udt_fields, encode_value, fits_bytes, fits_opt_bytes, fits_string,
    FLAG_HAS_MORE_PAGES, type_tag,
};
use crate::frame::response::result::{
    col_specs_view, ColumnSpec, ColumnSpecView, ColumnType, ColumnTypeView, CqlInet, CQLValue,
    CQLValueView, entries_view, fields_view, lemma_type_view, lemma_value_view, opt_value_view,
    opt_values_view, Row, Rows, rows_view, RowsView, types_view, udt_fields_view, values_view,
};
use crate::frame::types::{
    bytes_as_slice, encode_bytes, encode_int, encode_short, encode_string, put_i16, put_i32,
    put_i64, put_slice, put_u64, write_bytes, write_int, write_short, write_string,
};
use vstd::prelude::*;

verus! {

/// The bytes from `from` on start with those of the element at `from`.
proof fn lemma_encode_elems_step(values: Seq<CQLValueView>, from: int, done: Seq<u8>)
    requires
        0 <= from < values.len(),
    ensures
        (done + encode_bytes(encode_value(values[from]))) + encode_elems(values, from + 1) == done
            + encode_elems(values, from),
{
    assert((done + encode_bytes(encode_value(values[from]))) + encode_elems(values, from + 1)
        =~= done + encode_elems(values, from));
}

/// The bytes from `from` on start with those of the entry at `from`.
proof fn lemma_encode_entries_step(
    entries: Seq<(CQLValueView, CQLValueView)>,
    from: int,
    done: Seq<u8>,
)
    requires
        0 <= from < entries.len(),
    ensures
        ((done + encode_bytes(encode_value(entries[from].0))) + encode_bytes(
            encode_value(entries[from].1),
        )) + encode_entries(entries, from + 1) == done + encode_entries(entries, from),
{
    assert(((done + encode_bytes(encode_value(entries[from].0))) + encode_bytes(
        encode_value(entries[from].1),
    )) + encode_entries(entries, from + 1) =~= done + encode_entries(entries, from));
}

/// The bytes from `from` on start with those of the field at `from`.
proof fn lemma_encode_udt_fields_step(
    fields: Seq<(Seq<char>, Option<CQLValueView>)>,
    from: int,
    done: Seq<u8>,
)
    requires
        0 <= from < fields.len(),
    ensures
        (done + encode_opt_value(fields[from].1)) + encode_udt_fields(fields, from + 1) == done
            + encode_udt_fields(fields, from),
{
    assert((done + encode_opt_value(fields[from].1)) + encode_udt_fields(fields, from + 1) =~= done
        + encode_udt_fields(fields, from));
}

/// The bytes from `from` on start with those of the member at `from`.
proof fn lemma_encode_members_step(members: Seq<Option<CQLValueView>>, from: int, done: Seq<u8>)
    requires
        0 <= from < members.len(),
    ensures
        (done + encode_opt_value(members[from])) + encode_members(members, from + 1) == done
            + encode_members(members, from),
{
    assert((done + encode_opt_value(members[from])) + encode_members(members, from + 1) =~= done
        + encode_members(members, from));
}

/// Whether a list or a set of these elements can be written.
pub open spec fn elems_encodable(values: Seq<CQLValueView>) -> bool {
    values.len() <= i32::MAX && forall|i: int|
        0 <= i < values.len() ==> fits_bytes(#[trigger] values[i])
}

/// Whether a map of these entries can be written.
pub open spec fn entries_encodable(entries: Seq<(CQLValueView, CQLValueView)>) -> bool {
    entries.len() <= i32::MAX && forall|i: int|
        0 <= i < entries.len() ==> fits_bytes((#[trigger] entries[i]).0) && fits_bytes(
            entries[i].1,
        )
}

/// Whether these fields of a value of a user-defined type can be written.
pub open spec fn udt_fields_encodable(fields: Seq<(Seq<char>, Option<CQLValueView>)>) -> bool {
    forall|i: int| 0 <= i < fields.len() ==> fits_opt_bytes((#[trigger] fields[i]).1)
}

/// Whether these members of a tuple can be written.
pub open spec fn members_encodable(members: Seq<Option<CQLValueView>>) -> bool {
    forall|i: int| 0 <= i < members.len() ==> fits_opt_bytes(#[trigger] members[i])
}

/// A value that is built from others can be written where its parts can.
proof fn lemma_encodable_parts(v: CQLValueView)
    ensures
        v matches CQLValueView::List(values) ==> encodable_value(v) == elems_encodable(values),
        v matches CQLValueView::CqlSet(values) ==> encodable_value(v) == elems_encodable(values),
        v matches CQLValueView::CqlMap(entries) ==> encodable_value(v) == entries_encodable(
            entries,
        ),
        v matches CQLValueView::UserDefinedType { fields, .. } ==> encodable_value(v)
            == udt_fields_encodable(fields),
        v matches CQLValueView::Tuple(members) ==> encodable_value(v) == members_encodable(
            members,
        ),
{
    match v {
        CQLValueView::UserDefinedType { fields, .. } => {
            if udt_fields_encodable(fields) {
                assert forall|i: int| 0 <= i < fields.len() implies fits_opt_bytes(
                    (#[trigger] fields[i]).1,
                ) by {}
            }
            if encodable_value(v) {
                assert forall|i: int| 0 <= i < fields.len() implies fits_opt_bytes(
                    (#[trigger] fields[i]).1,
                ) by {}
            }
        },
        CQLValueView::Tuple(members) => {
            if members_encodable(members) {
                assert forall|i: int| 0 <= i < members.len() implies fits_opt_bytes(
                    #[trigger] members[i],
                ) by {}
            }
            if encodable_value(v) {
                assert forall|i: int| 0 <= i < members.len() implies fits_opt_bytes(
                    #[trigger] members[i],
                ) by {}
            }
        },
        _ => {},
    }
}

/// Adds to `buf` the `[bytes]` that holds `value`.
fn push_elem(value: &CQLValue, buf: &mut Vec<u8>) -> (r: Result<(), EncodeError>)
    ensures
        r is Ok <==> fits_bytes(value@),
        r is Ok ==> final(buf)@ == old(buf)@ + encode_bytes(encode_value(value@)),
        r matches Err(e) ==> e == EncodeError::TooLong && final(buf)@ == old(buf)@,
    decreases value, 1nat,
{
    let payload = value_payload(value)?;
    write_bytes(payload.as_slice(), buf)
}

/// Adds to `buf` the optional `[bytes]` that holds `value`, or none.
fn push_opt_value(value: &Option<CQLValue>, buf: &mut Vec<u8>) -> (r: Result<(), EncodeError>)
    ensures
        r is Ok <==> fits_opt_bytes(opt_value_view(*value)),
        r is Ok ==> final(buf)@ == old(buf)@ + encode_opt_value(opt_value_view(*value)),
        r matches Err(e) ==> e == EncodeError::TooLong && final(buf)@ == old(buf)@,
    decreases value, 2nat,
{
    match value {
        None => {
            write_int(-1, buf);
            Ok(())
        },
        Some(v) => push_elem(v, buf),
    }
}

/// The count and the elements of a list or a set.
fn elems_payload(values: &Vec<CQLValue>) -> (r: Result<Vec<u8>, EncodeError>)
    ensures
        r is Ok <==> elems_encodable(values_view(values@)),
        r matches Ok(p) ==> p@ == encode_int(values@.len() as i32) + encode_elems(
            values_view(values@),
            0,
        ),
        r matches Err(e) ==> e == EncodeError::TooLong,
    decreases values, 0nat,
{
    let ghost items = values_view(values@);
    if values.len() > i32::MAX as usize {
        return Err(EncodeError::TooLong);
    }
    let mut buf: Vec<u8> = Vec::new();
    write_int(values.len() as i32, &mut buf);
    let mut i: usize = 0;
    while i < values.len()
        invariant
            i <= values@.len(),
            values@.len() <= i32::MAX,
            items == values_view(values@),
            forall|j: int| 0 <= j < i ==> fits_bytes(#[trigger] items[j]),
            buf@ + encode_elems(items, i as int) == encode_int(values@.len() as i32)
                + encode_elems(items, 0),
        decreases values@.len() - i,
    {
        proof {
            lemma_encode_elems_step(items, i as int, buf@);
        }
        push_elem(&values[i], &mut buf)?;
        i += 1;
    }
    assert(buf@ + encode_elems(items, i as int) =~= buf@);
    Ok(buf)
}

/// The count and the entries of a map.
fn entries_payload(entries: &Vec<(CQLValue, CQLValue)>) -> (r: Result<Vec<u8>, EncodeError>)
    ensures
        r is Ok <==> entries_encodable(entries_view(entries@)),
        r matches Ok(p) ==> p@ == encode_int(entries@.len() as i32) + encode_entries(
            entries_view(entries@),
            0,
        ),
        r matches Err(e) ==> e == EncodeError::TooLong,
    decreases entries, 0nat,
{
    let ghost items = entries_view(entries@);
    if entries.len() > i32::MAX as usize {
        return Err(EncodeError::TooLong);
    }
    let mut buf: Vec<u8> = Vec::new();
    write_int(entries.len() as i32, &mut buf);
    let mut i: usize = 0;
    while i < entries.len()
        invariant
            i <= entries@.len(),
            entries@.len() <= i32::MAX,
            items == entries_view(entries@),
            forall|j: int|
                0 <= j < i ==> fits_bytes((#[trigger] items[j]).0) && fits_bytes(items[j].1),
            buf@ + encode_entries(items, i as int) == encode_int(entries@.len() as i32)
                + encode_entries(items, 0),
        decreases entries@.len() - i,
    {
        proof {
            lemma_encode_entries_step(items, i as int, buf@);
        }
        let entry = &entries[i];
        push_elem(&entry.0, &mut buf)?;
        push_elem(&entry.1, &mut buf)?;
        i += 1;
    }
    assert(buf@ + encode_entries(items, i as int) =~= buf@);
    Ok(buf)
}

/// The fields of a value of a user-defined type.
fn udt_fields_payload(fields: &Vec<(String, Option<CQLValue>)>) -> (r: Result<
    Vec<u8>,
    EncodeError,
>)
    ensures
        r is Ok <==> udt_fields_encodable(udt_fields_view(fields@)),
        r matches Ok(p) ==> p@ == encode_udt_fields(udt_fields_view(fields@), 0),
        r matches Err(e) ==> e == EncodeError::TooLong,
    decreases fields, 0nat,
{
    let ghost items = udt_fields_view(fields@);
    let mut buf: Vec<u8> = Vec::new();
    let mut i: usize = 0;
    while i < fields.len()
        invariant
            i <= fields@.len(),
            items == udt_fields_view(fields@),
            forall|j: int| 0 <= j < i ==> fits_opt_bytes((#[trigger] items[j]).1),
            buf@ + encode_udt_fields(items, i as int) == encode_udt_fields(items, 0),
        decreases fields@.len() - i,
    {
        proof {
            lemma_encode_udt_fields_step(items, i as int, buf@);
        }
        push_opt_value(&fields[i].1, &mut buf)?;
        i += 1;
    }
    assert(buf@ + encode_udt_fields(items, i as int) =~= buf@);
    Ok(buf)
}

/// The members of a tuple, or the cells of a row.
pub fn members_payload(members: &Vec<Option<CQLValue>>) -> (r: Result<Vec<u8>, EncodeError>)
    ensures
        r is Ok <==> members_encodable(opt_values_view(members@)),
        r matches Ok(p) ==> p@ == encode_members(opt_values_view(members@), 0),
        r matches Err(e) ==> e == EncodeError::TooLong,
    decreases members, 0nat,
{
    let ghost items = opt_values_view(members@);
    let mut buf: Vec<u8> = Vec::new();
    let mut i: usize = 0;
    while i < members.len()
        invariant
            i <= members@.len(),
            items == opt_values_view(members@),
            forall|j: int| 0 <= j < i ==> fits_opt_bytes(#[trigger] items[j]),
            buf@ + encode_members(items, i as int) == encode_members(items, 0),
        decreases members@.len() - i,
    {
        proof {
            lemma_encode_members_step(items, i as int, buf@);
        }
        push_opt_value(&members[i], &mut buf)?;
        i += 1;
    }
    assert(buf@ + encode_members(items, i as int) =~= buf@);
    Ok(buf)
}

/// The payload that stands for a value. A value that cannot be written,
/// because a part of it is longer than a length prefix can say, is refused.
pub fn value_payload(value: &CQLValue) -> (r: Result<Vec<u8>, EncodeError>)
    ensures
        r is Ok <==> encodable_value(value@),
        r matches Ok(p) ==> p@ == encode_value(value@),
        r matches Err(e) ==> e == EncodeError::TooLong,
    decreases value, 0nat,
{
    proof {
        lemma_value_view(*value);
        lemma_encodable_parts(value@);
    }
    let mut buf: Vec<u8> = Vec::new();
    match value {
        CQLValue::Ascii(text) => {
            put_slice(&mut buf, text.as_str().as_bytes());
        },
        CQLValue::Text(text) => {
            put_slice(&mut buf, text.as_str().as_bytes());
        },
        CQLValue::Int(i) => {
            put_i32(&mut buf, *i);
        },
        CQLValue::BigInt(i) => {
            put_i64(&mut buf, *i);
        },
        CQLValue::Boolean(b) => {
            buf.push(if *b { 1 } else { 0 });
        },
        CQLValue::Counter(c) => {
            put_u64(&mut buf, *c);
        },
        CQLValue::SmallInt(i) => {
            put_i16(&mut buf, *i);
        },
        CQLValue::TinyInt(i) => {
            let byte: u8 = if *i < 0 {
                (*i as i16 + 0x100) as u8
            } else {
                *i as u8
            };
            buf.push(byte);
        },
        CQLValue::Date(d) => {
            put_i32(&mut buf, d.days_since_epoch);
        },
        CQLValue::Time(t) => {
            put_i64(&mut buf, t.nanoseconds);
        },
        CQLValue::Timestamp(t) => {
            put_i64(&mut buf, t.millis_since_epoch);
        },
        CQLValue::Inet(address) => {
            match address {
                CqlInet::V4(a) => put_slice(&mut buf, a.as_slice()),
                CqlInet::V6(a) => put_slice(&mut buf, a.as_slice()),
            }
        },
        CQLValue::List(values) => {
            return elems_payload(values);
        },
        CQLValue::CqlSet(values) => {
            return elems_payload(values);
        },
        CQLValue::CqlMap(entries) => {
            return entries_payload(entries);
        },
        CQLValue::UserDefinedType { fields, .. } => {
            return udt_fields_payload(fields);
        },
        CQLValue::Tuple(members) => {
            return members_payload(members);
        },
    }
    assert(buf@ =~= encode_value(value@));
    Ok(buf)
}

/// Adds to `out` the payload that stands for a value. Where the value
/// cannot be written, nothing is added.
pub fn write_value(value: &CQLValue, out: &mut Vec<u8>) -> (r: Result<(), EncodeError>)
    ensures
        r is Ok <==> encodable_value(value@),
        r is Ok ==> final(out)@ == old(out)@ + encode_value(value@),
        r matches Err(e) ==> e == EncodeError::TooLong && final(out)@ == old(out)@,
{
    let payload = value_payload(value)?;
    put_slice(out, payload.as_slice());
    Ok(())
}

// ---------------------------------------------------------------------------
// Types
// ---------------------------------------------------------------------------
/// The bytes from `from` on start with those of the field at `from`.
proof fn lemma_encode_fields_step(
    fields: Seq<(Seq<char>, ColumnTypeView)>,
    from: int,
    done: Seq<u8>,
)
    requires
        0 <= from < fields.len(),
    ensures
        ((done + encode_string(fields[from].0)) + encode_type(fields[from].1)) + encode_fields(
            fields,
            from + 1,
        ) == done + encode_fields(fields, from),
{
    assert(((done + encode_string(fields[from].0)) + encode_type(fields[from].1)) + encode_fields(
        fields,
        from + 1,
    ) =~= done + encode_fields(fields, from));
}

/// The bytes from `from` on start with those of the type at `from`.
proof fn lemma_encode_types_step(types: Seq<ColumnTypeView>, from: int, done: Seq<u8>)
    requires
        0 <= from < types.len(),
    ensures
        (done + encode_type(types[from])) + encode_types(types, from + 1) == done + encode_types(
            types,
            from,
        ),
{
    assert((done + encode_type(types[from])) + encode_types(types, from + 1) =~= done
        + encode_types(types, from));
}

/// Whether these fields of a user-defined type can be written.
pub open spec fn fields_encodable(fields: Seq<(Seq<char>, ColumnTypeView)>) -> bool {
    fields.len() <= u16::MAX && forall|i: int|
        0 <= i < fields.len() ==> fits_string((#[trigger] fields[i]).0) && encodable_type(
            fields[i].1,
        )
}

/// Whether these members of a tuple type can be written.
pub open spec fn types_encodable(types: Seq<ColumnTypeView>) -> bool {
    types.len() <= u16::MAX && forall|i: int|
        0 <= i < types.len() ==> encodable_type(#[trigger] types[i])
}

/// A type that is built from others can be written where its parts can.
proof fn lemma_encodable_type_parts(t: ColumnTypeView)
    ensures
        t matches ColumnTypeView::UserDefinedType { udt_name, keyspace, field_types }
            ==> encodable_type(t) == (fits_string(keyspace) && fits_string(udt_name)
            && fields_encodable(field_types)),
        t matches ColumnTypeView::Tuple(types) ==> encodable_type(t) == types_encodable(types),
{
    match t {
        ColumnTypeView::UserDefinedType { udt_name, keyspace, field_types } => {
            if fields_encodable(field_types) {
                assert forall|i: int| 0 <= i < field_types.len() implies fits_string(
                    (#[trigger] field_types[i]).0,
                ) && encodable_type(field_types[i].1) by {}
            }
            if encodable_type(t) {
                assert forall|i: int| 0 <= i < field_types.len() implies fits_string(
                    (#[trigger] field_types[i]).0,
                ) && encodable_type(field_types[i].1) by {}
            }
        },
        ColumnTypeView::Tuple(types) => {
            if types_encodable(types) {
                assert forall|i: int| 0 <= i < types.len() implies encodable_type(
                    #[trigger] types[i],
                ) by {}
            }
            if encodable_type(t) {
                assert forall|i: int| 0 <= i < types.len() implies encodable_type(
                    #[trigger] types[i],
                ) by {}
            }
        },
        _ => {},
    }
}

/// The number and the bytes of the fields of a user-defined type.
fn fields_payload(fields: &Vec<(String, ColumnType)>) -> (r: Result<Vec<u8>, EncodeError>)
    ensures
        r is Ok <==> fields_encodable(fields_view(fields@)),
        r matches Ok(p) ==> p@ == encode_short(fields@.len() as u16) + encode_fields(
            fields_view(fields@),
            0,
        ),
        r matches Err(e) ==> e == EncodeError::TooLong,
    decreases fields, 0nat,
{
    let ghost items = fields_view(fields@);
    if fields.len() > u16::MAX as usize {
        return Err(EncodeError::TooLong);
    }
    let mut buf: Vec<u8> = Vec::new();
    write_short(fields.len() as u16, &mut buf);
    let mut i: usize = 0;
    while i < fields.len()
        invariant
            i <= fields@.len(),
            fields@.len() <= u16::MAX,
            items == fields_view(fields@),
            forall|j: int|
                0 <= j < i ==> fits_string((#[trigger] items[j]).0) && encodable_type(items[j].1),
            buf@ + encode_fields(items, i as int) == encode_short(fields@.len() as u16)
                + encode_fields(items, 0),
        decreases fields@.len() - i,
    {
        proof {
            lemma_encode_fields_step(items, i as int, buf@);
        }
        let field = &fields[i];
        write_string(field.0.as_str(), &mut buf)?;
        let payload = type_payload(&field.1)?;
        put_slice(&mut buf, payload.as_slice());
        i += 1;
    }
    assert(buf@ + encode_fields(items, i as int) =~= buf@);
    Ok(buf)
}

/// The number and the bytes of the members of a tuple type.
fn types_payload(types: &Vec<ColumnType>) -> (r: Result<Vec<u8>, EncodeError>)
    ensures
        r is Ok <==> types_encodable(types_view(types@)),
        r matches Ok(p) ==> p@ == encode_short(types@.len() as u16) + encode_types(
            types_view(types@),
            0,
        ),
        r matches Err(e) ==> e == EncodeError::TooLong,
    decreases types, 0nat,
{
    let ghost items = types_view(types@);
    if types.len() > u16::MAX as usize {
        return Err(EncodeError::TooLong);
    }
    let mut buf: Vec<u8> = Vec::new();
    write_short(types.len() as u16, &mut buf);
    let mut i: usize = 0;
    while i < types.len()
        invariant
            i <= types@.len(),
            types@.len() <= u16::MAX,
            items == types_view(types@),
            forall|j: int| 0 <= j < i ==> encodable_type(#[trigger] items[j]),
            buf@ + encode_types(items, i as int) == encode_short(types@.len() as u16)
                + encode_types(items, 0),
        decreases types@.len() - i,
    {
        proof {
            lemma_encode_types_step(items, i as int, buf@);
        }
        let payload = type_payload(&types[i])?;
        put_slice(&mut buf, payload.as_slice());
        i += 1;
    }
    assert(buf@ + encode_types(items, i as int) =~= buf@);
    Ok(buf)
}

/// The tag of a type.
fn tag_of(t: &ColumnType) -> (tag: u16)
    ensures
        tag == type_tag(t@),
{
    match t {
        ColumnType::Ascii => 0x0001,
        ColumnType::BigInt => 0x0002,
        ColumnType::Boolean => 0x0004,
        ColumnType::Counter => 0x0005,
        ColumnType::Int => 0x0009,
        ColumnType::Timestamp => 0x000B,
        ColumnType::Text => 0x000D,
        ColumnType::Inet => 0x0010,
        ColumnType::Date => 0x0011,
        ColumnType::Time => 0x0012,
        ColumnType::SmallInt => 0x0013,
        ColumnType::TinyInt => 0x0014,
        ColumnType::List(_) => 0x0020,
        ColumnType::CqlMap(_, _) => 0x0021,
        ColumnType::CqlSet(_) => 0x0022,
        ColumnType::UserDefinedType { .. } => 0x0030,
        ColumnType::Tuple(_) => 0x0031,
    }
}

/// The bytes that stand for a type. A type that cannot be written, because
/// a name in it is too long or it has too many parts, is refused.
pub fn type_payload(t: &ColumnType) -> (r: Result<Vec<u8>, EncodeError>)
    ensures
        r is Ok <==> encodable_type(t@),
        r matches Ok(p) ==> p@ == encode_type(t@),
        r matches Err(e) ==> e == EncodeError::TooLong,
    decreases t, 1nat,
{
    proof {
        lemma_type_view(*t);
        lemma_encodable_type_parts(t@);
    }
    let mut buf: Vec<u8> = Vec::new();
    write_short(tag_of(t), &mut buf);
    match t {
        ColumnType::List(inner) => {
            let payload = type_payload(inner)?;
            put_slice(&mut buf, payload.as_slice());
        },
        ColumnType::CqlSet(inner) => {
            let payload = type_payload(inner)?;
            put_slice(&mut buf, payload.as_slice());
        },
        ColumnType::CqlMap(key_type, value_type) => {
            let payload = type_payload(key_type)?;
            put_slice(&mut buf, payload.as_slice());
            let payload = type_payload(value_type)?;
            put_slice(&mut buf, payload.as_slice());
        },
        ColumnType::UserDefinedType { udt_name, keyspace, field_types } => {
            write_string(keyspace.as_str(), &mut buf)?;
            write_string(udt_name.as_str(), &mut buf)?;
            let payload = fields_payload(field_types)?;
            put_slice(&mut buf, payload.as_slice());
        },
        ColumnType::Tuple(types) => {
            let payload = types_payload(types)?;
            put_slice(&mut buf, payload.as_slice());
        },
        _ => {},
    }
    assert(buf@ =~= encode_type(t@));
    Ok(buf)
}

/// Adds to `out` the bytes that stand for a type. Where the type cannot be
/// written, nothing is added.
pub fn write_type(t: &ColumnType, out: &mut Vec<u8>) -> (r: Result<(), EncodeError>)
    ensures
        r is Ok <==> encodable_type(t@),
        r is Ok ==> final(out)@ == old(out)@ + encode_type(t@),
        r matches Err(e) ==> e == EncodeError::TooLong && final(out)@ == old(out)@,
{
    let payload = type_payload(t)?;
    put_slice(out, payload.as_slice());
    Ok(())
}

// ---------------------------------------------------------------------------
// The body of a Rows result
// ---------------------------------------------------------------------------
/// The bytes from `from` on start with those of the description at `from`.
proof fn lemma_encode_col_specs_step(col_specs: Seq<ColumnSpecView>, from: int, done: Seq<u8>)
    requires
        0 <= from < col_specs.len(),
    ensures
        ((((done + encode_string(col_specs[from].table_spec.ks_name)) + encode_string(
            col_specs[from].table_spec.table_name,
        )) + encode_string(col_specs[from].name)) + encode_type(col_specs[from].typ))
            + encode_col_specs(col_specs, from + 1) == done + encode_col_specs(col_specs, from),
{
    reveal(encode_col_spec);
    assert(((((done + encode_string(col_specs[from].table_spec.ks_name)) + encode_string(
        col_specs[from].table_spec.table_name,
    )) + encode_string(col_specs[from].name)) + encode_type(col_specs[from].typ))
        + encode_col_specs(col_specs, from + 1) =~= done + encode_col_specs(col_specs, from));
}

/// The bytes from `from` on start with those of the row at `from`.
proof fn lemma_encode_row_seq_step(
    rows: Seq<Seq<Option<CQLValueView>>>,
    from: int,
    done: Seq<u8>,
)
    requires
        0 <= from < rows.len(),
    ensures
        (done + encode_members(rows[from], 0)) + encode_row_seq(rows, from + 1) == done
            + encode_row_seq(rows, from),
{
    assert((done + encode_members(rows[from], 0)) + encode_row_seq(rows, from + 1) =~= done
        + encode_row_seq(rows, from));
}

/// Whether every description can be written.
pub open spec fn col_specs_encodable(col_specs: Seq<ColumnSpecView>) -> bool {
    forall|i: int| 0 <= i < col_specs.len() ==> encodable_col_spec(#[trigger] col_specs[i])
}

/// Whether every cell of every row can be written.
pub open spec fn row_seq_encodable(rows: Seq<Seq<Option<CQLValueView>>>) -> bool {
    forall|i: int| 0 <= i < rows.len() ==> members_encodable(#[trigger] rows[i])
}

/// Whether rows can be written: the two counts are at most `i32::MAX`, the
/// paging state is at most `i32::MAX` bytes long, and every description
/// and every cell can be written.
pub open spec fn rows_writable(rows: RowsView) -> bool {
    &&& rows.metadata.col_count <= i32::MAX
    &&& rows.rows_count <= i32::MAX
    &&& (rows.metadata.paging_state matches Some(state) ==> state.len() <= i32::MAX)
    &&& col_specs_encodable(rows.metadata.col_specs)
    &&& row_seq_encodable(rows.rows)
}

/// The bytes of the descriptions of columns, each with its own keyspace and
/// table.
fn col_specs_payload(col_specs: &Vec<ColumnSpec>) -> (r: Result<Vec<u8>, EncodeError>)
    ensures
        r is Ok <==> col_specs_encodable(col_specs_view(col_specs@)),
        r matches Ok(p) ==> p@ == encode_col_specs(col_specs_view(col_specs@), 0),
        r matches Err(e) ==> e == EncodeError::TooLong,
{
    let ghost items = col_specs_view(col_specs@);
    let mut buf: Vec<u8> = Vec::new();
    let mut i: usize = 0;
    while i < col_specs.len()
        invariant
            i <= col_specs@.len(),
            items == col_specs_view(col_specs@),
            forall|j: int| 0 <= j < i ==> encodable_col_spec(#[trigger] items[j]),
            buf@ + encode_col_specs(items, i as int) == encode_col_specs(items, 0),
        decreases col_specs@.len() - i,
    {
        proof {
            lemma_encode_col_specs_step(items, i as int, buf@);
        }
        let col_spec = &col_specs[i];
        write_string(col_spec.table_spec.ks_name.as_str(), &mut buf)?;
        write_string(col_spec.table_spec.table_name.as_str(), &mut buf)?;
        write_string(col_spec.name.as_str(), &mut buf)?;
        let payload = type_payload(&col_spec.typ)?;
        put_slice(&mut buf, payload.as_slice());
        i += 1;
    }
    assert(buf@ + encode_col_specs(items, i as int) =~= buf@);
    Ok(buf)
}

/// The bytes of rows, cell after cell.
fn row_seq_payload(rows: &Vec<Row>) -> (r: Result<Vec<u8>, EncodeError>)
    ensures
        r is Ok <==> row_seq_encodable(rows_view(rows@)),
        r matches Ok(p) ==> p@ == encode_row_seq(rows_view(rows@), 0),
        r matches Err(e) ==> e == EncodeError::TooLong,
{
    let ghost items = rows_view(rows@);
    let mut buf: Vec<u8> = Vec::new();
    let mut i: usize = 0;
    while i < rows.len()
        invariant
            i <= rows@.len(),
            items == rows_view(rows@),
            forall|j: int| 0 <= j < i ==> members_encodable(#[trigger] items[j]),
            buf@ + encode_row_seq(items, i as int) == encode_row_seq(items, 0),
        decreases rows@.len() - i,
    {
        proof {
            lemma_encode_row_seq_step(items, i as int, buf@);
        }
        let payload = members_payload(&rows[i].columns)?;
        put_slice(&mut buf, payload.as_slice());
        i += 1;
    }
    assert(buf@ + encode_row_seq(items, i as int) =~= buf@);
    Ok(buf)
}

/// The bytes of the body of a Rows result, as `deser_rows` reads it: every
/// column is written with its own keyspace and table, and a cell without a
/// value as the length -1. Rows that cannot be written are refused.
pub fn rows_payload(rows: &Rows) -> (r: Result<Vec<u8>, EncodeError>)
    ensures
        r is Ok <==> rows_writable(rows@),
        r matches Ok(p) ==> p@ == encode_rows(rows@),
        r matches Err(e) ==> e == EncodeError::TooLong,
{
    if rows.metadata.col_count > i32::MAX as usize || rows.rows_count > i32::MAX as usize {
        return Err(EncodeError::TooLong);
    }
    let mut buf: Vec<u8> = Vec::new();
    match &rows.metadata.paging_state {
        Some(state) => {
            write_int(FLAG_HAS_MORE_PAGES, &mut buf);
            write_int(rows.metadata.col_count as i32, &mut buf);
            write_bytes(bytes_as_slice(state), &mut buf)?;
        },
        None => {
            write_int(0, &mut buf);
            write_int(rows.metadata.col_count as i32, &mut buf);
        },
    }
    let col_specs = col_specs_payload(&rows.metadata.col_specs)?;
    put_slice(&mut buf, col_specs.as_slice());
    assert(buf@ =~= encode_result_metadata(rows@.metadata));
    let cells = row_seq_payload(&rows.rows)?;
    write_int(rows.rows_count as i32, &mut buf);
    put_slice(&mut buf, cells.as_slice());
    assert(buf@ =~= encode_rows(rows@));
    Ok(buf)
}

} // verus!
