//! The grammar of a RESULT body as functions on sequences of bytes: what
//! each part parses to, and what bytes stand for a type or a value.
use crate::frame::frame_errors::{BadDataReason, ParseError};
use crate::frame::response::result::{
    ColumnSpecView, ColumnTypeView, CqlDate, CqlTime, CqlTimestamp, CQLValueView,
    PreparedMetadataView, PreparedView, ResultMetadataView, ResultView, RowsView, TableSpecView,
};
use crate::frame::types::{
    as_signed, as_unsigned, be_u16, be_u32, be_u64, encode_bytes, encode_bytes_opt, encode_int,
    encode_short, encode_string, flag_set, parse_bytes, parse_bytes_opt, parse_int,
    parse_int_length, parse_short, parse_short_bytes, parse_string, u16_be_bytes, u32_be_bytes,
    u64_be_bytes,
};
use vstd::prelude::*;
use vstd::utf8::{decode_utf8, encode_utf8, is_ascii_chars, valid_utf8};

verus! {

/// Puts what was parsed before in front of what a parser of a sequence
/// returned.
pub open spec fn prepend<T>(done: Seq<T>, r: Result<(Seq<T>, Seq<u8>), ParseError>) -> Result<
    (Seq<T>, Seq<u8>),
    ParseError,
> {
    match r {
        Ok((more, rest)) => Ok((done + more, rest)),
        Err(e) => Err(e),
    }
}

/// Putting `a` in front of what has `b` in front is putting `a + b` in front.
pub proof fn lemma_prepend_twice<T>(a: Seq<T>, b: Seq<T>, r: Result<(Seq<T>, Seq<u8>), ParseError>)
    ensures
        prepend(a, prepend(b, r)) == prepend(a + b, r),
{
    match r {
        Ok((more, rest)) => {
            assert(a + (b + more) =~= (a + b) + more);
        },
        Err(e) => {},
    }
}

/// What a nested parser left, or `given` where that would be longer than
/// what it was given. No parser leaves more than it was given (see
/// `lemma_parse_type_rest`), so this is `rest`; writing it so lets the
/// grammar of types be defined by recursion on the length of the input.
pub open spec fn left_of(rest: Seq<u8>, given: Seq<u8>) -> Seq<u8> {
    if rest.len() <= given.len() {
        rest
    } else {
        given
    }
}

/// The type that a tag stands for by itself.
pub open spec fn plain_type(tag: u16) -> Option<ColumnTypeView> {
    if tag == 0x0001 {
        Some(ColumnTypeView::Ascii)
    } else if tag == 0x0002 {
        Some(ColumnTypeView::BigInt)
    } else if tag == 0x0004 {
        Some(ColumnTypeView::Boolean)
    } else if tag == 0x0005 {
        Some(ColumnTypeView::Counter)
    } else if tag == 0x0009 {
        Some(ColumnTypeView::Int)
    } else if tag == 0x000B {
        Some(ColumnTypeView::Timestamp)
    } else if tag == 0x000D {
        Some(ColumnTypeView::Text)
    } else if tag == 0x0010 {
        Some(ColumnTypeView::Inet)
    } else if tag == 0x0011 {
        Some(ColumnTypeView::Date)
    } else if tag == 0x0012 {
        Some(ColumnTypeView::Time)
    } else if tag == 0x0013 {
        Some(ColumnTypeView::SmallInt)
    } else if tag == 0x0014 {
        Some(ColumnTypeView::TinyInt)
    } else {
        None
    }
}

/// A column type: a `[short]` tag, followed for a list or a set by the type
/// of the elements, for a map by the types of keys and values, for a
/// user-defined type by keyspace, name, number of fields and the fields, and
/// for a tuple by the number of members and their types. A tag that stands
/// for none of these is refused by its number.
pub open spec fn parse_type(s: Seq<u8>) -> Result<(ColumnTypeView, Seq<u8>), ParseError>
    decreases s.len(), 0nat,
{
    match parse_short(s) {
        Err(e) => Err(e),
        Ok((tag, body)) => if plain_type(tag) is Some {
            Ok((plain_type(tag)->0, body))
        } else if tag == 0x0020 {
            match parse_type(body) {
                Err(e) => Err(e),
                Ok((t, rest)) => Ok((ColumnTypeView::List(Box::new(t)), rest)),
            }
        } else if tag == 0x0021 {
            match parse_type(body) {
                Err(e) => Err(e),
                Ok((k, rest)) => match parse_type(left_of(rest, body)) {
                    Err(e) => Err(e),
                    Ok((v, rest)) => Ok((ColumnTypeView::CqlMap(Box::new(k), Box::new(v)), rest)),
                },
            }
        } else if tag == 0x0022 {
            match parse_type(body) {
                Err(e) => Err(e),
                Ok((t, rest)) => Ok((ColumnTypeView::CqlSet(Box::new(t)), rest)),
            }
        } else if tag == 0x0030 {
            match parse_string(body) {
                Err(e) => Err(e),
                Ok((keyspace, rest)) => match parse_string(rest) {
                    Err(e) => Err(e),
                    Ok((udt_name, rest)) => match parse_short(rest) {
                        Err(e) => Err(e),
                        Ok((count, rest)) => match parse_fields(rest, count as nat) {
                            Err(e) => Err(e),
                            Ok((field_types, rest)) => Ok(
                                (
                                    ColumnTypeView::UserDefinedType {
                                        udt_name,
                                        keyspace,
                                        field_types,
                                    },
                                    rest,
                                ),
                            ),
                        },
                    },
                },
            }
        } else if tag == 0x0031 {
            match parse_short(body) {
                Err(e) => Err(e),
                Ok((count, rest)) => match parse_types(rest, count as nat) {
                    Err(e) => Err(e),
                    Ok((types, rest)) => Ok((ColumnTypeView::Tuple(types), rest)),
                },
            }
        } else {
            Err(ParseError::TypeNotImplemented(tag))
        },
    }
}

/// `count` fields of a user-defined type, each a `[string]` name and a type.
pub open spec fn parse_fields(s: Seq<u8>, count: nat) -> Result<
    (Seq<(Seq<char>, ColumnTypeView)>, Seq<u8>),
    ParseError,
>
    decreases s.len(), count,
{
    if count == 0 {
        Ok((Seq::empty(), s))
    } else {
        match parse_string(s) {
            Err(e) => Err(e),
            Ok((name, after_name)) => match parse_type(after_name) {
                Err(e) => Err(e),
                Ok((t, rest)) => prepend(
                    seq![(name, t)],
                    parse_fields(left_of(rest, after_name), (count - 1) as nat),
                ),
            },
        }
    }
}

/// `count` types, one after the other.
pub open spec fn parse_types(s: Seq<u8>, count: nat) -> Result<
    (Seq<ColumnTypeView>, Seq<u8>),
    ParseError,
>
    decreases s.len(), count,
{
    if count == 0 {
        Ok((Seq::empty(), s))
    } else {
        match parse_type(s) {
            Err(e) => Err(e),
            Ok((t, rest)) => prepend(seq![t], parse_types(left_of(rest, s), (count - 1) as nat)),
        }
    }
}

/// The tag of a type.
pub open spec fn type_tag(t: ColumnTypeView) -> u16 {
    match t {
        ColumnTypeView::Ascii => 0x0001,
        ColumnTypeView::BigInt => 0x0002,
        ColumnTypeView::Boolean => 0x0004,
        ColumnTypeView::Counter => 0x0005,
        ColumnTypeView::Int => 0x0009,
        ColumnTypeView::Timestamp => 0x000B,
        ColumnTypeView::Text => 0x000D,
        ColumnTypeView::Inet => 0x0010,
        ColumnTypeView::Date => 0x0011,
        ColumnTypeView::Time => 0x0012,
        ColumnTypeView::SmallInt => 0x0013,
        ColumnTypeView::TinyInt => 0x0014,
        ColumnTypeView::List(_) => 0x0020,
        ColumnTypeView::CqlMap(_, _) => 0x0021,
        ColumnTypeView::CqlSet(_) => 0x0022,
        ColumnTypeView::UserDefinedType { .. } => 0x0030,
        ColumnTypeView::Tuple(_) => 0x0031,
    }
}

/// The bytes that stand for a type: its tag and, after it, what `parse_type`
/// reads after that tag.
pub open spec fn encode_type(t: ColumnTypeView) -> Seq<u8>
    decreases t, 0nat,
{
    match t {
        ColumnTypeView::List(inner) => encode_short(type_tag(t)) + encode_type(*inner),
        ColumnTypeView::CqlMap(key_type, value_type) => encode_short(type_tag(t)) + encode_type(
            *key_type,
        ) + encode_type(*value_type),
        ColumnTypeView::CqlSet(inner) => encode_short(type_tag(t)) + encode_type(*inner),
        ColumnTypeView::UserDefinedType { udt_name, keyspace, field_types } => encode_short(
            type_tag(t),
        ) + encode_string(keyspace) + encode_string(udt_name) + encode_short(
            field_types.len() as u16,
        ) + encode_fields(field_types, 0),
        ColumnTypeView::Tuple(types) => encode_short(type_tag(t)) + encode_short(
            types.len() as u16,
        ) + encode_types(types, 0),
        _ => encode_short(type_tag(t)),
    }
}

/// The bytes that stand for the fields of a user-defined type from the
/// field at `from` on.
pub open spec fn encode_fields(fields: Seq<(Seq<char>, ColumnTypeView)>, from: int) -> Seq<u8>
    decreases fields, fields.len() - from,
{
    if 0 <= from < fields.len() {
        encode_string(fields[from].0) + encode_type(fields[from].1) + encode_fields(
            fields,
            from + 1,
        )
    } else {
        Seq::empty()
    }
}

/// The bytes that stand for the types of a sequence from the one at `from`
/// on.
pub open spec fn encode_types(types: Seq<ColumnTypeView>, from: int) -> Seq<u8>
    decreases types, types.len() - from,
{
    if 0 <= from < types.len() {
        encode_type(types[from]) + encode_types(types, from + 1)
    } else {
        Seq::empty()
    }
}

/// Whether a text can be written as a `[string]`: its UTF-8 form is at most
/// 65535 bytes long.
pub open spec fn fits_string(chars: Seq<char>) -> bool {
    encode_utf8(chars).len() <= u16::MAX
}

/// Whether a type can be written: every name in it fits a `[string]`, and no
/// user-defined type or tuple in it has more than 65535 parts.
pub open spec fn encodable_type(t: ColumnTypeView) -> bool
    decreases t,
{
    match t {
        ColumnTypeView::List(inner) => encodable_type(*inner),
        ColumnTypeView::CqlMap(key_type, value_type) => encodable_type(*key_type)
            && encodable_type(*value_type),
        ColumnTypeView::CqlSet(inner) => encodable_type(*inner),
        ColumnTypeView::UserDefinedType { udt_name, keyspace, field_types } => {
            &&& fits_string(keyspace)
            &&& fits_string(udt_name)
            &&& field_types.len() <= u16::MAX
            &&& forall|i: int|
                0 <= i < field_types.len() ==> fits_string((#[trigger] field_types[i]).0)
                    && encodable_type(field_types[i].1)
        },
        ColumnTypeView::Tuple(types) => {
            &&& types.len() <= u16::MAX
            &&& forall|i: int| 0 <= i < types.len() ==> encodable_type(#[trigger] types[i])
        },
        _ => true,
    }
}

// ---------------------------------------------------------------------------
// Values
// ---------------------------------------------------------------------------
/// Every byte is below `0x80`.
pub open spec fn all_ascii(s: Seq<u8>) -> bool {
    forall|i: int| 0 <= i < s.len() ==> s[i] < 0x80
}

/// The number of bytes that a value of a fixed-width type takes.
pub open spec fn fixed_width(typ: ColumnTypeView) -> Option<nat> {
    match typ {
        ColumnTypeView::Int => Some(4),
        ColumnTypeView::BigInt => Some(8),
        ColumnTypeView::Boolean => Some(1),
        ColumnTypeView::Counter => Some(8),
        ColumnTypeView::SmallInt => Some(2),
        ColumnTypeView::TinyInt => Some(1),
        ColumnTypeView::Date => Some(4),
        ColumnTypeView::Time => Some(8),
        ColumnTypeView::Timestamp => Some(8),
        _ => None,
    }
}

/// The value of a fixed-width type that the bytes of `s` stand for. All
/// integers are big-endian; all but the counter are in two's complement. A
/// boolean is true where its byte, read as a signed number, is above zero.
/// A date is a number of days from 1970-01-01, a time a number of
/// nanoseconds, a timestamp a number of milliseconds from the start of
/// 1970-01-01 UTC.
pub open spec fn fixed_value(typ: ColumnTypeView, s: Seq<u8>) -> CQLValueView
    recommends
        fixed_width(typ) == Some(s.len()),
{
    match typ {
        ColumnTypeView::Int => CQLValueView::Int(as_signed(be_u32(s), 0x1_0000_0000) as i32),
        ColumnTypeView::BigInt => CQLValueView::BigInt(
            as_signed(be_u64(s), 0x1_0000_0000_0000_0000) as i64,
        ),
        ColumnTypeView::Boolean => CQLValueView::Boolean(as_signed(s[0] as int, 0x100) > 0),
        ColumnTypeView::Counter => CQLValueView::Counter(be_u64(s) as u64),
        ColumnTypeView::SmallInt => CQLValueView::SmallInt(as_signed(be_u16(s), 0x1_0000) as i16),
        ColumnTypeView::TinyInt => CQLValueView::TinyInt(as_signed(s[0] as int, 0x100) as i8),
        ColumnTypeView::Date => CQLValueView::Date(
            CqlDate { days_since_epoch: as_signed(be_u32(s), 0x1_0000_0000) as i32 },
        ),
        ColumnTypeView::Time => CQLValueView::Time(
            CqlTime { nanoseconds: as_signed(be_u64(s), 0x1_0000_0000_0000_0000) as i64 },
        ),
        _ => CQLValueView::Timestamp(
            CqlTimestamp {
                millis_since_epoch: as_signed(be_u64(s), 0x1_0000_0000_0000_0000) as i64,
            },
        ),
    }
}

/// A value takes its whole payload: one that leaves bytes over is refused.
pub open spec fn whole_payload(r: Result<(CQLValueView, Seq<u8>), ParseError>) -> Result<
    (CQLValueView, Seq<u8>),
    ParseError,
> {
    match r {
        Err(e) => Err(e),
        Ok((value, rest)) => if rest.len() == 0 {
            Ok((value, Seq::empty()))
        } else {
            Err(ParseError::BadData(BadDataReason::TrailingBytes { left: rest.len() as usize }))
        },
    }
}

/// The value of type `typ` that the payload `s` stands for. The payload
/// holds the value and nothing else: on success nothing of it is left, and
/// a payload with bytes after the value is refused.
///
/// A payload of a fixed-width type must have exactly that width. Ascii and
/// text take the whole payload, ascii only where every byte is below `0x80`,
/// text only where the bytes are UTF-8. An inet address is 4 or 16 bytes. A
/// list, a set or a map starts with an `[int]` count; each element, key and
/// value is a `[bytes]` whose content is a payload of its own. The fields
/// of a user-defined type and the members of a tuple come one optional
/// `[bytes]` each, in the order of the type. After the last of them the
/// payload must end.
pub open spec fn parse_value(typ: ColumnTypeView, s: Seq<u8>) -> Result<
    (CQLValueView, Seq<u8>),
    ParseError,
>
    decreases typ, 1nat, 0nat,
{
    match typ {
        ColumnTypeView::Ascii => if all_ascii(s) {
            Ok((CQLValueView::Ascii(decode_utf8(s)), Seq::empty()))
        } else {
            Err(ParseError::BadData(BadDataReason::NotAscii))
        },
        ColumnTypeView::Text => if valid_utf8(s) {
            Ok((CQLValueView::Text(decode_utf8(s)), Seq::empty()))
        } else {
            Err(ParseError::BadData(BadDataReason::InvalidUtf8))
        },
        ColumnTypeView::Inet => if s.len() == 4 || s.len() == 16 {
            Ok((CQLValueView::Inet(s), Seq::empty()))
        } else {
            Err(ParseError::BadData(BadDataReason::InvalidInetLength { actual: s.len() as usize }))
        },
        ColumnTypeView::List(inner) => whole_payload(
            match parse_int_length(s) {
                Err(e) => Err(e),
                Ok((count, rest)) => match parse_elems(*inner, rest, count as nat) {
                    Err(e) => Err(e),
                    Ok((values, rest)) => Ok((CQLValueView::List(values), rest)),
                },
            },
        ),
        ColumnTypeView::CqlSet(inner) => whole_payload(
            match parse_int_length(s) {
                Err(e) => Err(e),
                Ok((count, rest)) => match parse_elems(*inner, rest, count as nat) {
                    Err(e) => Err(e),
                    Ok((values, rest)) => Ok((CQLValueView::CqlSet(values), rest)),
                },
            },
        ),
        ColumnTypeView::CqlMap(key_type, value_type) => whole_payload(
            match parse_int_length(s) {
                Err(e) => Err(e),
                Ok((count, rest)) => match parse_entries(typ, rest, count as nat) {
                    Err(e) => Err(e),
                    Ok((entries, rest)) => Ok((CQLValueView::CqlMap(entries), rest)),
                },
            },
        ),
        ColumnTypeView::UserDefinedType { udt_name, keyspace, field_types } => whole_payload(
            match parse_udt_fields(field_types, 0, s) {
                Err(e) => Err(e),
                Ok((fields, rest)) => Ok(
                    (CQLValueView::UserDefinedType { keyspace, udt_name, fields }, rest),
                ),
            },
        ),
        ColumnTypeView::Tuple(types) => whole_payload(
            match parse_members(types, 0, s) {
                Err(e) => Err(e),
                Ok((members, rest)) => Ok((CQLValueView::Tuple(members), rest)),
            },
        ),
        _ => if fixed_width(typ) == Some(s.len()) {
            Ok((fixed_value(typ, s), Seq::empty()))
        } else {
            Err(
                ParseError::BadData(
                    BadDataReason::WrongLength {
                        expected: fixed_width(typ).unwrap() as usize,
                        actual: s.len() as usize,
                    },
                ),
            )
        },
    }
}

/// `count` elements of a list or a set, each a `[bytes]` that holds a value
/// of type `typ`.
pub open spec fn parse_elems(typ: ColumnTypeView, s: Seq<u8>, count: nat) -> Result<
    (Seq<CQLValueView>, Seq<u8>),
    ParseError,
>
    decreases typ, 2nat, count,
{
    if count == 0 {
        Ok((Seq::empty(), s))
    } else {
        match parse_bytes(s) {
            Err(e) => Err(e),
            Ok((payload, rest)) => match parse_value(typ, payload) {
                Err(e) => Err(e),
                Ok((value, _)) => prepend(seq![value], parse_elems(typ, rest, (count - 1) as nat)),
            },
        }
    }
}

/// `count` entries of a map of type `map_type`, each a `[bytes]` that holds
/// a key and a `[bytes]` that holds a value.
pub open spec fn parse_entries(map_type: ColumnTypeView, s: Seq<u8>, count: nat) -> Result<
    (Seq<(CQLValueView, CQLValueView)>, Seq<u8>),
    ParseError,
>
    recommends
        map_type is CqlMap,
    decreases map_type, 0nat, count,
{
    match map_type {
        ColumnTypeView::CqlMap(key_type, value_type) => if count == 0 {
            Ok((Seq::empty(), s))
        } else {
            match parse_bytes(s) {
                Err(e) => Err(e),
                Ok((key_payload, rest)) => match parse_value(*key_type, key_payload) {
                    Err(e) => Err(e),
                    Ok((key, _)) => match parse_bytes(rest) {
                        Err(e) => Err(e),
                        Ok((value_payload, rest)) => match parse_value(*value_type, value_payload) {
                            Err(e) => Err(e),
                            Ok((value, _)) => prepend(
                                seq![(key, value)],
                                parse_entries(map_type, rest, (count - 1) as nat),
                            ),
                        },
                    },
                },
            }
        },
        _ => Ok((Seq::empty(), s)),
    }
}

/// One optional `[bytes]` that holds a value of type `typ`.
pub open spec fn parse_opt_value(typ: ColumnTypeView, s: Seq<u8>) -> Result<
    (Option<CQLValueView>, Seq<u8>),
    ParseError,
>
    decreases typ, 2nat, 0nat,
{
    match parse_bytes_opt(s) {
        Err(e) => Err(e),
        Ok((None, rest)) => Ok((None, rest)),
        Ok((Some(payload), rest)) => match parse_value(typ, payload) {
            Err(e) => Err(e),
            Ok((value, _)) => Ok((Some(value), rest)),
        },
    }
}

/// The fields of a value of a user-defined type from the field at `from`
/// on, each an optional `[bytes]`, under the names that the type gives them.
pub open spec fn parse_udt_fields(
    field_types: Seq<(Seq<char>, ColumnTypeView)>,
    from: int,
    s: Seq<u8>,
) -> Result<(Seq<(Seq<char>, Option<CQLValueView>)>, Seq<u8>), ParseError>
    decreases field_types, 0nat, field_types.len() - from,
{
    if 0 <= from < field_types.len() {
        match parse_opt_value(field_types[from].1, s) {
            Err(e) => Err(e),
            Ok((value, rest)) => prepend(
                seq![(field_types[from].0, value)],
                parse_udt_fields(field_types, from + 1, rest),
            ),
        }
    } else {
        Ok((Seq::empty(), s))
    }
}

/// The members of a tuple from the member at `from` on, each an optional
/// `[bytes]`.
pub open spec fn parse_members(types: Seq<ColumnTypeView>, from: int, s: Seq<u8>) -> Result<
    (Seq<Option<CQLValueView>>, Seq<u8>),
    ParseError,
>
    decreases types, 0nat, types.len() - from,
{
    if 0 <= from < types.len() {
        match parse_opt_value(types[from], s) {
            Err(e) => Err(e),
            Ok((value, rest)) => prepend(seq![value], parse_members(types, from + 1, rest)),
        }
    } else {
        Ok((Seq::empty(), s))
    }
}

/// The payload that stands for a value. It does not depend on the type
/// under which the value will be read: the value's own shape decides it.
/// Numbers are written big-endian, text as UTF-8, true as 1 and false as 0,
/// and a value that is built from others as `parse_value` reads it.
pub open spec fn encode_value(v: CQLValueView) -> Seq<u8>
    decreases v, 0nat,
{
    match v {
        CQLValueView::Ascii(chars) => encode_utf8(chars),
        CQLValueView::Text(chars) => encode_utf8(chars),
        CQLValueView::Int(i) => u32_be_bytes(as_unsigned(i as int, 0x1_0000_0000)),
        CQLValueView::BigInt(i) => u64_be_bytes(as_unsigned(i as int, 0x1_0000_0000_0000_0000)),
        CQLValueView::Boolean(b) => seq![if b { 1u8 } else { 0u8 }],
        CQLValueView::Counter(c) => u64_be_bytes(c as int),
        CQLValueView::SmallInt(i) => u16_be_bytes(as_unsigned(i as int, 0x1_0000)),
        CQLValueView::TinyInt(i) => seq![as_unsigned(i as int, 0x100) as u8],
        CQLValueView::Date(d) => u32_be_bytes(
            as_unsigned(d.days_since_epoch as int, 0x1_0000_0000),
        ),
        CQLValueView::Time(t) => u64_be_bytes(
            as_unsigned(t.nanoseconds as int, 0x1_0000_0000_0000_0000),
        ),
        CQLValueView::Timestamp(t) => u64_be_bytes(
            as_unsigned(t.millis_since_epoch as int, 0x1_0000_0000_0000_0000),
        ),
        CQLValueView::Inet(address) => address,
        CQLValueView::List(values) => encode_int(values.len() as i32) + encode_elems(values, 0),
        CQLValueView::CqlSet(values) => encode_int(values.len() as i32) + encode_elems(values, 0),
        CQLValueView::CqlMap(entries) => encode_int(entries.len() as i32) + encode_entries(
            entries,
            0,
        ),
        CQLValueView::UserDefinedType { fields, .. } => encode_udt_fields(fields, 0),
        CQLValueView::Tuple(members) => encode_members(members, 0),
    }
}

/// The bytes of the elements of a list or a set from the one at `from` on:
/// each a `[bytes]` that holds the element's payload.
pub open spec fn encode_elems(values: Seq<CQLValueView>, from: int) -> Seq<u8>
    decreases values, values.len() - from,
{
    if 0 <= from < values.len() {
        encode_bytes(encode_value(values[from])) + encode_elems(values, from + 1)
    } else {
        Seq::empty()
    }
}

/// The bytes of the entries of a map from the one at `from` on: for each
/// the key and the value, each a `[bytes]`.
pub open spec fn encode_entries(entries: Seq<(CQLValueView, CQLValueView)>, from: int) -> Seq<u8>
    decreases entries, entries.len() - from,
{
    if 0 <= from < entries.len() {
        encode_bytes(encode_value(entries[from].0)) + encode_bytes(
            encode_value(entries[from].1),
        ) + encode_entries(entries, from + 1)
    } else {
        Seq::empty()
    }
}

/// The bytes of a value that may be absent: an optional `[bytes]`.
pub open spec fn encode_opt_value(value: Option<CQLValueView>) -> Seq<u8>
    decreases value, 1nat,
{
    match value {
        None => encode_bytes_opt(None),
        Some(v) => encode_bytes_opt(Some(encode_value(v))),
    }
}

/// The bytes of the fields of a value of a user-defined type from the one
/// at `from` on. The names are not written.
pub open spec fn encode_udt_fields(fields: Seq<(Seq<char>, Option<CQLValueView>)>, from: int) -> Seq<
    u8,
>
    decreases fields, fields.len() - from,
{
    if 0 <= from < fields.len() {
        encode_opt_value(fields[from].1) + encode_udt_fields(fields, from + 1)
    } else {
        Seq::empty()
    }
}

/// The bytes of the members of a tuple, or of the cells of a row, from the
/// one at `from` on.
pub open spec fn encode_members(members: Seq<Option<CQLValueView>>, from: int) -> Seq<u8>
    decreases members, members.len() - from,
{
    if 0 <= from < members.len() {
        encode_opt_value(members[from]) + encode_members(members, from + 1)
    } else {
        Seq::empty()
    }
}

/// Whether a value can be written as one `[bytes]`: it can be written, and
/// its payload is at most `i32::MAX` bytes long.
pub open spec fn fits_bytes(v: CQLValueView) -> bool
    decreases v, 1nat,
{
    encodable_value(v) && encode_value(v).len() <= i32::MAX
}

/// Whether a value that may be absent can be written as an optional
/// `[bytes]`.
pub open spec fn fits_opt_bytes(value: Option<CQLValueView>) -> bool
    decreases value, 2nat,
{
    match value {
        None => true,
        Some(v) => fits_bytes(v),
    }
}

/// Whether a value can be written: no list, set or map in it has more than
/// `i32::MAX` elements, and every part that is written as a `[bytes]` fits
/// one.
pub open spec fn encodable_value(v: CQLValueView) -> bool
    decreases v, 0nat,
{
    match v {
        CQLValueView::List(values) => values.len() <= i32::MAX && forall|i: int|
            0 <= i < values.len() ==> fits_bytes(#[trigger] values[i]),
        CQLValueView::CqlSet(values) => values.len() <= i32::MAX && forall|i: int|
            0 <= i < values.len() ==> fits_bytes(#[trigger] values[i]),
        CQLValueView::CqlMap(entries) => entries.len() <= i32::MAX && forall|i: int|
            0 <= i < entries.len() ==> fits_bytes((#[trigger] entries[i]).0) && fits_bytes(
                entries[i].1,
            ),
        CQLValueView::UserDefinedType { fields, .. } => forall|i: int|
            0 <= i < fields.len() ==> fits_opt_bytes((#[trigger] fields[i]).1),
        CQLValueView::Tuple(members) => forall|i: int|
            0 <= i < members.len() ==> fits_opt_bytes(#[trigger] members[i]),
        _ => true,
    }
}

/// Whether a value that may be absent is none or a value of type `typ`.
pub open spec fn opt_conforms(typ: ColumnTypeView, value: Option<CQLValueView>) -> bool
    decreases typ, 1nat,
{
    match value {
        None => true,
        Some(v) => conforms(typ, v),
    }
}

/// Whether `v` is a value of type `typ`: it has the shape that the type
/// calls for, an ascii text holds ascii characters only, an inet address
/// has 4 or 16 bytes, and a value of a user-defined type has the type's
/// keyspace and name and its fields under their names and in their order.
pub open spec fn conforms(typ: ColumnTypeView, v: CQLValueView) -> bool
    decreases typ, 0nat,
{
    match typ {
        ColumnTypeView::Ascii => v matches CQLValueView::Ascii(chars) && is_ascii_chars(chars),
        ColumnTypeView::Int => v is Int,
        ColumnTypeView::BigInt => v is BigInt,
        ColumnTypeView::Boolean => v is Boolean,
        ColumnTypeView::Counter => v is Counter,
        ColumnTypeView::SmallInt => v is SmallInt,
        ColumnTypeView::TinyInt => v is TinyInt,
        ColumnTypeView::Date => v is Date,
        ColumnTypeView::Time => v is Time,
        ColumnTypeView::Timestamp => v is Timestamp,
        ColumnTypeView::Text => v is Text,
        ColumnTypeView::Inet => v matches CQLValueView::Inet(address) && (address.len() == 4
            || address.len() == 16),
        ColumnTypeView::List(inner) => v matches CQLValueView::List(values) && forall|i: int|
            0 <= i < values.len() ==> conforms(*inner, #[trigger] values[i]),
        ColumnTypeView::CqlSet(inner) => v matches CQLValueView::CqlSet(values) && forall|i: int|
            0 <= i < values.len() ==> conforms(*inner, #[trigger] values[i]),
        ColumnTypeView::CqlMap(key_type, value_type) => v matches CQLValueView::CqlMap(entries)
            && forall|i: int|
            0 <= i < entries.len() ==> conforms(*key_type, (#[trigger] entries[i]).0) && conforms(
                *value_type,
                entries[i].1,
            ),
        ColumnTypeView::UserDefinedType { udt_name, keyspace, field_types } => {
            &&& v matches CQLValueView::UserDefinedType {
                keyspace: value_keyspace,
                udt_name: value_name,
                fields,
            }
            &&& value_keyspace == keyspace
            &&& value_name == udt_name
            &&& fields.len() == field_types.len()
            &&& forall|i: int|
                0 <= i < fields.len() ==> (#[trigger] fields[i]).0 == field_types[i].0
                    && opt_conforms(field_types[i].1, fields[i].1)
        },
        ColumnTypeView::Tuple(types) => {
            &&& v matches CQLValueView::Tuple(members)
            &&& members.len() == types.len()
            &&& forall|i: int|
                0 <= i < members.len() ==> opt_conforms(types[i], #[trigger] members[i])
        },
    }
}

// ---------------------------------------------------------------------------
// Metadata, rows and results
// ---------------------------------------------------------------------------
/// The bit of the metadata flags that says that one keyspace and table hold
/// for all columns.
pub const FLAG_GLOBAL_TABLES_SPEC: i32 = 0x0001;

/// The bit of the metadata flags that says that a paging state follows.
pub const FLAG_HAS_MORE_PAGES: i32 = 0x0002;

/// The bit of the metadata flags that says that the columns are not
/// described.
pub const FLAG_NO_METADATA: i32 = 0x0004;

/// A keyspace and a table, each a `[string]`.
pub open spec fn parse_table_spec(s: Seq<u8>) -> Result<(TableSpecView, Seq<u8>), ParseError> {
    match parse_string(s) {
        Err(e) => Err(e),
        Ok((ks_name, rest)) => match parse_string(rest) {
            Err(e) => Err(e),
            Ok((table_name, rest)) => Ok((TableSpecView { ks_name, table_name }, rest)),
        },
    }
}

/// The keyspace and table of the next column: the global ones where there
/// are any, else the ones that stand next in the input.
pub open spec fn parse_column_table(s: Seq<u8>, global: Option<TableSpecView>) -> Result<
    (TableSpecView, Seq<u8>),
    ParseError,
> {
    match global {
        Some(table_spec) => Ok((table_spec, s)),
        None => parse_table_spec(s),
    }
}

/// The description of one column: keyspace and table unless they are
/// global, a `[string]` name and a type.
#[verifier::opaque]
pub open spec fn parse_col_spec(s: Seq<u8>, global: Option<TableSpecView>) -> Result<
    (ColumnSpecView, Seq<u8>),
    ParseError,
> {
    match parse_column_table(s, global) {
        Err(e) => Err(e),
        Ok((table_spec, rest)) => match parse_string(rest) {
            Err(e) => Err(e),
            Ok((name, rest)) => match parse_type(rest) {
                Err(e) => Err(e),
                Ok((typ, rest)) => Ok((ColumnSpecView { table_spec, name, typ }, rest)),
            },
        },
    }
}

/// The descriptions of `count` columns, in their order.
pub open spec fn parse_col_specs(s: Seq<u8>, global: Option<TableSpecView>, count: nat) -> Result<
    (Seq<ColumnSpecView>, Seq<u8>),
    ParseError,
>
    decreases count,
{
    if count == 0 {
        Ok((Seq::empty(), s))
    } else {
        match parse_col_spec(s, global) {
            Err(e) => Err(e),
            Ok((col_spec, rest)) => prepend(
                seq![col_spec],
                parse_col_specs(rest, global, (count - 1) as nat),
            ),
        }
    }
}

/// The global keyspace and table, where the flags announce them.
pub open spec fn parse_global_table_spec(s: Seq<u8>, flags: i32) -> Result<
    (Option<TableSpecView>, Seq<u8>),
    ParseError,
> {
    if flag_set(flags, FLAG_GLOBAL_TABLES_SPEC) {
        match parse_table_spec(s) {
            Err(e) => Err(e),
            Ok((table_spec, rest)) => Ok((Some(table_spec), rest)),
        }
    } else {
        Ok((None, s))
    }
}

/// The paging state, a `[bytes]` that must be present, where the flags
/// announce one.
pub open spec fn parse_paging_state(s: Seq<u8>, flags: i32) -> Result<
    (Option<Seq<u8>>, Seq<u8>),
    ParseError,
> {
    if flag_set(flags, FLAG_HAS_MORE_PAGES) {
        match parse_bytes(s) {
            Err(e) => Err(e),
            Ok((state, rest)) => Ok((Some(state), rest)),
        }
    } else {
        Ok((None, s))
    }
}

/// Whether the flags at the start of metadata say that the descriptions of
/// the columns are left out.
pub open spec fn announces_no_metadata(s: Seq<u8>) -> bool {
    parse_int(s) matches Ok((flags, _)) && flag_set(flags, FLAG_NO_METADATA)
}

/// The metadata of a result: `[int]` flags, an `[int]` number of columns
/// that must not be negative, the paging state where the flags announce one
/// and, unless the flags say that there is no metadata, the global keyspace
/// and table where the flags announce them and the description of each
/// column. The three flags are looked at independently of each other.
pub open spec fn parse_result_metadata(s: Seq<u8>) -> Result<
    (ResultMetadataView, Seq<u8>),
    ParseError,
> {
    match parse_int(s) {
        Err(e) => Err(e),
        Ok((flags, rest)) => match parse_int_length(rest) {
            Err(e) => Err(e),
            Ok((col_count, rest)) => match parse_paging_state(rest, flags) {
                Err(e) => Err(e),
                Ok((paging_state, rest)) => if flag_set(flags, FLAG_NO_METADATA) {
                    Ok(
                        (
                            ResultMetadataView {
                                col_count: col_count as usize,
                                paging_state,
                                col_specs: Seq::empty(),
                            },
                            rest,
                        ),
                    )
                } else {
                    match parse_global_table_spec(rest, flags) {
                        Err(e) => Err(e),
                        Ok((global, rest)) => match parse_col_specs(rest, global, col_count as nat) {
                            Err(e) => Err(e),
                            Ok((col_specs, rest)) => Ok(
                                (
                                    ResultMetadataView {
                                        col_count: col_count as usize,
                                        paging_state,
                                        col_specs,
                                    },
                                    rest,
                                ),
                            ),
                        },
                    }
                },
            },
        },
    }
}

/// `count` times a `[short]`.
pub open spec fn parse_shorts(s: Seq<u8>, count: nat) -> Result<(Seq<u16>, Seq<u8>), ParseError>
    decreases count,
{
    if count == 0 {
        Ok((Seq::empty(), s))
    } else {
        match parse_short(s) {
            Err(e) => Err(e),
            Ok((v, rest)) => prepend(seq![v], parse_shorts(rest, (count - 1) as nat)),
        }
    }
}

/// The metadata of the parameters of a prepared statement: `[int]` flags,
/// an `[int]` number of columns, an `[int]` number of partition-key indexes
/// (neither may be negative), the indexes as `[short]`s in the order in
/// which they come, the global keyspace and table where the flags announce
/// them, and the description of each column.
pub open spec fn parse_prepared_metadata(s: Seq<u8>) -> Result<
    (PreparedMetadataView, Seq<u8>),
    ParseError,
> {
    match parse_int(s) {
        Err(e) => Err(e),
        Ok((flags, rest)) => match parse_int_length(rest) {
            Err(e) => Err(e),
            Ok((col_count, rest)) => match parse_int_length(rest) {
                Err(e) => Err(e),
                Ok((pk_count, rest)) => match parse_shorts(rest, pk_count as nat) {
                    Err(e) => Err(e),
                    Ok((pk_indexes, rest)) => match parse_global_table_spec(rest, flags) {
                        Err(e) => Err(e),
                        Ok((global, rest)) => match parse_col_specs(rest, global, col_count as nat) {
                            Err(e) => Err(e),
                            Ok((col_specs, rest)) => Ok(
                                (
                                    PreparedMetadataView {
                                        col_count: col_count as usize,
                                        pk_indexes,
                                        col_specs,
                                    },
                                    rest,
                                ),
                            ),
                        },
                    },
                },
            },
        },
    }
}

/// The types of the columns that `col_specs` describes, in their order.
pub open spec fn column_types(col_specs: Seq<ColumnSpecView>) -> Seq<ColumnTypeView> {
    Seq::new(col_specs.len(), |i: int| col_specs[i].typ)
}

/// `count` rows, each one cell per column: an optional `[bytes]` that holds
/// a value of the column's type.
pub open spec fn parse_row_seq(types: Seq<ColumnTypeView>, s: Seq<u8>, count: nat) -> Result<
    (Seq<Seq<Option<CQLValueView>>>, Seq<u8>),
    ParseError,
>
    decreases count,
{
    if count == 0 {
        Ok((Seq::empty(), s))
    } else {
        match parse_members(types, 0, s) {
            Err(e) => Err(e),
            Ok((row, rest)) => prepend(seq![row], parse_row_seq(types, rest, (count - 1) as nat)),
        }
    }
}

/// The body of a Rows result: metadata, an `[int]` number of rows that must
/// not be negative, and the rows. Metadata that describes another number of
/// columns than it announces (as it does when the columns are left out) is
/// refused, since the cells could not be told apart.
pub open spec fn parse_rows(s: Seq<u8>) -> Result<(RowsView, Seq<u8>), ParseError> {
    match parse_result_metadata(s) {
        Err(e) => Err(e),
        Ok((metadata, rest)) => if metadata.col_count != metadata.col_specs.len() {
            Err(
                ParseError::BadData(
                    BadDataReason::MissingColumnSpecs {
                        col_count: metadata.col_count,
                        described: metadata.col_specs.len() as usize,
                    },
                ),
            )
        } else {
            match parse_int_length(rest) {
                Err(e) => Err(e),
                Ok((rows_count, rest)) => match parse_row_seq(
                    column_types(metadata.col_specs),
                    rest,
                    rows_count as nat,
                ) {
                    Err(e) => Err(e),
                    Ok((rows, rest)) => Ok(
                        (RowsView { metadata, rows_count: rows_count as usize, rows }, rest),
                    ),
                },
            }
        },
    }
}

/// The body of a Prepared result: the statement's id as `[short bytes]`,
/// the metadata of its parameters and the metadata of its result.
pub open spec fn parse_prepared(s: Seq<u8>) -> Result<(PreparedView, Seq<u8>), ParseError> {
    match parse_short_bytes(s) {
        Err(e) => Err(e),
        Ok((id, rest)) => match parse_prepared_metadata(rest) {
            Err(e) => Err(e),
            Ok((prepared_metadata, rest)) => match parse_result_metadata(rest) {
                Err(e) => Err(e),
                Ok((result_metadata, rest)) => Ok(
                    (PreparedView { id, prepared_metadata, result_metadata }, rest),
                ),
            },
        },
    }
}

/// The body of a SetKeyspace result: the keyspace's name, which is read and
/// not kept.
pub open spec fn parse_set_keyspace(s: Seq<u8>) -> Result<((), Seq<u8>), ParseError> {
    match parse_string(s) {
        Err(e) => Err(e),
        Ok((_, rest)) => Ok(((), rest)),
    }
}

/// The kind of a result whose body is empty.
pub const KIND_VOID: i32 = 0x0001;

/// The kind of a result that holds rows.
pub const KIND_ROWS: i32 = 0x0002;

/// The kind of the result of a `USE` statement.
pub const KIND_SET_KEYSPACE: i32 = 0x0003;

/// The kind of the result of a PREPARE request.
pub const KIND_PREPARED: i32 = 0x0004;

/// The kind of the result of a statement that changed the schema.
pub const KIND_SCHEMA_CHANGE: i32 = 0x0005;

/// The body of a RESULT frame: an `[int]` kind and what the kind calls for.
/// The body of a schema change is taken whole and not looked at. Any other
/// kind than the five is refused by its number.
pub open spec fn parse_result(s: Seq<u8>) -> Result<(ResultView, Seq<u8>), ParseError> {
    match parse_int(s) {
        Err(e) => Err(e),
        Ok((kind, rest)) => if kind == KIND_VOID {
            Ok((ResultView::Void, rest))
        } else if kind == KIND_ROWS {
            match parse_rows(rest) {
                Err(e) => Err(e),
                Ok((rows, rest)) => Ok((ResultView::Rows(rows), rest)),
            }
        } else if kind == KIND_SET_KEYSPACE {
            match parse_set_keyspace(rest) {
                Err(e) => Err(e),
                Ok((_, rest)) => Ok((ResultView::SetKeyspace, rest)),
            }
        } else if kind == KIND_PREPARED {
            match parse_prepared(rest) {
                Err(e) => Err(e),
                Ok((prepared, rest)) => Ok((ResultView::Prepared(prepared), rest)),
            }
        } else if kind == KIND_SCHEMA_CHANGE {
            Ok((ResultView::SchemaChange, Seq::empty()))
        } else {
            Err(ParseError::BadData(BadDataReason::UnknownResultKind { kind }))
        },
    }
}

// ---------------------------------------------------------------------------
// The bytes of the body of a Rows result
// ---------------------------------------------------------------------------
/// The bytes of a keyspace and a table.
pub open spec fn encode_table_spec(table_spec: TableSpecView) -> Seq<u8> {
    encode_string(table_spec.ks_name) + encode_string(table_spec.table_name)
}

/// The bytes of the description of a column that carries its own keyspace
/// and table.
#[verifier::opaque]
pub open spec fn encode_col_spec(col_spec: ColumnSpecView) -> Seq<u8> {
    encode_table_spec(col_spec.table_spec) + encode_string(col_spec.name) + encode_type(
        col_spec.typ,
    )
}

/// The bytes of the descriptions of the columns from the one at `from` on.
pub open spec fn encode_col_specs(col_specs: Seq<ColumnSpecView>, from: int) -> Seq<u8>
    decreases col_specs.len() - from,
{
    if 0 <= from < col_specs.len() {
        encode_col_spec(col_specs[from]) + encode_col_specs(col_specs, from + 1)
    } else {
        Seq::empty()
    }
}

/// The flags under which metadata is written: a paging state is announced
/// where there is one, every column carries its own keyspace and table,
/// and the descriptions are not left out.
pub open spec fn metadata_flags(metadata: ResultMetadataView) -> i32 {
    if metadata.paging_state is Some {
        FLAG_HAS_MORE_PAGES
    } else {
        0
    }
}

/// The bytes of the metadata of a result.
pub open spec fn encode_result_metadata(metadata: ResultMetadataView) -> Seq<u8> {
    encode_int(metadata_flags(metadata)) + encode_int(metadata.col_count as i32) + (
    match metadata.paging_state {
        Some(state) => encode_bytes(state),
        None => Seq::empty(),
    }) + encode_col_specs(metadata.col_specs, 0)
}

/// The bytes of the rows from the one at `from` on: cell after cell, an
/// absent cell as the length -1.
pub open spec fn encode_row_seq(rows: Seq<Seq<Option<CQLValueView>>>, from: int) -> Seq<u8>
    decreases rows.len() - from,
{
    if 0 <= from < rows.len() {
        encode_members(rows[from], 0) + encode_row_seq(rows, from + 1)
    } else {
        Seq::empty()
    }
}

/// The bytes of the body of a Rows result: metadata, number of rows, rows.
pub open spec fn encode_rows(rows: RowsView) -> Seq<u8> {
    encode_result_metadata(rows.metadata) + encode_int(rows.rows_count as i32) + encode_row_seq(
        rows.rows,
        0,
    )
}

/// Whether the description of a column can be written: its names fit a
/// `[string]` and its type can be written.
pub open spec fn encodable_col_spec(col_spec: ColumnSpecView) -> bool {
    &&& fits_string(col_spec.table_spec.ks_name)
    &&& fits_string(col_spec.table_spec.table_name)
    &&& fits_string(col_spec.name)
    &&& encodable_type(col_spec.typ)
}

/// Whether a row holds, for each type, none or a value of that type that
/// fits a `[bytes]`.
pub open spec fn row_fits(types: Seq<ColumnTypeView>, row: Seq<Option<CQLValueView>>) -> bool {
    &&& row.len() == types.len()
    &&& forall|i: int|
        0 <= i < row.len() ==> opt_conforms(types[i], #[trigger] row[i]) && fits_opt_bytes(row[i])
}

/// Whether rows are a result that can be written and read back: the
/// metadata describes as many columns as it announces, there are as many
/// rows as announced, no count is above `i32::MAX`, every description and
/// the paging state can be written, and every row holds for each column
/// none or a value of the column's type that fits a `[bytes]`.
#[verifier::opaque]
pub open spec fn encodable_rows(rows: RowsView) -> bool {
    &&& rows.metadata.col_count == rows.metadata.col_specs.len()
    &&& rows.metadata.col_count <= i32::MAX
    &&& rows.rows_count == rows.rows.len()
    &&& rows.rows_count <= i32::MAX
    &&& (rows.metadata.paging_state matches Some(state) ==> state.len() <= i32::MAX)
    &&& forall|i: int|
        0 <= i < rows.metadata.col_specs.len() ==> encodable_col_spec(
            #[trigger] rows.metadata.col_specs[i],
        )
    &&& forall|i: int|
        0 <= i < rows.rows.len() ==> row_fits(
            column_types(rows.metadata.col_specs),
            #[trigger] rows.rows[i],
        )
}

} // verus!
