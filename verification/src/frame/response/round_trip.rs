//! What is written is what is read: the proofs that decoding undoes
//! encoding, for types and for values.
use crate::frame::frame_errors::ParseError;
use crate::frame::response::grammar::{
    all_ascii, conforms, encodable_type, encodable_value, encode_elems, encode_entries,
    encode_fields, encode_members, encode_opt_value, encode_type, encode_types,
    encode_udt_fields, encode_value, fits_bytes, fits_opt_bytes, fits_string, fixed_value,
    fixed_width, opt_conforms, parse_elems, parse_entries, parse_fields, parse_members,
    parse_opt_value, parse_type, parse_types, parse_udt_fields, parse_value, plain_type,
    type_tag,
};
use crate::frame::response::result::{ColumnTypeView, CQLValueView};
use crate::frame::types::{
    as_unsigned, encode_bytes, encode_int, encode_short, encode_string,
    lemma_bytes_opt_round_trip, lemma_bytes_round_trip, lemma_int_round_trip,
    lemma_short_round_trip, lemma_string_round_trip, lemma_u16_round_trip, lemma_u32_round_trip,
    lemma_u64_round_trip, parse_bytes, parse_short, parse_string,
};
use vstd::prelude::*;
use vstd::utf8::{encode_utf8, is_ascii_chars};

verus! {

/// A tag that stands for a type by itself is read as that type.
proof fn lemma_step_plain(t: ColumnTypeView, tail: Seq<u8>)
    requires
        plain_type(type_tag(t)) == Some(t),
    ensures
        parse_type(encode_short(type_tag(t)) + tail) == Ok::<_, ParseError>((t, tail)),
{
    lemma_short_round_trip(type_tag(t), tail);
}

/// The tag of a list or of a set, followed by a type, is read as a list or
/// a set of that type.
proof fn lemma_step_list(tag: u16, body: Seq<u8>, inner: ColumnTypeView, rest: Seq<u8>)
    requires
        tag == 0x0020 || tag == 0x0022,
        parse_type(body) == Ok::<_, ParseError>((inner, rest)),
    ensures
        parse_type(encode_short(tag) + body) == Ok::<_, ParseError>(
            (
                if tag == 0x0020 {
                    ColumnTypeView::List(Box::new(inner))
                } else {
                    ColumnTypeView::CqlSet(Box::new(inner))
                },
                rest,
            ),
        ),
{
    lemma_short_round_trip(tag, body);
}

/// The tag of a map, followed by two types, is read as a map from the first
/// to the second.
proof fn lemma_step_map(
    body: Seq<u8>,
    key_type: ColumnTypeView,
    mid: Seq<u8>,
    value_type: ColumnTypeView,
    rest: Seq<u8>,
)
    requires
        parse_type(body) == Ok::<_, ParseError>((key_type, mid)),
        mid.len() <= body.len(),
        parse_type(mid) == Ok::<_, ParseError>((value_type, rest)),
    ensures
        parse_type(encode_short(0x0021) + body) == Ok::<_, ParseError>(
            (ColumnTypeView::CqlMap(Box::new(key_type), Box::new(value_type)), rest),
        ),
{
    lemma_short_round_trip(0x0021, body);
}

/// The tag of a user-defined type, followed by keyspace, name, number of
/// fields and fields, is read as that user-defined type.
proof fn lemma_step_udt(
    body: Seq<u8>,
    keyspace: Seq<char>,
    r1: Seq<u8>,
    udt_name: Seq<char>,
    r2: Seq<u8>,
    count: u16,
    r3: Seq<u8>,
    field_types: Seq<(Seq<char>, ColumnTypeView)>,
    rest: Seq<u8>,
)
    requires
        parse_string(body) == Ok::<_, ParseError>((keyspace, r1)),
        parse_string(r1) == Ok::<_, ParseError>((udt_name, r2)),
        parse_short(r2) == Ok::<_, ParseError>((count, r3)),
        parse_fields(r3, count as nat) == Ok::<_, ParseError>((field_types, rest)),
    ensures
        parse_type(encode_short(0x0030) + body) == Ok::<_, ParseError>(
            (ColumnTypeView::UserDefinedType { udt_name, keyspace, field_types }, rest),
        ),
{
    lemma_short_round_trip(0x0030, body);
}

/// The tag of a tuple, followed by the number of members and their types,
/// is read as that tuple.
proof fn lemma_step_tuple(
    body: Seq<u8>,
    count: u16,
    r1: Seq<u8>,
    types: Seq<ColumnTypeView>,
    rest: Seq<u8>,
)
    requires
        parse_short(body) == Ok::<_, ParseError>((count, r1)),
        parse_types(r1, count as nat) == Ok::<_, ParseError>((types, rest)),
    ensures
        parse_type(encode_short(0x0031) + body) == Ok::<_, ParseError>(
            (ColumnTypeView::Tuple(types), rest),
        ),
{
    lemma_short_round_trip(0x0031, body);
}

/// A type that was written is read back as it was, and what followed it in
/// the input is what is left: the parser takes exactly the bytes that the
/// encoder produced.
pub proof fn lemma_type_round_trip(t: ColumnTypeView, tail: Seq<u8>)
    requires
        encodable_type(t),
    ensures
        parse_type(encode_type(t) + tail) == Ok::<_, ParseError>((t, tail)),
    decreases t, 1nat,
{
    match t {
        ColumnTypeView::List(_) => lemma_list_type_round_trip(t, tail),
        ColumnTypeView::CqlSet(_) => lemma_list_type_round_trip(t, tail),
        ColumnTypeView::CqlMap(_, _) => lemma_map_type_round_trip(t, tail),
        ColumnTypeView::UserDefinedType { .. } => lemma_udt_type_round_trip(t, tail),
        ColumnTypeView::Tuple(_) => lemma_tuple_type_round_trip(t, tail),
        _ => lemma_step_plain(t, tail),
    }
}

/// The round trip of a list or set type.
proof fn lemma_list_type_round_trip(t: ColumnTypeView, tail: Seq<u8>)
    requires
        t is List || t is CqlSet,
        encodable_type(t),
    ensures
        parse_type(encode_type(t) + tail) == Ok::<_, ParseError>((t, tail)),
    decreases t, 0nat,
{
    let inner = if t is List {
        *t->List_0
    } else {
        *t->CqlSet_0
    };
    let body = encode_type(inner) + tail;
    assert(encode_type(t) + tail =~= encode_short(type_tag(t)) + body);
    lemma_type_round_trip(inner, tail);
    lemma_step_list(type_tag(t), body, inner, tail);
}

/// The round trip of a map type.
proof fn lemma_map_type_round_trip(t: ColumnTypeView, tail: Seq<u8>)
    requires
        t is CqlMap,
        encodable_type(t),
    ensures
        parse_type(encode_type(t) + tail) == Ok::<_, ParseError>((t, tail)),
    decreases t, 0nat,
{
    let key_type = *t->CqlMap_0;
    let value_type = *t->CqlMap_1;
    let mid = encode_type(value_type) + tail;
    let body = encode_type(key_type) + mid;
    assert(encode_type(t) + tail =~= encode_short(0x0021) + body);
    lemma_type_round_trip(key_type, mid);
    lemma_type_round_trip(value_type, tail);
    lemma_step_map(body, key_type, mid, value_type, tail);
}

/// The round trip of a user-defined type.
proof fn lemma_udt_type_round_trip(t: ColumnTypeView, tail: Seq<u8>)
    requires
        t is UserDefinedType,
        encodable_type(t),
    ensures
        parse_type(encode_type(t) + tail) == Ok::<_, ParseError>((t, tail)),
    decreases t, 0nat,
{
    let keyspace = t->keyspace;
    let udt_name = t->udt_name;
    let field_types = t->field_types;
    let count = field_types.len() as u16;
    let r3 = encode_fields(field_types, 0) + tail;
    let r2 = encode_short(count) + r3;
    let r1 = encode_string(udt_name) + r2;
    let body = encode_string(keyspace) + r1;
    assert(encode_type(t) + tail =~= encode_short(0x0030) + body);
    lemma_string_round_trip(keyspace, r1);
    lemma_string_round_trip(udt_name, r2);
    lemma_short_round_trip(count, r3);
    lemma_fields_round_trip(field_types, 0, tail);
    assert(field_types.skip(0) =~= field_types);
    lemma_step_udt(body, keyspace, r1, udt_name, r2, count, r3, field_types, tail);
}

/// The round trip of a tuple type.
proof fn lemma_tuple_type_round_trip(t: ColumnTypeView, tail: Seq<u8>)
    requires
        t is Tuple,
        encodable_type(t),
    ensures
        parse_type(encode_type(t) + tail) == Ok::<_, ParseError>((t, tail)),
    decreases t, 0nat,
{
    let types = t->Tuple_0;
    let count = types.len() as u16;
    let r1 = encode_types(types, 0) + tail;
    let body = encode_short(count) + r1;
    assert(encode_type(t) + tail =~= encode_short(0x0031) + body);
    lemma_short_round_trip(count, r1);
    lemma_types_round_trip(types, 0, tail);
    assert(types.skip(0) =~= types);
    lemma_step_tuple(body, count, r1, types, tail);
}

/// The fields of a user-defined type that were written from `from` on are
/// read back as they were.
pub proof fn lemma_fields_round_trip(
    fields: Seq<(Seq<char>, ColumnTypeView)>,
    from: int,
    tail: Seq<u8>,
)
    requires
        0 <= from <= fields.len(),
        forall|i: int|
            0 <= i < fields.len() ==> fits_string((#[trigger] fields[i]).0) && encodable_type(
                fields[i].1,
            ),
    ensures
        parse_fields(encode_fields(fields, from) + tail, (fields.len() - from) as nat) == Ok::<
            _,
            ParseError,
        >((fields.skip(from), tail)),
    decreases fields, fields.len() - from,
{
    if from < fields.len() {
        let (name, t) = fields[from];
        let r2 = encode_fields(fields, from + 1) + tail;
        let r1 = encode_type(t) + r2;
        assert(encode_fields(fields, from) + tail =~= encode_string(name) + r1);
        lemma_string_round_trip(name, r1);
        lemma_type_round_trip(t, r2);
        lemma_fields_round_trip(fields, from + 1, tail);
        assert(seq![(name, t)] + fields.skip(from + 1) =~= fields.skip(from));
    } else {
        assert(encode_fields(fields, from) + tail =~= tail);
        assert(fields.skip(from) =~= Seq::empty());
    }
}

/// The types that were written from `from` on are read back as they were.
pub proof fn lemma_types_round_trip(types: Seq<ColumnTypeView>, from: int, tail: Seq<u8>)
    requires
        0 <= from <= types.len(),
        forall|i: int| 0 <= i < types.len() ==> encodable_type(#[trigger] types[i]),
    ensures
        parse_types(encode_types(types, from) + tail, (types.len() - from) as nat) == Ok::<
            _,
            ParseError,
        >((types.skip(from), tail)),
    decreases types, types.len() - from,
{
    if from < types.len() {
        let t = types[from];
        let r1 = encode_types(types, from + 1) + tail;
        assert(encode_types(types, from) + tail =~= encode_type(t) + r1);
        lemma_type_round_trip(t, r1);
        lemma_types_round_trip(types, from + 1, tail);
        assert(seq![t] + types.skip(from + 1) =~= types.skip(from));
    } else {
        assert(encode_types(types, from) + tail =~= tail);
        assert(types.skip(from) =~= Seq::empty());
    }
}

/// The UTF-8 form of ascii characters holds no byte above `0x7f`.
pub proof fn lemma_ascii_chars_bytes(chars: Seq<char>)
    requires
        is_ascii_chars(chars),
    ensures
        all_ascii(encode_utf8(chars)),
{
    vstd::utf8::is_ascii_chars_encode_utf8(chars);
    vstd::utf8::is_ascii_chars_nat_bound(chars);
    let bytes = encode_utf8(chars);
    assert forall|i: int| 0 <= i < bytes.len() implies bytes[i] < 0x80 by {
        assert(chars[i] as u8 == bytes[i]);
        assert((chars[i] as nat) < 128);
    }
}

/// A value of ascii, text or inet type is read back from its payload.
proof fn lemma_text_round_trip(typ: ColumnTypeView, v: CQLValueView)
    requires
        typ is Ascii || typ is Text || typ is Inet,
        conforms(typ, v),
    ensures
        parse_value(typ, encode_value(v)) == Ok::<_, ParseError>((v, Seq::<u8>::empty())),
{
    match v {
        CQLValueView::Ascii(chars) => {
            lemma_ascii_chars_bytes(chars);
            vstd::utf8::encode_utf8_decode_utf8(chars);
        },
        CQLValueView::Text(chars) => {
            vstd::utf8::encode_utf8_valid_utf8(chars);
            vstd::utf8::encode_utf8_decode_utf8(chars);
        },
        _ => {},
    }
}

/// A value of a fixed-width type is read back from its payload.
proof fn lemma_fixed_round_trip(typ: ColumnTypeView, v: CQLValueView)
    requires
        fixed_width(typ) is Some,
        conforms(typ, v),
    ensures
        parse_value(typ, encode_value(v)) == Ok::<_, ParseError>((v, Seq::<u8>::empty())),
{
    let s = encode_value(v);
    let none = Seq::<u8>::empty();
    assert(s + none =~= s);
    match v {
        CQLValueView::Int(i) => {
            lemma_u32_round_trip(as_unsigned(i as int, 0x1_0000_0000), none);
        },
        CQLValueView::BigInt(i) => {
            lemma_u64_round_trip(as_unsigned(i as int, 0x1_0000_0000_0000_0000), none);
        },
        CQLValueView::Counter(c) => {
            lemma_u64_round_trip(c as int, none);
        },
        CQLValueView::SmallInt(i) => {
            lemma_u16_round_trip(as_unsigned(i as int, 0x1_0000), none);
        },
        CQLValueView::Date(d) => {
            lemma_u32_round_trip(as_unsigned(d.days_since_epoch as int, 0x1_0000_0000), none);
        },
        CQLValueView::Time(t) => {
            lemma_u64_round_trip(as_unsigned(t.nanoseconds as int, 0x1_0000_0000_0000_0000), none);
        },
        CQLValueView::Timestamp(t) => {
            lemma_u64_round_trip(
                as_unsigned(t.millis_since_epoch as int, 0x1_0000_0000_0000_0000),
                none,
            );
        },
        _ => {},
    }
    assert(fixed_value(typ, s) == v);
}

/// Every element is a value of type `typ` that fits a `[bytes]`.
#[verifier::opaque]
pub open spec fn elems_fit(typ: ColumnTypeView, values: Seq<CQLValueView>) -> bool {
    forall|i: int|
        0 <= i < values.len() ==> conforms(typ, #[trigger] values[i]) && fits_bytes(values[i])
}

/// Every entry has a key and a value of the types of the map, and both fit
/// a `[bytes]`.
#[verifier::opaque]
pub open spec fn entries_fit(
    map_type: ColumnTypeView,
    entries: Seq<(CQLValueView, CQLValueView)>,
) -> bool {
    forall|i: int|
        0 <= i < entries.len() ==> conforms(*map_type->CqlMap_0, (#[trigger] entries[i]).0)
            && conforms(*map_type->CqlMap_1, entries[i].1) && fits_bytes(entries[i].0)
            && fits_bytes(entries[i].1)
}

/// There is one field for each field of the type, under its name, and each
/// is none or a value of the field's type that fits a `[bytes]`.
#[verifier::opaque]
pub open spec fn fields_fit(
    field_types: Seq<(Seq<char>, ColumnTypeView)>,
    fields: Seq<(Seq<char>, Option<CQLValueView>)>,
) -> bool {
    &&& fields.len() == field_types.len()
    &&& forall|i: int|
        0 <= i < fields.len() ==> (#[trigger] fields[i]).0 == field_types[i].0 && opt_conforms(
            field_types[i].1,
            fields[i].1,
        ) && fits_opt_bytes(fields[i].1)
}

/// There is one member for each type, and each is none or a value of its
/// type that fits a `[bytes]`.
#[verifier::opaque]
pub open spec fn members_fit(types: Seq<ColumnTypeView>, members: Seq<Option<CQLValueView>>) -> bool {
    &&& members.len() == types.len()
    &&& forall|i: int|
        0 <= i < members.len() ==> opt_conforms(types[i], #[trigger] members[i])
            && fits_opt_bytes(members[i])
}

/// A count, followed by what reads back as `count` elements, reads back as
/// a list or a set.
proof fn lemma_step_elems(
    typ: ColumnTypeView,
    values: Seq<CQLValueView>,
    body: Seq<u8>,
    rest: Seq<u8>,
)
    requires
        typ is List || typ is CqlSet,
        values.len() <= i32::MAX,
        rest.len() == 0,
        parse_elems(
            if typ is List {
                *typ->List_0
            } else {
                *typ->CqlSet_0
            },
            body,
            values.len(),
        ) == Ok::<_, ParseError>((values, rest)),
    ensures
        parse_value(typ, encode_int(values.len() as i32) + body) == Ok::<_, ParseError>(
            (
                if typ is List {
                    CQLValueView::List(values)
                } else {
                    CQLValueView::CqlSet(values)
                },
                Seq::<u8>::empty(),
            ),
        ),
{
    lemma_int_round_trip(values.len() as i32, body);
}

/// A count, followed by what reads back as `count` entries, reads back as
/// a map.
proof fn lemma_step_entries(
    typ: ColumnTypeView,
    entries: Seq<(CQLValueView, CQLValueView)>,
    body: Seq<u8>,
    rest: Seq<u8>,
)
    requires
        typ is CqlMap,
        entries.len() <= i32::MAX,
        rest.len() == 0,
        parse_entries(typ, body, entries.len()) == Ok::<_, ParseError>((entries, rest)),
    ensures
        parse_value(typ, encode_int(entries.len() as i32) + body) == Ok::<_, ParseError>(
            (CQLValueView::CqlMap(entries), Seq::<u8>::empty()),
        ),
{
    lemma_int_round_trip(entries.len() as i32, body);
}

/// A value that conforms to a type and can be written is read back, under
/// that type, from the payload that was written for it, and nothing of the
/// payload is left. For a list, a set, a map, a user-defined type and a
/// tuple the parts come back in the order in which they were written.
pub proof fn lemma_value_round_trip(typ: ColumnTypeView, v: CQLValueView)
    requires
        conforms(typ, v),
        encodable_value(v),
    ensures
        parse_value(typ, encode_value(v)) == Ok::<_, ParseError>((v, Seq::<u8>::empty())),
    decreases typ, 1nat, 0nat,
{
    let none = Seq::<u8>::empty();
    match typ {
        ColumnTypeView::Ascii => {
            lemma_text_round_trip(typ, v);
        },
        ColumnTypeView::Text => {
            lemma_text_round_trip(typ, v);
        },
        ColumnTypeView::Inet => {
            lemma_text_round_trip(typ, v);
        },
        ColumnTypeView::List(inner) => {
            let values = v->List_0;
            assert(elems_fit(*inner, values)) by {
                reveal(elems_fit);
            }
            lemma_elems_round_trip(*inner, values, 0, none);
            assert(values.skip(0) =~= values);
            assert(encode_elems(values, 0) + none =~= encode_elems(values, 0));
            lemma_step_elems(typ, values, encode_elems(values, 0), none);
        },
        ColumnTypeView::CqlSet(inner) => {
            let values = v->CqlSet_0;
            assert(elems_fit(*inner, values)) by {
                reveal(elems_fit);
            }
            lemma_elems_round_trip(*inner, values, 0, none);
            assert(values.skip(0) =~= values);
            assert(encode_elems(values, 0) + none =~= encode_elems(values, 0));
            lemma_step_elems(typ, values, encode_elems(values, 0), none);
        },
        ColumnTypeView::CqlMap(_, _) => {
            let entries = v->CqlMap_0;
            assert(entries_fit(typ, entries)) by {
                reveal(entries_fit);
            }
            lemma_entries_round_trip(typ, entries, 0, none);
            assert(entries.skip(0) =~= entries);
            assert(encode_entries(entries, 0) + none =~= encode_entries(entries, 0));
            lemma_step_entries(typ, entries, encode_entries(entries, 0), none);
        },
        ColumnTypeView::UserDefinedType { udt_name, keyspace, field_types } => {
            let fields = v->fields;
            assert(fields_fit(field_types, fields)) by {
                reveal(fields_fit);
            }
            lemma_udt_fields_round_trip(field_types, fields, 0, none);
            assert(fields.skip(0) =~= fields);
            assert(encode_udt_fields(fields, 0) + none =~= encode_udt_fields(fields, 0));
        },
        ColumnTypeView::Tuple(types) => {
            let members = v->Tuple_0;
            assert(members_fit(types, members)) by {
                reveal(members_fit);
            }
            lemma_members_round_trip(types, members, 0, none);
            assert(members.skip(0) =~= members);
            assert(encode_members(members, 0) + none =~= encode_members(members, 0));
        },
        _ => {
            lemma_fixed_round_trip(typ, v);
        },
    }
}

/// A value that may be absent is read back from the optional `[bytes]`
/// that was written for it, whatever follows.
pub proof fn lemma_opt_value_round_trip(
    typ: ColumnTypeView,
    value: Option<CQLValueView>,
    tail: Seq<u8>,
)
    requires
        opt_conforms(typ, value),
        fits_opt_bytes(value),
    ensures
        parse_opt_value(typ, encode_opt_value(value) + tail) == Ok::<_, ParseError>((value, tail)),
    decreases typ, 2nat, 0nat,
{
    match value {
        None => {
            lemma_bytes_opt_round_trip(None, tail);
        },
        Some(v) => {
            lemma_bytes_opt_round_trip(Some(encode_value(v)), tail);
            lemma_value_round_trip(typ, v);
        },
    }
}

/// `v` is a value of type `typ` that fits a `[bytes]`.
#[verifier::opaque]
pub open spec fn elem_fits(typ: ColumnTypeView, v: CQLValueView) -> bool {
    conforms(typ, v) && fits_bytes(v)
}

/// `s` starts with a `[bytes]` whose content reads as the value `v` of type
/// `typ`, and `rest` follows it.
#[verifier::opaque]
pub open spec fn reads_elem(typ: ColumnTypeView, v: CQLValueView, s: Seq<u8>, rest: Seq<u8>) -> bool {
    parse_bytes(s) matches Ok((payload, after)) && after == rest
        && parse_value(typ, payload) == Ok::<_, ParseError>((v, Seq::<u8>::empty()))
}

/// An element that was written as a `[bytes]` is read back, whatever
/// follows it.
pub proof fn lemma_elem_round_trip(typ: ColumnTypeView, v: CQLValueView, tail: Seq<u8>)
    requires
        elem_fits(typ, v),
    ensures
        reads_elem(typ, v, encode_bytes(encode_value(v)) + tail, tail),
    decreases typ, 1nat, 1nat,
{
    reveal(elem_fits);
    reveal(reads_elem);
    lemma_bytes_round_trip(encode_value(v), tail);
    lemma_value_round_trip(typ, v);
}

/// One more element in front: a `[bytes]` whose content reads as a value,
/// followed by what reads as the other elements.
proof fn lemma_step_elem(
    typ: ColumnTypeView,
    s: Seq<u8>,
    rest: Seq<u8>,
    value: CQLValueView,
    more: Seq<CQLValueView>,
    tail: Seq<u8>,
    count: nat,
)
    requires
        count > 0,
        reads_elem(typ, value, s, rest),
        parse_elems(typ, rest, (count - 1) as nat) == Ok::<_, ParseError>((more, tail)),
    ensures
        parse_elems(typ, s, count) == Ok::<_, ParseError>((seq![value] + more, tail)),
{
    reveal(reads_elem);
}

/// One more entry in front: two `[bytes]` whose contents read as a key and
/// a value, followed by what reads as the other entries.
proof fn lemma_step_entry(
    map_type: ColumnTypeView,
    s: Seq<u8>,
    mid: Seq<u8>,
    key: CQLValueView,
    rest: Seq<u8>,
    value: CQLValueView,
    more: Seq<(CQLValueView, CQLValueView)>,
    tail: Seq<u8>,
    count: nat,
)
    requires
        map_type is CqlMap,
        count > 0,
        reads_elem(*map_type->CqlMap_0, key, s, mid),
        reads_elem(*map_type->CqlMap_1, value, mid, rest),
        parse_entries(map_type, rest, (count - 1) as nat) == Ok::<_, ParseError>((more, tail)),
    ensures
        parse_entries(map_type, s, count) == Ok::<_, ParseError>(
            (seq![(key, value)] + more, tail),
        ),
{
    reveal(reads_elem);
}

/// The elements of a list or a set that were written from `from` on are
/// read back as they were, in their order.
pub proof fn lemma_elems_round_trip(
    typ: ColumnTypeView,
    values: Seq<CQLValueView>,
    from: int,
    tail: Seq<u8>,
)
    requires
        0 <= from <= values.len(),
        elems_fit(typ, values),
    ensures
        parse_elems(typ, encode_elems(values, from) + tail, (values.len() - from) as nat) == Ok::<
            _,
            ParseError,
        >((values.skip(from), tail)),
    decreases typ, 2nat, values.len() - from,
{
    if from < values.len() {
        let v = values[from];
        let rest = encode_elems(values, from + 1) + tail;
        let s = encode_elems(values, from) + tail;
        assert(elem_fits(typ, v)) by {
            reveal(elems_fit);
            reveal(elem_fits);
        }
        assert(s == encode_bytes(encode_value(v)) + rest) by {
            assert(s =~= encode_bytes(encode_value(v)) + rest);
        }
        lemma_elem_round_trip(typ, v, rest);
        lemma_elems_round_trip(typ, values, from + 1, tail);
        lemma_step_elem(
            typ,
            s,
            rest,
            v,
            values.skip(from + 1),
            tail,
            (values.len() - from) as nat,
        );
        assert(seq![v] + values.skip(from + 1) =~= values.skip(from));
    } else {
        assert(encode_elems(values, from) + tail =~= tail);
        assert(values.skip(from) =~= Seq::empty());
    }
}

/// The bytes of the entries from `from` on are those of the entry at
/// `from`, key first, and then those of the entries that follow it.
proof fn lemma_entries_split(entries: Seq<(CQLValueView, CQLValueView)>, from: int, tail: Seq<u8>)
    requires
        0 <= from < entries.len(),
    ensures
        encode_entries(entries, from) + tail == encode_bytes(encode_value(entries[from].0)) + (
        encode_bytes(encode_value(entries[from].1)) + (encode_entries(entries, from + 1) + tail)),
{
    let a = encode_bytes(encode_value(entries[from].0));
    let b = encode_bytes(encode_value(entries[from].1));
    let c = encode_entries(entries, from + 1);
    assert(encode_entries(entries, from) == a + b + c);
    assert((a + b + c) + tail =~= a + (b + (c + tail)));
}

/// The entries from `from` on are the entry at `from` and those that
/// follow it.
proof fn lemma_entries_skip(entries: Seq<(CQLValueView, CQLValueView)>, from: int)
    requires
        0 <= from < entries.len(),
    ensures
        seq![(entries[from].0, entries[from].1)] + entries.skip(from + 1) == entries.skip(from),
{
    assert(seq![(entries[from].0, entries[from].1)] + entries.skip(from + 1) =~= entries.skip(
        from,
    ));
}

/// What holds of the entry at `from` where all entries fit.
proof fn lemma_entry_fits(
    map_type: ColumnTypeView,
    entries: Seq<(CQLValueView, CQLValueView)>,
    from: int,
)
    requires
        map_type is CqlMap,
        0 <= from < entries.len(),
        entries_fit(map_type, entries),
    ensures
        elem_fits(*map_type->CqlMap_0, entries[from].0),
        elem_fits(*map_type->CqlMap_1, entries[from].1),
{
    reveal(entries_fit);
    reveal(elem_fits);
}

/// The entries of a map that were written from `from` on are read back as
/// they were, in their order.
pub proof fn lemma_entries_round_trip(
    map_type: ColumnTypeView,
    entries: Seq<(CQLValueView, CQLValueView)>,
    from: int,
    tail: Seq<u8>,
)
    requires
        map_type is CqlMap,
        0 <= from <= entries.len(),
        entries_fit(map_type, entries),
    ensures
        parse_entries(
            map_type,
            encode_entries(entries, from) + tail,
            (entries.len() - from) as nat,
        ) == Ok::<_, ParseError>((entries.skip(from), tail)),
    decreases map_type, 0nat, entries.len() - from,
{
    match map_type {
        ColumnTypeView::CqlMap(key_type, value_type) => {
            if from < entries.len() {
                let key = entries[from].0;
                let value = entries[from].1;
                let rest = encode_entries(entries, from + 1) + tail;
                let mid = encode_bytes(encode_value(value)) + rest;
                let s = encode_entries(entries, from) + tail;
                let more = entries.skip(from + 1);
                lemma_entry_fits(map_type, entries, from);
                lemma_entries_split(entries, from, tail);
                lemma_elem_round_trip(*key_type, key, mid);
                lemma_elem_round_trip(*value_type, value, rest);
                lemma_entries_round_trip(map_type, entries, from + 1, tail);
                lemma_step_entry(
                    map_type,
                    s,
                    mid,
                    key,
                    rest,
                    value,
                    more,
                    tail,
                    (entries.len() - from) as nat,
                );
                lemma_entries_skip(entries, from);
            } else {
                assert(encode_entries(entries, from) + tail =~= tail);
                assert(entries.skip(from) =~= Seq::empty());
            }
        },
        _ => {},
    }
}

/// The fields of a value of a user-defined type that were written from
/// `from` on are read back as they were, under their names.
pub proof fn lemma_udt_fields_round_trip(
    field_types: Seq<(Seq<char>, ColumnTypeView)>,
    fields: Seq<(Seq<char>, Option<CQLValueView>)>,
    from: int,
    tail: Seq<u8>,
)
    requires
        0 <= from <= fields.len(),
        fields_fit(field_types, fields),
    ensures
        parse_udt_fields(field_types, from, encode_udt_fields(fields, from) + tail) == Ok::<
            _,
            ParseError,
        >((fields.skip(from), tail)),
    decreases field_types, 0nat, fields.len() - from,
{
    assert(fields.len() == field_types.len()) by {
        reveal(fields_fit);
    }
    if from < fields.len() {
        let field = fields[from];
        assert(field.0 == field_types[from].0 && opt_conforms(field_types[from].1, field.1)
            && fits_opt_bytes(field.1)) by {
            reveal(fields_fit);
        }
        let rest = encode_udt_fields(fields, from + 1) + tail;
        assert(encode_udt_fields(fields, from) + tail =~= encode_opt_value(field.1) + rest);
        lemma_opt_value_round_trip(field_types[from].1, field.1, rest);
        lemma_udt_fields_round_trip(field_types, fields, from + 1, tail);
        assert(seq![(field_types[from].0, field.1)] + fields.skip(from + 1) =~= fields.skip(from));
    } else {
        assert(encode_udt_fields(fields, from) + tail =~= tail);
        assert(fields.skip(from) =~= Seq::empty());
    }
}

/// The members of a tuple, or the cells of a row, that were written from
/// `from` on are read back as they were, in their order.
pub proof fn lemma_members_round_trip(
    types: Seq<ColumnTypeView>,
    members: Seq<Option<CQLValueView>>,
    from: int,
    tail: Seq<u8>,
)
    requires
        0 <= from <= members.len(),
        members_fit(types, members),
    ensures
        parse_members(types, from, encode_members(members, from) + tail) == Ok::<_, ParseError>(
            (members.skip(from), tail),
        ),
    decreases types, 0nat, members.len() - from,
{
    assert(members.len() == types.len()) by {
        reveal(members_fit);
    }
    if from < members.len() {
        let member = members[from];
        assert(opt_conforms(types[from], member) && fits_opt_bytes(member)) by {
            reveal(members_fit);
        }
        let rest = encode_members(members, from + 1) + tail;
        assert(encode_members(members, from) + tail =~= encode_opt_value(member) + rest);
        lemma_opt_value_round_trip(types[from], member, rest);
        lemma_members_round_trip(types, members, from + 1, tail);
        assert(seq![member] + members.skip(from + 1) =~= members.skip(from));
    } else {
        assert(encode_members(members, from) + tail =~= tail);
        assert(members.skip(from) =~= Seq::empty());
    }
}

} // verus!
