//! The values that a RESULT frame carries, and the decoder that builds them.
use crate::frame::frame_errors::{BadDataReason, ParseError};
use crate::frame::response::grammar::{
    all_ascii, announces_no_metadata, column_types, FLAG_GLOBAL_TABLES_SPEC,
    FLAG_HAS_MORE_PAGES, FLAG_NO_METADATA, KIND_PREPARED, KIND_ROWS, KIND_SCHEMA_CHANGE,
    KIND_SET_KEYSPACE, KIND_VOID, lemma_prepend_twice, parse_col_spec, parse_col_specs,
    parse_elems, parse_entries, parse_fields, parse_global_table_spec, parse_members,
    parse_opt_value, parse_prepared, parse_prepared_metadata, parse_result,
    parse_result_metadata, parse_row_seq, parse_rows, parse_set_keyspace, parse_shorts,
    parse_table_spec, parse_type, parse_types, parse_udt_fields, parse_value, prepend,
};
use crate::frame::tail::is_tail;
use crate::frame::types::{
    advance, be_read_i16, be_read_i32, be_read_i64, be_read_u64, bytes_from_vec, bytes_of,
    has_flag, outcome_view, read_bytes, read_bytes_opt, read_int, read_int_length, read_short,
    read_short_bytes, read_string,
};
use bytes::Bytes;
use std::result::Result as StdResult;
use vstd::prelude::*;
use vstd::slice::slice_to_vec;
use vstd::utf8::{decode_utf8, valid_utf8};

verus! {

broadcast use crate::frame::tail::group_tail;

/// Keyspace and table that a column belongs to.
#[derive(Debug, PartialEq, Eq)]
pub struct TableSpec {
    pub ks_name: String,
    pub table_name: String,
}

/// What `TableSpec` stands for in contracts.
pub struct TableSpecView {
    pub ks_name: Seq<char>,
    pub table_name: Seq<char>,
}

impl View for TableSpec {
    type V = TableSpecView;

    open spec fn view(&self) -> TableSpecView {
        TableSpecView { ks_name: self.ks_name@, table_name: self.table_name@ }
    }
}

impl Clone for TableSpec {
    fn clone(&self) -> (r: Self)
        ensures
            r@ == self@,
    {
        TableSpec { ks_name: self.ks_name.clone(), table_name: self.table_name.clone() }
    }
}

/// The type of a column, as the server describes it.
#[derive(Debug, PartialEq, Eq)]
pub enum ColumnType {
    Ascii,
    Int,
    BigInt,
    Boolean,
    Counter,
    SmallInt,
    TinyInt,
    Date,
    Time,
    Timestamp,
    Text,
    Inet,
    List(Box<ColumnType>),
    CqlMap(Box<ColumnType>, Box<ColumnType>),
    CqlSet(Box<ColumnType>),
    UserDefinedType { udt_name: String, keyspace: String, field_types: Vec<(String, ColumnType)> },
    Tuple(Vec<ColumnType>),
}

/// What `ColumnType` stands for in contracts: the same tree, with texts as
/// sequences of characters and vectors as sequences.
pub enum ColumnTypeView {
    Ascii,
    Int,
    BigInt,
    Boolean,
    Counter,
    SmallInt,
    TinyInt,
    Date,
    Time,
    Timestamp,
    Text,
    Inet,
    List(Box<ColumnTypeView>),
    CqlMap(Box<ColumnTypeView>, Box<ColumnTypeView>),
    CqlSet(Box<ColumnTypeView>),
    UserDefinedType {
        udt_name: Seq<char>,
        keyspace: Seq<char>,
        field_types: Seq<(Seq<char>, ColumnTypeView)>,
    },
    Tuple(Seq<ColumnTypeView>),
}

/// The view of a column type.
pub open spec fn type_view(t: ColumnType) -> ColumnTypeView
    decreases t,
{
    match t {
        ColumnType::Ascii => ColumnTypeView::Ascii,
        ColumnType::Int => ColumnTypeView::Int,
        ColumnType::BigInt => ColumnTypeView::BigInt,
        ColumnType::Boolean => ColumnTypeView::Boolean,
        ColumnType::Counter => ColumnTypeView::Counter,
        ColumnType::SmallInt => ColumnTypeView::SmallInt,
        ColumnType::TinyInt => ColumnTypeView::TinyInt,
        ColumnType::Date => ColumnTypeView::Date,
        ColumnType::Time => ColumnTypeView::Time,
        ColumnType::Timestamp => ColumnTypeView::Timestamp,
        ColumnType::Text => ColumnTypeView::Text,
        ColumnType::Inet => ColumnTypeView::Inet,
        ColumnType::List(t) => ColumnTypeView::List(Box::new(type_view(*t))),
        ColumnType::CqlMap(k, v) => ColumnTypeView::CqlMap(
            Box::new(type_view(*k)),
            Box::new(type_view(*v)),
        ),
        ColumnType::CqlSet(t) => ColumnTypeView::CqlSet(Box::new(type_view(*t))),
        ColumnType::UserDefinedType { udt_name, keyspace, field_types } => {
            ColumnTypeView::UserDefinedType {
                udt_name: udt_name@,
                keyspace: keyspace@,
                field_types: Seq::new(
                    field_types@.len(),
                    |i: int|
                        if 0 <= i < field_types@.len() {
                            (field_types@[i].0@, type_view(field_types@[i].1))
                        } else {
                            (Seq::empty(), ColumnTypeView::Ascii)
                        },
                ),
            }
        },
        ColumnType::Tuple(ts) => ColumnTypeView::Tuple(
            Seq::new(
                ts@.len(),
                |i: int|
                    if 0 <= i < ts@.len() {
                        type_view(ts@[i])
                    } else {
                        ColumnTypeView::Ascii
                    },
            ),
        ),
    }
}

impl View for ColumnType {
    type V = ColumnTypeView;

    open spec fn view(&self) -> ColumnTypeView {
        type_view(*self)
    }
}

/// The views of the fields of a user-defined type, in their order.
pub open spec fn fields_view(fields: Seq<(String, ColumnType)>) -> Seq<(Seq<char>, ColumnTypeView)> {
    Seq::new(fields.len(), |i: int| (fields[i].0@, fields[i].1@))
}

/// The views of a sequence of types, in their order.
pub open spec fn types_view(types: Seq<ColumnType>) -> Seq<ColumnTypeView> {
    Seq::new(types.len(), |i: int| types[i]@)
}

/// A user-defined type is viewed field by field, a tuple member by member.
pub proof fn lemma_type_view(t: ColumnType)
    ensures
        t matches ColumnType::UserDefinedType { udt_name, keyspace, field_types } ==> t@
            == (ColumnTypeView::UserDefinedType {
            udt_name: udt_name@,
            keyspace: keyspace@,
            field_types: fields_view(field_types@),
        }),
        t matches ColumnType::Tuple(ts) ==> t@ == ColumnTypeView::Tuple(types_view(ts@)),
{
    match t {
        ColumnType::UserDefinedType { udt_name, keyspace, field_types } => {
            assert(t@->field_types =~= fields_view(field_types@));
        },
        ColumnType::Tuple(ts) => {
            assert(t@->Tuple_0 =~= types_view(ts@));
        },
        _ => {},
    }
}

impl Clone for ColumnType {
    fn clone(&self) -> (r: Self)
        ensures
            r@ == self@,
        decreases self,
    {
        match self {
            ColumnType::Ascii => ColumnType::Ascii,
            ColumnType::Int => ColumnType::Int,
            ColumnType::BigInt => ColumnType::BigInt,
            ColumnType::Boolean => ColumnType::Boolean,
            ColumnType::Counter => ColumnType::Counter,
            ColumnType::SmallInt => ColumnType::SmallInt,
            ColumnType::TinyInt => ColumnType::TinyInt,
            ColumnType::Date => ColumnType::Date,
            ColumnType::Time => ColumnType::Time,
            ColumnType::Timestamp => ColumnType::Timestamp,
            ColumnType::Text => ColumnType::Text,
            ColumnType::Inet => ColumnType::Inet,
            ColumnType::List(t) => ColumnType::List(Box::new((**t).clone())),
            ColumnType::CqlMap(k, v) => ColumnType::CqlMap(
                Box::new((**k).clone()),
                Box::new((**v).clone()),
            ),
            ColumnType::CqlSet(t) => ColumnType::CqlSet(Box::new((**t).clone())),
            ColumnType::UserDefinedType { udt_name, keyspace, field_types } => {
                let mut fields: Vec<(String, ColumnType)> = Vec::new();
                let mut i: usize = 0;
                while i < field_types.len()
                    invariant
                        i <= field_types@.len(),
                        fields@.len() == i,
                        forall|j: int| 0 <= j < i ==> fields_view(fields@)[j] == fields_view(field_types@)[j],
                        decreases_to!(self => field_types),
                    decreases field_types@.len() - i,
                {
                    let f = &field_types[i];
                    fields.push((f.0.clone(), f.1.clone()));
                    i += 1;
                }
                let r = ColumnType::UserDefinedType {
                    udt_name: udt_name.clone(),
                    keyspace: keyspace.clone(),
                    field_types: fields,
                };
                proof {
                    lemma_type_view(r);
                    lemma_type_view(*self);
                    assert(fields_view(fields@) =~= fields_view(field_types@));
                }
                r
            },
            ColumnType::Tuple(ts) => {
                let mut out: Vec<ColumnType> = Vec::new();
                let mut i: usize = 0;
                while i < ts.len()
                    invariant
                        i <= ts@.len(),
                        out@.len() == i,
                        forall|j: int| 0 <= j < i ==> out@[j]@ == ts@[j]@,
                        decreases_to!(self => ts),
                    decreases ts@.len() - i,
                {
                    out.push(ts[i].clone());
                    i += 1;
                }
                let r = ColumnType::Tuple(out);
                proof {
                    lemma_type_view(r);
                    lemma_type_view(*self);
                    assert(types_view(out@) =~= types_view(ts@));
                }
                r
            },
        }
    }
}

/// Decodes the fields of a user-defined type: `count` times a name and a
/// type.
pub fn deser_fields(buf: &mut &[u8], count: u16) -> (r: StdResult<Vec<(String, ColumnType)>, ParseError>)
    ensures
        (match r {
            Ok(fields) => Ok((fields_view(fields@), final(buf)@)),
            Err(e) => Err(e),
        }) == parse_fields(old(buf)@, count as nat),
        is_tail(final(buf)@, old(buf)@),
    decreases old(buf)@.len(), count,
{
    let mut fields: Vec<(String, ColumnType)> = Vec::new();
    let mut i: u16 = 0;
    while i < count
        invariant
            i <= count,
            is_tail(buf@, old(buf)@),
            parse_fields(old(buf)@, count as nat) == prepend(
                fields_view(fields@),
                parse_fields(buf@, (count - i) as nat),
            ),
        decreases count - i,
    {
        let ghost before = buf@;
        let ghost done = fields_view(fields@);
        let name = read_string(buf)?.to_owned();
        let typ = deser_type(buf)?;
        proof {
            assert(done + seq![(name@, typ@)] =~= fields_view(fields@.push((name, typ))));
            lemma_prepend_twice(
                done,
                seq![(name@, typ@)],
                parse_fields(buf@, (count - i - 1) as nat),
            );
        }
        fields.push((name, typ));
        i += 1;
    }
    proof {
        assert(fields_view(fields@) + Seq::empty() =~= fields_view(fields@));
    }
    Ok(fields)
}

/// Decodes the members of a tuple type: `count` types.
pub fn deser_types(buf: &mut &[u8], count: u16) -> (r: StdResult<Vec<ColumnType>, ParseError>)
    ensures
        (match r {
            Ok(types) => Ok((types_view(types@), final(buf)@)),
            Err(e) => Err(e),
        }) == parse_types(old(buf)@, count as nat),
        is_tail(final(buf)@, old(buf)@),
    decreases old(buf)@.len(), count,
{
    let mut types: Vec<ColumnType> = Vec::new();
    let mut i: u16 = 0;
    while i < count
        invariant
            i <= count,
            is_tail(buf@, old(buf)@),
            parse_types(old(buf)@, count as nat) == prepend(
                types_view(types@),
                parse_types(buf@, (count - i) as nat),
            ),
        decreases count - i,
    {
        let ghost done = types_view(types@);
        let typ = deser_type(buf)?;
        proof {
            assert(done + seq![typ@] =~= types_view(types@.push(typ)));
            lemma_prepend_twice(done, seq![typ@], parse_types(buf@, (count - i - 1) as nat));
        }
        types.push(typ);
        i += 1;
    }
    proof {
        assert(types_view(types@) + Seq::empty() =~= types_view(types@));
    }
    Ok(types)
}

/// Decodes a column type: a tag and, for the types that are built from
/// others, what the tag calls for.
pub fn deser_type(buf: &mut &[u8]) -> (r: StdResult<ColumnType, ParseError>)
    ensures
        outcome_view(r, final(buf)@) == parse_type(old(buf)@),
        is_tail(final(buf)@, old(buf)@),
    decreases old(buf)@.len(), 0nat,
{
    let id: u16 = read_short(buf)?;
    Ok(
        match id {
            0x0001 => ColumnType::Ascii,
            0x0002 => ColumnType::BigInt,
            0x0004 => ColumnType::Boolean,
            0x0005 => ColumnType::Counter,
            0x0009 => ColumnType::Int,
            0x000B => ColumnType::Timestamp,
            0x000D => ColumnType::Text,
            0x0010 => ColumnType::Inet,
            0x0011 => ColumnType::Date,
            0x0012 => ColumnType::Time,
            0x0013 => ColumnType::SmallInt,
            0x0014 => ColumnType::TinyInt,
            0x0020 => ColumnType::List(Box::new(deser_type(buf)?)),
            0x0021 => {
                let key = deser_type(buf)?;
                let value = deser_type(buf)?;
                ColumnType::CqlMap(Box::new(key), Box::new(value))
            },
            0x0022 => ColumnType::CqlSet(Box::new(deser_type(buf)?)),
            0x0030 => {
                let keyspace: String = read_string(buf)?.to_owned();
                let udt_name: String = read_string(buf)?.to_owned();
                let fields_size: u16 = read_short(buf)?;
                let field_types = deser_fields(buf, fields_size)?;
                let t = ColumnType::UserDefinedType { udt_name, keyspace, field_types };
                proof {
                    lemma_type_view(t);
                }
                t
            },
            0x0031 => {
                let len: u16 = read_short(buf)?;
                let types = deser_types(buf, len)?;
                let t = ColumnType::Tuple(types);
                proof {
                    lemma_type_view(t);
                }
                t
            },
            id => {
                return Err(ParseError::TypeNotImplemented(id));
            },
        },
    )
}

// ---------------------------------------------------------------------------
// Values
// ---------------------------------------------------------------------------
/// A calendar day, counted in days from 1970-01-01. The count is the one on
/// the wire, read in two's complement: days before 1970 are negative.
#[derive(Debug, Clone, Copy, PartialEq, Eq, Hash)]
pub struct CqlDate {
    pub days_since_epoch: i32,
}

/// A time of day, or a span of time, in nanoseconds.
#[derive(Debug, Clone, Copy, PartialEq, Eq, Hash)]
pub struct CqlTime {
    pub nanoseconds: i64,
}

/// A point in time, in milliseconds from the start of 1970-01-01 UTC.
#[derive(Debug, Clone, Copy, PartialEq, Eq, Hash)]
pub struct CqlTimestamp {
    pub millis_since_epoch: i64,
}

/// An internet address: the four bytes of an IPv4 address or the sixteen of
/// an IPv6 address, in network order.
#[derive(Debug, Clone, Copy, PartialEq, Eq, Hash)]
pub enum CqlInet {
    V4([u8; 4]),
    V6([u8; 16]),
}

impl View for CqlInet {
    type V = Seq<u8>;

    open spec fn view(&self) -> Seq<u8> {
        match self {
            CqlInet::V4(a) => a@,
            CqlInet::V6(a) => a@,
        }
    }
}

/// A decoded value.
#[derive(Debug, PartialEq, Eq, Hash)]
pub enum CQLValue {
    Ascii(String),
    Int(i32),
    BigInt(i64),
    Boolean(bool),
    Counter(u64),
    SmallInt(i16),
    TinyInt(i8),
    Date(CqlDate),
    Time(CqlTime),
    Timestamp(CqlTimestamp),
    Text(String),
    Inet(CqlInet),
    List(Vec<CQLValue>),
    CqlMap(Vec<(CQLValue, CQLValue)>),
    CqlSet(Vec<CQLValue>),
    /// The fields stand in the order in which the type declares them.
    UserDefinedType { keyspace: String, udt_name: String, fields: Vec<(String, Option<CQLValue>)> },
    Tuple(Vec<Option<CQLValue>>),
}

impl CQLValue {
    pub fn as_ascii(&self) -> (r: Option<&String>)
        ensures
            r == (match self {
                CQLValue::Ascii(s) => Some(s),
                _ => None,
            }),
    {
        match self {
            CQLValue::Ascii(s) => Some(s),
            _ => None,
        }
    }

    pub fn as_int(&self) -> (r: Option<i32>)
        ensures
            r == (match self {
                CQLValue::Int(i) => Some(*i),
                _ => None,
            }),
    {
        match self {
            CQLValue::Int(i) => Some(*i),
            _ => None,
        }
    }

    pub fn as_bigint(&self) -> (r: Option<i64>)
        ensures
            r == (match self {
                CQLValue::BigInt(i) => Some(*i),
                _ => None,
            }),
    {
        match self {
            CQLValue::BigInt(i) => Some(*i),
            _ => None,
        }
    }

    pub fn as_boolean(&self) -> (r: Option<bool>)
        ensures
            r == (match self {
                CQLValue::Boolean(b) => Some(*b),
                _ => None,
            }),
    {
        match self {
            CQLValue::Boolean(b) => Some(*b),
            _ => None,
        }
    }

    pub fn as_counter(&self) -> (r: Option<u64>)
        ensures
            r == (match self {
                CQLValue::Counter(c) => Some(*c),
                _ => None,
            }),
    {
        match self {
            CQLValue::Counter(c) => Some(*c),
            _ => None,
        }
    }

    pub fn as_smallint(&self) -> (r: Option<i16>)
        ensures
            r == (match self {
                CQLValue::SmallInt(i) => Some(*i),
                _ => None,
            }),
    {
        match self {
            CQLValue::SmallInt(i) => Some(*i),
            _ => None,
        }
    }

    pub fn as_tinyint(&self) -> (r: Option<i8>)
        ensures
            r == (match self {
                CQLValue::TinyInt(i) => Some(*i),
                _ => None,
            }),
    {
        match self {
            CQLValue::TinyInt(i) => Some(*i),
            _ => None,
        }
    }

    pub fn as_date(&self) -> (r: Option<CqlDate>)
        ensures
            r == (match self {
                CQLValue::Date(d) => Some(*d),
                _ => None,
            }),
    {
        match self {
            CQLValue::Date(d) => Some(*d),
            _ => None,
        }
    }

    pub fn as_time(&self) -> (r: Option<CqlTime>)
        ensures
            r == (match self {
                CQLValue::Time(t) => Some(*t),
                _ => None,
            }),
    {
        match self {
            CQLValue::Time(t) => Some(*t),
            _ => None,
        }
    }

    pub fn as_timestamp(&self) -> (r: Option<CqlTimestamp>)
        ensures
            r == (match self {
                CQLValue::Timestamp(t) => Some(*t),
                _ => None,
            }),
    {
        match self {
            CQLValue::Timestamp(t) => Some(*t),
            _ => None,
        }
    }

    pub fn as_text(&self) -> (r: Option<&String>)
        ensures
            r == (match self {
                CQLValue::Text(s) => Some(s),
                _ => None,
            }),
    {
        match self {
            CQLValue::Text(s) => Some(s),
            _ => None,
        }
    }

    /// The text of an ascii or a text value.
    pub fn into_string(self) -> (r: Option<String>)
        ensures
            r == (match self {
                CQLValue::Ascii(s) => Some(s),
                CQLValue::Text(s) => Some(s),
                _ => None,
            }),
    {
        match self {
            CQLValue::Ascii(s) => Some(s),
            CQLValue::Text(s) => Some(s),
            _ => None,
        }
    }

    pub fn as_inet(&self) -> (r: Option<CqlInet>)
        ensures
            r == (match self {
                CQLValue::Inet(a) => Some(*a),
                _ => None,
            }),
    {
        match self {
            CQLValue::Inet(a) => Some(*a),
            _ => None,
        }
    }

    pub fn as_list(&self) -> (r: Option<&Vec<CQLValue>>)
        ensures
            r == (match self {
                CQLValue::List(values) => Some(values),
                _ => None,
            }),
    {
        match self {
            CQLValue::List(values) => Some(values),
            _ => None,
        }
    }

    pub fn as_set(&self) -> (r: Option<&Vec<CQLValue>>)
        ensures
            r == (match self {
                CQLValue::CqlSet(values) => Some(values),
                _ => None,
            }),
    {
        match self {
            CQLValue::CqlSet(values) => Some(values),
            _ => None,
        }
    }

    /// The elements of a list or of a set.
    pub fn into_vec(self) -> (r: Option<Vec<CQLValue>>)
        ensures
            r == (match self {
                CQLValue::List(values) => Some(values),
                CQLValue::CqlSet(values) => Some(values),
                _ => None,
            }),
    {
        match self {
            CQLValue::List(values) => Some(values),
            CQLValue::CqlSet(values) => Some(values),
            _ => None,
        }
    }

    /// The entries of a map.
    pub fn into_pair_vec(self) -> (r: Option<Vec<(CQLValue, CQLValue)>>)
        ensures
            r == (match self {
                CQLValue::CqlMap(entries) => Some(entries),
                _ => None,
            }),
    {
        match self {
            CQLValue::CqlMap(entries) => Some(entries),
            _ => None,
        }
    }
}

/// What `CQLValue` stands for in contracts.
pub enum CQLValueView {
    Ascii(Seq<char>),
    Int(i32),
    BigInt(i64),
    Boolean(bool),
    Counter(u64),
    SmallInt(i16),
    TinyInt(i8),
    Date(CqlDate),
    Time(CqlTime),
    Timestamp(CqlTimestamp),
    Text(Seq<char>),
    Inet(Seq<u8>),
    List(Seq<CQLValueView>),
    CqlMap(Seq<(CQLValueView, CQLValueView)>),
    CqlSet(Seq<CQLValueView>),
    UserDefinedType {
        keyspace: Seq<char>,
        udt_name: Seq<char>,
        fields: Seq<(Seq<char>, Option<CQLValueView>)>,
    },
    Tuple(Seq<Option<CQLValueView>>),
}

/// The view of a value.
pub open spec fn value_view(v: CQLValue) -> CQLValueView
    decreases v,
{
    match v {
        CQLValue::Ascii(s) => CQLValueView::Ascii(s@),
        CQLValue::Int(i) => CQLValueView::Int(i),
        CQLValue::BigInt(i) => CQLValueView::BigInt(i),
        CQLValue::Boolean(b) => CQLValueView::Boolean(b),
        CQLValue::Counter(c) => CQLValueView::Counter(c),
        CQLValue::SmallInt(i) => CQLValueView::SmallInt(i),
        CQLValue::TinyInt(i) => CQLValueView::TinyInt(i),
        CQLValue::Date(d) => CQLValueView::Date(d),
        CQLValue::Time(t) => CQLValueView::Time(t),
        CQLValue::Timestamp(t) => CQLValueView::Timestamp(t),
        CQLValue::Text(s) => CQLValueView::Text(s@),
        CQLValue::Inet(a) => CQLValueView::Inet(a@),
        CQLValue::List(vs) => CQLValueView::List(
            Seq::new(
                vs@.len(),
                |i: int|
                    if 0 <= i < vs@.len() {
                        value_view(vs@[i])
                    } else {
                        CQLValueView::Boolean(false)
                    },
            ),
        ),
        CQLValue::CqlMap(es) => CQLValueView::CqlMap(
            Seq::new(
                es@.len(),
                |i: int|
                    if 0 <= i < es@.len() {
                        (value_view(es@[i].0), value_view(es@[i].1))
                    } else {
                        (CQLValueView::Boolean(false), CQLValueView::Boolean(false))
                    },
            ),
        ),
        CQLValue::CqlSet(vs) => CQLValueView::CqlSet(
            Seq::new(
                vs@.len(),
                |i: int|
                    if 0 <= i < vs@.len() {
                        value_view(vs@[i])
                    } else {
                        CQLValueView::Boolean(false)
                    },
            ),
        ),
        CQLValue::UserDefinedType { keyspace, udt_name, fields } => CQLValueView::UserDefinedType {
            keyspace: keyspace@,
            udt_name: udt_name@,
            fields: Seq::new(
                fields@.len(),
                |i: int|
                    if 0 <= i < fields@.len() {
                        (
                            fields@[i].0@,
                            match fields@[i].1 {
                                Some(v) => Some(value_view(v)),
                                None => None,
                            },
                        )
                    } else {
                        (Seq::empty(), None)
                    },
            ),
        },
        CQLValue::Tuple(ms) => CQLValueView::Tuple(
            Seq::new(
                ms@.len(),
                |i: int|
                    if 0 <= i < ms@.len() {
                        match ms@[i] {
                            Some(v) => Some(value_view(v)),
                            None => None,
                        }
                    } else {
                        None
                    },
            ),
        ),
    }
}

impl View for CQLValue {
    type V = CQLValueView;

    open spec fn view(&self) -> CQLValueView {
        value_view(*self)
    }
}

/// The view of a value that may be absent.
pub open spec fn opt_value_view(v: Option<CQLValue>) -> Option<CQLValueView> {
    match v {
        Some(v) => Some(v@),
        None => None,
    }
}

/// The views of a sequence of values, in their order.
pub open spec fn values_view(values: Seq<CQLValue>) -> Seq<CQLValueView> {
    Seq::new(values.len(), |i: int| values[i]@)
}

/// The views of the entries of a map, in their order.
pub open spec fn entries_view(entries: Seq<(CQLValue, CQLValue)>) -> Seq<
    (CQLValueView, CQLValueView),
> {
    Seq::new(entries.len(), |i: int| (entries[i].0@, entries[i].1@))
}

/// The views of the fields of a value of a user-defined type, in their
/// order.
pub open spec fn udt_fields_view(fields: Seq<(String, Option<CQLValue>)>) -> Seq<
    (Seq<char>, Option<CQLValueView>),
> {
    Seq::new(fields.len(), |i: int| (fields[i].0@, opt_value_view(fields[i].1)))
}

/// The views of a sequence of values that may be absent, in their order.
pub open spec fn opt_values_view(values: Seq<Option<CQLValue>>) -> Seq<Option<CQLValueView>> {
    Seq::new(values.len(), |i: int| opt_value_view(values[i]))
}

/// A value that is built from others is viewed part by part.
pub proof fn lemma_value_view(v: CQLValue)
    ensures
        v matches CQLValue::List(vs) ==> v@ == CQLValueView::List(values_view(vs@)),
        v matches CQLValue::CqlSet(vs) ==> v@ == CQLValueView::CqlSet(values_view(vs@)),
        v matches CQLValue::CqlMap(es) ==> v@ == CQLValueView::CqlMap(entries_view(es@)),
        v matches CQLValue::UserDefinedType { keyspace, udt_name, fields } ==> v@
            == (CQLValueView::UserDefinedType {
            keyspace: keyspace@,
            udt_name: udt_name@,
            fields: udt_fields_view(fields@),
        }),
        v matches CQLValue::Tuple(ms) ==> v@ == CQLValueView::Tuple(opt_values_view(ms@)),
{
    match v {
        CQLValue::List(vs) => {
            assert(v@->List_0 =~= values_view(vs@));
        },
        CQLValue::CqlSet(vs) => {
            assert(v@->CqlSet_0 =~= values_view(vs@));
        },
        CQLValue::CqlMap(es) => {
            assert(v@->CqlMap_0 =~= entries_view(es@));
        },
        CQLValue::UserDefinedType { keyspace, udt_name, fields } => {
            assert(v@->fields =~= udt_fields_view(fields@));
        },
        CQLValue::Tuple(ms) => {
            assert(v@->Tuple_0 =~= opt_values_view(ms@));
        },
        _ => {},
    }
}

/// Bytes below `0x80` are UTF-8: each is a character by itself.
pub proof fn lemma_ascii_is_utf8(s: Seq<u8>)
    requires
        all_ascii(s),
    ensures
        valid_utf8(s),
{
    assert(s.subrange(0, 0) =~= Seq::<u8>::empty());
    vstd::utf8::partial_valid_utf8_extend_ascii_block(s, 0, s.len() as int);
    assert(s.subrange(0, s.len() as int) =~= s);
}

/// Whether every byte of the slice is below `0x80`.
fn is_ascii(buf: &[u8]) -> (r: bool)
    ensures
        r == all_ascii(buf@),
{
    let mut i: usize = 0;
    while i < buf.len()
        invariant
            i <= buf@.len(),
            forall|j: int| 0 <= j < i ==> buf@[j] < 0x80,
        decreases buf@.len() - i,
    {
        if buf[i] >= 0x80 {
            return false;
        }
        i += 1;
    }
    true
}

/// Takes the whole payload as text.
fn deser_text(buf: &mut &[u8]) -> (r: StdResult<String, ParseError>)
    ensures
        r matches Ok(text) ==> valid_utf8(old(buf)@) && text@ == decode_utf8(old(buf)@)
            && final(buf)@ == Seq::<u8>::empty(),
        r matches Err(e) ==> !valid_utf8(old(buf)@) && e == ParseError::BadData(
            BadDataReason::InvalidUtf8,
        ),
        is_tail(final(buf)@, old(buf)@),
{
    match core::str::from_utf8(*buf) {
        Ok(text) => {
            proof {
                vstd::utf8::encode_utf8_decode_utf8(text@);
            }
            let len: usize = buf.len();
            advance(buf, len);
            assert(buf@ =~= Seq::<u8>::empty());
            Ok(text.to_owned())
        },
        Err(_) => Err(ParseError::BadData(BadDataReason::InvalidUtf8)),
    }
}

/// Accepts a payload of which nothing is left.
fn expect_end(buf: &[u8]) -> (r: StdResult<(), ParseError>)
    ensures
        r is Ok <==> buf@.len() == 0,
        r matches Err(e) ==> e == ParseError::BadData(
            BadDataReason::TrailingBytes { left: buf@.len() as usize },
        ),
{
    if buf.len() != 0 {
        return Err(ParseError::BadData(BadDataReason::TrailingBytes { left: buf.len() }));
    }
    Ok(())
}

/// Accepts a payload of exactly `expected` bytes.
fn expect_len(buf: &[u8], expected: usize) -> (r: StdResult<(), ParseError>)
    ensures
        r is Ok <==> buf@.len() == expected,
        r matches Err(e) ==> e == ParseError::BadData(
            BadDataReason::WrongLength { expected, actual: buf@.len() as usize },
        ),
{
    if buf.len() != expected {
        return Err(
            ParseError::BadData(BadDataReason::WrongLength { expected, actual: buf.len() }),
        );
    }
    Ok(())
}

/// Decodes `count` elements of a list or a set whose elements have type
/// `typ`.
pub fn deser_elems(typ: &ColumnType, buf: &mut &[u8], count: u32) -> (r: StdResult<
    Vec<CQLValue>,
    ParseError,
>)
    ensures
        (match r {
            Ok(values) => Ok((values_view(values@), final(buf)@)),
            Err(e) => Err(e),
        }) == parse_elems(typ@, old(buf)@, count as nat),
        is_tail(final(buf)@, old(buf)@),
    decreases typ, 2nat, count,
{
    let mut values: Vec<CQLValue> = Vec::new();
    let mut i: u32 = 0;
    while i < count
        invariant
            i <= count,
            is_tail(buf@, old(buf)@),
            parse_elems(typ@, old(buf)@, count as nat) == prepend(
                values_view(values@),
                parse_elems(typ@, buf@, (count - i) as nat),
            ),
        decreases count - i,
    {
        let ghost done = values_view(values@);
        let mut payload = read_bytes(buf)?;
        let value = deser_cql_value(typ, &mut payload)?;
        proof {
            assert(done + seq![value@] =~= values_view(values@.push(value)));
            lemma_prepend_twice(done, seq![value@], parse_elems(typ@, buf@, (count - i - 1) as nat));
        }
        values.push(value);
        i += 1;
    }
    proof {
        assert(values_view(values@) + Seq::empty() =~= values_view(values@));
    }
    Ok(values)
}

/// Decodes `count` entries of a map of type `map_type`.
pub fn deser_entries(map_type: &ColumnType, buf: &mut &[u8], count: u32) -> (r: StdResult<
    Vec<(CQLValue, CQLValue)>,
    ParseError,
>)
    ensures
        (match r {
            Ok(entries) => Ok((entries_view(entries@), final(buf)@)),
            Err(e) => Err(e),
        }) == parse_entries(map_type@, old(buf)@, count as nat),
        is_tail(final(buf)@, old(buf)@),
    decreases map_type, 0nat, count,
{
    let mut entries: Vec<(CQLValue, CQLValue)> = Vec::new();
    match map_type {
        ColumnType::CqlMap(key_type, value_type) => {
            let mut i: u32 = 0;
            while i < count
                invariant
                    i <= count,
                    is_tail(buf@, old(buf)@),
                    map_type == ColumnType::CqlMap(*key_type, *value_type),
                    parse_entries(map_type@, old(buf)@, count as nat) == prepend(
                        entries_view(entries@),
                        parse_entries(map_type@, buf@, (count - i) as nat),
                    ),
                decreases count - i,
            {
                let ghost done = entries_view(entries@);
                let mut payload = read_bytes(buf)?;
                let key = deser_cql_value(key_type, &mut payload)?;
                payload = read_bytes(buf)?;
                let value = deser_cql_value(value_type, &mut payload)?;
                proof {
                    assert(done + seq![(key@, value@)] =~= entries_view(entries@.push((key, value))));
                    lemma_prepend_twice(
                        done,
                        seq![(key@, value@)],
                        parse_entries(map_type@, buf@, (count - i - 1) as nat),
                    );
                }
                entries.push((key, value));
                i += 1;
            }
            proof {
                assert(entries_view(entries@) + Seq::empty() =~= entries_view(entries@));
            }
        },
        _ => {
            assert(entries_view(entries@) =~= Seq::empty());
        },
    }
    Ok(entries)
}

/// Decodes one optional `[bytes]` that holds a value of type `typ`.
pub fn deser_opt_value(typ: &ColumnType, buf: &mut &[u8]) -> (r: StdResult<
    Option<CQLValue>,
    ParseError,
>)
    ensures
        (match r {
            Ok(value) => Ok((opt_value_view(value), final(buf)@)),
            Err(e) => Err(e),
        }) == parse_opt_value(typ@, old(buf)@),
        is_tail(final(buf)@, old(buf)@),
    decreases typ, 2nat, 0nat,
{
    match read_bytes_opt(buf)? {
        None => Ok(None),
        Some(payload) => {
            let mut payload = payload;
            Ok(Some(deser_cql_value(typ, &mut payload)?))
        },
    }
}

/// Decodes the fields of a value of a user-defined type whose fields are
/// `field_types`.
pub fn deser_udt_fields(field_types: &Vec<(String, ColumnType)>, buf: &mut &[u8]) -> (r: StdResult<
    Vec<(String, Option<CQLValue>)>,
    ParseError,
>)
    ensures
        (match r {
            Ok(fields) => Ok((udt_fields_view(fields@), final(buf)@)),
            Err(e) => Err(e),
        }) == parse_udt_fields(fields_view(field_types@), 0, old(buf)@),
        is_tail(final(buf)@, old(buf)@),
    decreases field_types, 0nat, 0nat,
{
    let ghost declared = fields_view(field_types@);
    let mut fields: Vec<(String, Option<CQLValue>)> = Vec::new();
    let mut i: usize = 0;
    while i < field_types.len()
        invariant
            i <= field_types@.len(),
            declared == fields_view(field_types@),
            is_tail(buf@, old(buf)@),
            parse_udt_fields(declared, 0, old(buf)@) == prepend(
                udt_fields_view(fields@),
                parse_udt_fields(declared, i as int, buf@),
            ),
        decreases field_types@.len() - i,
    {
        let ghost done = udt_fields_view(fields@);
        let field = &field_types[i];
        let value = deser_opt_value(&field.1, buf)?;
        let name = field.0.clone();
        proof {
            assert(done + seq![(name@, opt_value_view(value))] =~= udt_fields_view(
                fields@.push((name, value)),
            ));
            lemma_prepend_twice(
                done,
                seq![(name@, opt_value_view(value))],
                parse_udt_fields(declared, i + 1, buf@),
            );
        }
        fields.push((name, value));
        i += 1;
    }
    proof {
        assert(udt_fields_view(fields@) + Seq::empty() =~= udt_fields_view(fields@));
    }
    Ok(fields)
}

/// Decodes the members of a tuple whose members have the types `types`.
pub fn deser_members(types: &Vec<ColumnType>, buf: &mut &[u8]) -> (r: StdResult<
    Vec<Option<CQLValue>>,
    ParseError,
>)
    ensures
        (match r {
            Ok(members) => Ok((opt_values_view(members@), final(buf)@)),
            Err(e) => Err(e),
        }) == parse_members(types_view(types@), 0, old(buf)@),
        is_tail(final(buf)@, old(buf)@),
    decreases types, 0nat, 0nat,
{
    let ghost declared = types_view(types@);
    let mut members: Vec<Option<CQLValue>> = Vec::new();
    let mut i: usize = 0;
    while i < types.len()
        invariant
            i <= types@.len(),
            declared == types_view(types@),
            is_tail(buf@, old(buf)@),
            parse_members(declared, 0, old(buf)@) == prepend(
                opt_values_view(members@),
                parse_members(declared, i as int, buf@),
            ),
        decreases types@.len() - i,
    {
        let ghost done = opt_values_view(members@);
        let value = deser_opt_value(&types[i], buf)?;
        proof {
            assert(done + seq![opt_value_view(value)] =~= opt_values_view(members@.push(value)));
            lemma_prepend_twice(
                done,
                seq![opt_value_view(value)],
                parse_members(declared, i + 1, buf@),
            );
        }
        members.push(value);
        i += 1;
    }
    proof {
        assert(opt_values_view(members@) + Seq::empty() =~= opt_values_view(members@));
    }
    Ok(members)
}

/// Decodes a value of type `typ` from a payload. The cursor holds the
/// payload and nothing else, and the value takes all of it: a payload with
/// bytes after the value is refused.
pub fn deser_cql_value(typ: &ColumnType, buf: &mut &[u8]) -> (r: StdResult<CQLValue, ParseError>)
    ensures
        outcome_view(r, final(buf)@) == parse_value(typ@, old(buf)@),
        r is Ok ==> final(buf)@.len() == 0,
        is_tail(final(buf)@, old(buf)@),
    decreases typ, 1nat, 0nat,
{
    match typ {
        ColumnType::Ascii => {
            if !is_ascii(*buf) {
                return Err(ParseError::BadData(BadDataReason::NotAscii));
            }
            proof {
                lemma_ascii_is_utf8(buf@);
            }
            Ok(CQLValue::Ascii(deser_text(buf)?))
        },
        ColumnType::Int => {
            expect_len(*buf, 4)?;
            let v: i32 = be_read_i32(*buf);
            advance(buf, 4);
            assert(buf@ =~= Seq::<u8>::empty());
            Ok(CQLValue::Int(v))
        },
        ColumnType::BigInt => {
            expect_len(*buf, 8)?;
            let v: i64 = be_read_i64(*buf);
            advance(buf, 8);
            assert(buf@ =~= Seq::<u8>::empty());
            Ok(CQLValue::BigInt(v))
        },
        ColumnType::Boolean => {
            expect_len(*buf, 1)?;
            let b: u8 = buf[0];
            advance(buf, 1);
            assert(buf@ =~= Seq::<u8>::empty());
            Ok(CQLValue::Boolean(0 < b && b < 0x80))
        },
        ColumnType::Counter => {
            expect_len(*buf, 8)?;
            let v: u64 = be_read_u64(*buf);
            advance(buf, 8);
            assert(buf@ =~= Seq::<u8>::empty());
            Ok(CQLValue::Counter(v))
        },
        ColumnType::SmallInt => {
            expect_len(*buf, 2)?;
            let v: i16 = be_read_i16(*buf);
            advance(buf, 2);
            assert(buf@ =~= Seq::<u8>::empty());
            Ok(CQLValue::SmallInt(v))
        },
        ColumnType::TinyInt => {
            expect_len(*buf, 1)?;
            let b: u8 = buf[0];
            advance(buf, 1);
            assert(buf@ =~= Seq::<u8>::empty());
            let v: i8 = if b < 0x80 {
                b as i8
            } else {
                (b as i16 - 0x100) as i8
            };
            Ok(CQLValue::TinyInt(v))
        },
        ColumnType::Text => Ok(CQLValue::Text(deser_text(buf)?)),
        ColumnType::Inet => {
            let len: usize = buf.len();
            if len == 4 {
                let a: [u8; 4] = [buf[0], buf[1], buf[2], buf[3]];
                assert(a@ =~= buf@);
                advance(buf, 4);
                assert(buf@ =~= Seq::<u8>::empty());
                Ok(CQLValue::Inet(CqlInet::V4(a)))
            } else if len == 16 {
                let a: [u8; 16] = [
                    buf[0],
                    buf[1],
                    buf[2],
                    buf[3],
                    buf[4],
                    buf[5],
                    buf[6],
                    buf[7],
                    buf[8],
                    buf[9],
                    buf[10],
                    buf[11],
                    buf[12],
                    buf[13],
                    buf[14],
                    buf[15],
                ];
                assert(a@ =~= buf@);
                advance(buf, 16);
                assert(buf@ =~= Seq::<u8>::empty());
                Ok(CQLValue::Inet(CqlInet::V6(a)))
            } else {
                Err(ParseError::BadData(BadDataReason::InvalidInetLength { actual: len }))
            }
        },
        ColumnType::Date => {
            expect_len(*buf, 4)?;
            let days: i32 = be_read_i32(*buf);
            advance(buf, 4);
            assert(buf@ =~= Seq::<u8>::empty());
            Ok(CQLValue::Date(CqlDate { days_since_epoch: days }))
        },
        ColumnType::Time => {
            expect_len(*buf, 8)?;
            let nanoseconds: i64 = be_read_i64(*buf);
            advance(buf, 8);
            assert(buf@ =~= Seq::<u8>::empty());
            Ok(CQLValue::Time(CqlTime { nanoseconds }))
        },
        ColumnType::Timestamp => {
            expect_len(*buf, 8)?;
            let millis: i64 = be_read_i64(*buf);
            advance(buf, 8);
            assert(buf@ =~= Seq::<u8>::empty());
            Ok(CQLValue::Timestamp(CqlTimestamp { millis_since_epoch: millis }))
        },
        ColumnType::List(elem_type) => {
            let len: u32 = read_int_length(buf)?;
            let value = CQLValue::List(deser_elems(elem_type, buf, len)?);
            expect_end(*buf)?;
            proof {
                lemma_value_view(value);
                assert(buf@ =~= Seq::<u8>::empty());
            }
            Ok(value)
        },
        ColumnType::CqlMap(_, _) => {
            let len: u32 = read_int_length(buf)?;
            let value = CQLValue::CqlMap(deser_entries(typ, buf, len)?);
            expect_end(*buf)?;
            proof {
                lemma_value_view(value);
                assert(buf@ =~= Seq::<u8>::empty());
            }
            Ok(value)
        },
        ColumnType::CqlSet(elem_type) => {
            let len: u32 = read_int_length(buf)?;
            let value = CQLValue::CqlSet(deser_elems(elem_type, buf, len)?);
            expect_end(*buf)?;
            proof {
                lemma_value_view(value);
                assert(buf@ =~= Seq::<u8>::empty());
            }
            Ok(value)
        },
        ColumnType::UserDefinedType { udt_name, keyspace, field_types } => {
            proof {
                lemma_type_view(*typ);
            }
            let fields = deser_udt_fields(field_types, buf)?;
            expect_end(*buf)?;
            let value = CQLValue::UserDefinedType {
                keyspace: keyspace.clone(),
                udt_name: udt_name.clone(),
                fields,
            };
            proof {
                lemma_value_view(value);
                assert(buf@ =~= Seq::<u8>::empty());
            }
            Ok(value)
        },
        ColumnType::Tuple(types) => {
            proof {
                lemma_type_view(*typ);
            }
            let value = CQLValue::Tuple(deser_members(types, buf)?);
            expect_end(*buf)?;
            proof {
                lemma_value_view(value);
                assert(buf@ =~= Seq::<u8>::empty());
            }
            Ok(value)
        },
    }
}

// ---------------------------------------------------------------------------
// Metadata, rows and results
// ---------------------------------------------------------------------------
/// The description of a column: where it belongs, its name and its type.
#[derive(Debug, PartialEq, Eq)]
pub struct ColumnSpec {
    pub table_spec: TableSpec,
    pub name: String,
    pub typ: ColumnType,
}

/// What `ColumnSpec` stands for in contracts.
pub struct ColumnSpecView {
    pub table_spec: TableSpecView,
    pub name: Seq<char>,
    pub typ: ColumnTypeView,
}

impl View for ColumnSpec {
    type V = ColumnSpecView;

    open spec fn view(&self) -> ColumnSpecView {
        ColumnSpecView { table_spec: self.table_spec@, name: self.name@, typ: self.typ@ }
    }
}

impl Clone for ColumnSpec {
    fn clone(&self) -> (r: Self)
        ensures
            r@ == self@,
    {
        ColumnSpec {
            table_spec: self.table_spec.clone(),
            name: self.name.clone(),
            typ: self.typ.clone(),
        }
    }
}

/// The views of a sequence of column descriptions, in their order.
pub open spec fn col_specs_view(col_specs: Seq<ColumnSpec>) -> Seq<ColumnSpecView> {
    Seq::new(col_specs.len(), |i: int| col_specs[i]@)
}

/// The view of a keyspace and table that may be absent.
pub open spec fn opt_table_spec_view(table_spec: Option<TableSpec>) -> Option<TableSpecView> {
    match table_spec {
        Some(t) => Some(t@),
        None => None,
    }
}

/// The bytes of a buffer that may be absent.
pub open spec fn opt_bytes_view(b: Option<Bytes>) -> Option<Seq<u8>> {
    match b {
        Some(b) => Some(bytes_of(b)),
        None => None,
    }
}

/// The metadata of a result: how many columns it has, where the next page
/// starts, and the description of each column unless the server left them
/// out.
#[derive(Debug, Default)]
pub struct ResultMetadata {
    pub col_count: usize,
    pub paging_state: Option<Bytes>,
    pub col_specs: Vec<ColumnSpec>,
}

/// What `ResultMetadata` stands for in contracts.
pub struct ResultMetadataView {
    pub col_count: usize,
    pub paging_state: Option<Seq<u8>>,
    pub col_specs: Seq<ColumnSpecView>,
}

impl View for ResultMetadata {
    type V = ResultMetadataView;

    open spec fn view(&self) -> ResultMetadataView {
        ResultMetadataView {
            col_count: self.col_count,
            paging_state: opt_bytes_view(self.paging_state),
            col_specs: col_specs_view(self.col_specs@),
        }
    }
}

/// The metadata of the parameters of a prepared statement.
#[derive(Debug, Clone)]
pub struct PreparedMetadata {
    pub col_count: usize,
    /// The positions, among the parameters, of those that form the
    /// partition key, in the order in which the server sent them.
    pub pk_indexes: Vec<u16>,
    pub col_specs: Vec<ColumnSpec>,
}

/// What `PreparedMetadata` stands for in contracts.
pub struct PreparedMetadataView {
    pub col_count: usize,
    pub pk_indexes: Seq<u16>,
    pub col_specs: Seq<ColumnSpecView>,
}

impl View for PreparedMetadata {
    type V = PreparedMetadataView;

    open spec fn view(&self) -> PreparedMetadataView {
        PreparedMetadataView {
            col_count: self.col_count,
            pk_indexes: self.pk_indexes@,
            col_specs: col_specs_view(self.col_specs@),
        }
    }
}

/// One row of a result: a value, or none, for each column.
#[derive(Debug, Default)]
pub struct Row {
    pub columns: Vec<Option<CQLValue>>,
}

impl View for Row {
    type V = Seq<Option<CQLValueView>>;

    open spec fn view(&self) -> Seq<Option<CQLValueView>> {
        opt_values_view(self.columns@)
    }
}

/// The views of a sequence of rows, in their order.
pub open spec fn rows_view(rows: Seq<Row>) -> Seq<Seq<Option<CQLValueView>>> {
    Seq::new(rows.len(), |i: int| rows[i]@)
}

/// The rows of a result, with their metadata.
#[derive(Debug, Default)]
pub struct Rows {
    pub metadata: ResultMetadata,
    pub rows_count: usize,
    pub rows: Vec<Row>,
}

/// What `Rows` stands for in contracts.
pub struct RowsView {
    pub metadata: ResultMetadataView,
    pub rows_count: usize,
    pub rows: Seq<Seq<Option<CQLValueView>>>,
}

impl View for Rows {
    type V = RowsView;

    open spec fn view(&self) -> RowsView {
        RowsView {
            metadata: self.metadata@,
            rows_count: self.rows_count,
            rows: rows_view(self.rows@),
        }
    }
}

impl Rows {
    /// The metadata describes as many columns as it announces, there are as
    /// many rows as announced, and every row has one entry per column.
    pub open spec fn well_formed(&self) -> bool {
        &&& self.metadata.col_count == self.metadata.col_specs@.len()
        &&& self.rows_count == self.rows@.len()
        &&& forall|i: int|
            0 <= i < self.rows@.len() ==> (#[trigger] self.rows@[i]).columns@.len()
                == self.metadata.col_count
    }
}

/// The result of a `USE` statement. The keyspace's name is not kept.
#[derive(Debug)]
pub struct SetKeyspace {}

/// The result of a statement that changed the schema. What changed is not
/// kept.
#[derive(Debug)]
pub struct SchemaChange {}

/// The result of a PREPARE request.
#[derive(Debug)]
pub struct Prepared {
    /// The id that the server gave the statement. It has no meaning to the
    /// client and is compared byte by byte.
    pub id: Bytes,
    pub prepared_metadata: PreparedMetadata,
    pub result_metadata: ResultMetadata,
}

/// What `Prepared` stands for in contracts.
pub struct PreparedView {
    pub id: Seq<u8>,
    pub prepared_metadata: PreparedMetadataView,
    pub result_metadata: ResultMetadataView,
}

impl View for Prepared {
    type V = PreparedView;

    open spec fn view(&self) -> PreparedView {
        PreparedView {
            id: bytes_of(self.id),
            prepared_metadata: self.prepared_metadata@,
            result_metadata: self.result_metadata@,
        }
    }
}

/// The body of a RESULT frame.
#[derive(Debug)]
pub enum Result {
    Void,
    Rows(Rows),
    SetKeyspace(SetKeyspace),
    Prepared(Prepared),
    SchemaChange(SchemaChange),
}

/// What `Result` stands for in contracts.
pub enum ResultView {
    Void,
    Rows(RowsView),
    SetKeyspace,
    Prepared(PreparedView),
    SchemaChange,
}

impl View for Result {
    type V = ResultView;

    open spec fn view(&self) -> ResultView {
        match self {
            Result::Void => ResultView::Void,
            Result::Rows(rows) => ResultView::Rows(rows@),
            Result::SetKeyspace(_) => ResultView::SetKeyspace,
            Result::Prepared(prepared) => ResultView::Prepared(prepared@),
            Result::SchemaChange(_) => ResultView::SchemaChange,
        }
    }
}

/// Decodes a keyspace and a table.
pub fn deser_table_spec(buf: &mut &[u8]) -> (r: StdResult<TableSpec, ParseError>)
    ensures
        outcome_view(r, final(buf)@) == parse_table_spec(old(buf)@),
        is_tail(final(buf)@, old(buf)@),
{
    let ks_name = read_string(buf)?.to_owned();
    let table_name = read_string(buf)?.to_owned();
    Ok(TableSpec { ks_name, table_name })
}

/// Decodes the descriptions of `col_count` columns. Where
/// `global_table_spec` holds a keyspace and table, every column gets them
/// and none is read.
pub fn deser_col_specs(
    buf: &mut &[u8],
    global_table_spec: &Option<TableSpec>,
    col_count: usize,
) -> (r: StdResult<Vec<ColumnSpec>, ParseError>)
    ensures
        (match r {
            Ok(col_specs) => Ok((col_specs_view(col_specs@), final(buf)@)),
            Err(e) => Err(e),
        }) == parse_col_specs(
            old(buf)@,
            opt_table_spec_view(*global_table_spec),
            col_count as nat,
        ),
        r matches Ok(col_specs) ==> col_specs@.len() == col_count,
        is_tail(final(buf)@, old(buf)@),
{
    let ghost global = opt_table_spec_view(*global_table_spec);
    let mut col_specs: Vec<ColumnSpec> = Vec::new();
    let mut i: usize = 0;
    while i < col_count
        invariant
            i <= col_count,
            col_specs@.len() == i,
            global == opt_table_spec_view(*global_table_spec),
            is_tail(buf@, old(buf)@),
            parse_col_specs(old(buf)@, global, col_count as nat) == prepend(
                col_specs_view(col_specs@),
                parse_col_specs(buf@, global, (col_count - i) as nat),
            ),
        decreases col_count - i,
    {
        let ghost done = col_specs_view(col_specs@);
        proof {
            reveal(parse_col_spec);
        }
        let table_spec = match global_table_spec {
            Some(spec) => spec.clone(),
            None => deser_table_spec(buf)?,
        };
        let name = read_string(buf)?.to_owned();
        let typ = deser_type(buf)?;
        let col_spec = ColumnSpec { table_spec, name, typ };
        proof {
            assert(done + seq![col_spec@] =~= col_specs_view(col_specs@.push(col_spec)));
            lemma_prepend_twice(
                done,
                seq![col_spec@],
                parse_col_specs(buf@, global, (col_count - i - 1) as nat),
            );
        }
        col_specs.push(col_spec);
        i += 1;
    }
    proof {
        assert(col_specs_view(col_specs@) + Seq::empty() =~= col_specs_view(col_specs@));
    }
    Ok(col_specs)
}

/// Decodes the global keyspace and table where `flags` announce them.
fn deser_global_table_spec(buf: &mut &[u8], flags: i32) -> (r: StdResult<
    Option<TableSpec>,
    ParseError,
>)
    ensures
        (match r {
            Ok(table_spec) => Ok((opt_table_spec_view(table_spec), final(buf)@)),
            Err(e) => Err(e),
        }) == parse_global_table_spec(old(buf)@, flags),
        is_tail(final(buf)@, old(buf)@),
{
    if has_flag(flags, FLAG_GLOBAL_TABLES_SPEC) {
        Ok(Some(deser_table_spec(buf)?))
    } else {
        Ok(None)
    }
}

/// Decodes the metadata of a result.
pub fn deser_result_metadata(buf: &mut &[u8]) -> (r: StdResult<ResultMetadata, ParseError>)
    ensures
        outcome_view(r, final(buf)@) == parse_result_metadata(old(buf)@),
        r matches Ok(m) ==> m.col_specs@.len() == (if announces_no_metadata(old(buf)@) {
            0
        } else {
            m.col_count as int
        }),
        is_tail(final(buf)@, old(buf)@),
{
    let flags: i32 = read_int(buf)?;
    let col_count: usize = read_int_length(buf)? as usize;
    let paging_state = if has_flag(flags, FLAG_HAS_MORE_PAGES) {
        Some(bytes_from_vec(slice_to_vec(read_bytes(buf)?)))
    } else {
        None
    };
    if has_flag(flags, FLAG_NO_METADATA) {
        let metadata = ResultMetadata { col_count, paging_state, col_specs: Vec::new() };
        assert(col_specs_view(metadata.col_specs@) =~= Seq::empty());
        return Ok(metadata);
    }
    let global_table_spec = deser_global_table_spec(buf, flags)?;
    let col_specs = deser_col_specs(buf, &global_table_spec, col_count)?;
    Ok(ResultMetadata { col_count, paging_state, col_specs })
}

/// Decodes `count` partition-key indexes.
fn deser_pk_indexes(buf: &mut &[u8], count: u32) -> (r: StdResult<Vec<u16>, ParseError>)
    ensures
        outcome_view(r, final(buf)@) == parse_shorts(old(buf)@, count as nat),
        is_tail(final(buf)@, old(buf)@),
{
    let mut pk_indexes: Vec<u16> = Vec::new();
    let mut i: u32 = 0;
    while i < count
        invariant
            i <= count,
            is_tail(buf@, old(buf)@),
            parse_shorts(old(buf)@, count as nat) == prepend(
                pk_indexes@,
                parse_shorts(buf@, (count - i) as nat),
            ),
        decreases count - i,
    {
        let ghost done = pk_indexes@;
        let index: u16 = read_short(buf)?;
        proof {
            assert(done + seq![index] =~= done.push(index));
            lemma_prepend_twice(done, seq![index], parse_shorts(buf@, (count - i - 1) as nat));
        }
        pk_indexes.push(index);
        i += 1;
    }
    proof {
        assert(pk_indexes@ + Seq::empty() =~= pk_indexes@);
    }
    Ok(pk_indexes)
}

/// Decodes the metadata of the parameters of a prepared statement.
pub fn deser_prepared_metadata(buf: &mut &[u8]) -> (r: StdResult<PreparedMetadata, ParseError>)
    ensures
        outcome_view(r, final(buf)@) == parse_prepared_metadata(old(buf)@),
        r matches Ok(m) ==> m.col_specs@.len() == m.col_count,
        is_tail(final(buf)@, old(buf)@),
{
    let flags: i32 = read_int(buf)?;
    let col_count: usize = read_int_length(buf)? as usize;
    let pk_count: u32 = read_int_length(buf)?;
    let pk_indexes = deser_pk_indexes(buf, pk_count)?;
    let global_table_spec = deser_global_table_spec(buf, flags)?;
    let col_specs = deser_col_specs(buf, &global_table_spec, col_count)?;
    Ok(PreparedMetadata { col_count, pk_indexes, col_specs })
}

/// Decodes one row: for each column a cell that holds a value of the
/// column's type, or none.
pub fn deser_row(col_specs: &Vec<ColumnSpec>, buf: &mut &[u8]) -> (r: StdResult<Row, ParseError>)
    ensures
        outcome_view(r, final(buf)@) == parse_members(
            column_types(col_specs_view(col_specs@)),
            0,
            old(buf)@,
        ),
        r matches Ok(row) ==> row.columns@.len() == col_specs@.len(),
        is_tail(final(buf)@, old(buf)@),
{
    let ghost declared = column_types(col_specs_view(col_specs@));
    let mut columns: Vec<Option<CQLValue>> = Vec::new();
    let mut i: usize = 0;
    while i < col_specs.len()
        invariant
            i <= col_specs@.len(),
            columns@.len() == i,
            declared == column_types(col_specs_view(col_specs@)),
            is_tail(buf@, old(buf)@),
            parse_members(declared, 0, old(buf)@) == prepend(
                opt_values_view(columns@),
                parse_members(declared, i as int, buf@),
            ),
        decreases col_specs@.len() - i,
    {
        let ghost done = opt_values_view(columns@);
        let value = deser_opt_value(&col_specs[i].typ, buf)?;
        proof {
            assert(done + seq![opt_value_view(value)] =~= opt_values_view(columns@.push(value)));
            lemma_prepend_twice(
                done,
                seq![opt_value_view(value)],
                parse_members(declared, i + 1, buf@),
            );
        }
        columns.push(value);
        i += 1;
    }
    proof {
        assert(opt_values_view(columns@) + Seq::empty() =~= opt_values_view(columns@));
    }
    Ok(Row { columns })
}

/// Decodes the body of a Rows result.
#[verifier::loop_isolation(false)]
pub fn deser_rows(buf: &mut &[u8]) -> (r: StdResult<Rows, ParseError>)
    ensures
        outcome_view(r, final(buf)@) == parse_rows(old(buf)@),
        r matches Ok(rows) ==> rows.well_formed(),
        is_tail(final(buf)@, old(buf)@),
{
    let metadata = deser_result_metadata(buf)?;
    if metadata.col_count != metadata.col_specs.len() {
        return Err(
            ParseError::BadData(
                BadDataReason::MissingColumnSpecs {
                    col_count: metadata.col_count,
                    described: metadata.col_specs.len(),
                },
            ),
        );
    }
    let rows_count: u32 = read_int_length(buf)?;
    let ghost start = buf@;
    let ghost declared = column_types(metadata@.col_specs);
    let mut rows: Vec<Row> = Vec::new();
    let mut i: u32 = 0;
    while i < rows_count
        invariant
            i <= rows_count,
            rows@.len() == i,
            declared == column_types(col_specs_view(metadata.col_specs@)),
            metadata.col_count == metadata.col_specs@.len(),
            is_tail(buf@, start),
            forall|j: int|
                0 <= j < rows@.len() ==> (#[trigger] rows@[j]).columns@.len()
                    == metadata.col_count,
            parse_row_seq(declared, start, rows_count as nat) == prepend(
                rows_view(rows@),
                parse_row_seq(declared, buf@, (rows_count - i) as nat),
            ),
        decreases rows_count - i,
    {
        let ghost done = rows_view(rows@);
        let row = deser_row(&metadata.col_specs, buf)?;
        proof {
            assert(done + seq![row@] =~= rows_view(rows@.push(row)));
            lemma_prepend_twice(
                done,
                seq![row@],
                parse_row_seq(declared, buf@, (rows_count - i - 1) as nat),
            );
        }
        rows.push(row);
        i += 1;
    }
    proof {
        assert(rows_view(rows@) + Seq::empty() =~= rows_view(rows@));
    }
    Ok(Rows { metadata, rows_count: rows_count as usize, rows })
}

/// Decodes the body of a SetKeyspace result: the keyspace's name is read
/// and dropped.
pub fn deser_set_keyspace(buf: &mut &[u8]) -> (r: StdResult<SetKeyspace, ParseError>)
    ensures
        (match r {
            Ok(_) => Ok(((), final(buf)@)),
            Err(e) => Err(e),
        }) == parse_set_keyspace(old(buf)@),
        is_tail(final(buf)@, old(buf)@),
{
    let _ = read_string(buf)?;
    Ok(SetKeyspace {})
}

/// Decodes the body of a Prepared result.
pub fn deser_prepared(buf: &mut &[u8]) -> (r: StdResult<Prepared, ParseError>)
    ensures
        outcome_view(r, final(buf)@) == parse_prepared(old(buf)@),
        is_tail(final(buf)@, old(buf)@),
{
    let id = bytes_from_vec(slice_to_vec(read_short_bytes(buf)?));
    let prepared_metadata = deser_prepared_metadata(buf)?;
    let result_metadata = deser_result_metadata(buf)?;
    Ok(Prepared { id, prepared_metadata, result_metadata })
}

/// Takes the body of a SchemaChange result, whatever it holds.
pub fn deser_schema_change(buf: &mut &[u8]) -> (r: StdResult<SchemaChange, ParseError>)
    ensures
        r is Ok,
        final(buf)@ == Seq::<u8>::empty(),
        is_tail(final(buf)@, old(buf)@),
{
    let len: usize = buf.len();
    advance(buf, len);
    Ok(SchemaChange {})
}

/// Decodes the body of a RESULT frame.
pub fn deserialize(buf: &mut &[u8]) -> (r: StdResult<Result, ParseError>)
    ensures
        outcome_view(r, final(buf)@) == parse_result(old(buf)@),
        r matches Ok(Result::Rows(rows)) ==> rows.well_formed(),
        is_tail(final(buf)@, old(buf)@),
{
    let kind: i32 = read_int(buf)?;
    if kind == KIND_VOID {
        Ok(Result::Void)
    } else if kind == KIND_ROWS {
        Ok(Result::Rows(deser_rows(buf)?))
    } else if kind == KIND_SET_KEYSPACE {
        Ok(Result::SetKeyspace(deser_set_keyspace(buf)?))
    } else if kind == KIND_PREPARED {
        Ok(Result::Prepared(deser_prepared(buf)?))
    } else if kind == KIND_SCHEMA_CHANGE {
        Ok(Result::SchemaChange(deser_schema_change(buf)?))
    } else {
        Err(ParseError::BadData(BadDataReason::UnknownResultKind { kind }))
    }
}

} // verus!
