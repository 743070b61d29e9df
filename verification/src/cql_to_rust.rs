//! From decoded values to the types of an application, and back.
//!
//! A scalar of the application reads one value (`FromCQLVal`); a record
//! reads a row, column by column, in the order of its fields (`FromRow`),
//! and lists the values that stand for it in that same order (`ValueList`).
use crate::frame::frame_errors::EncodeError;
use crate::frame::frame_errors::ParseError;
use crate::frame::response::grammar::{
    encode_members, encode_opt_value, encode_value, fits_bytes, parse_members,
};
use crate::frame::response::result::{ColumnTypeView, CQLValue, CQLValueView, opt_value_view, Row};
use crate::frame::response::round_trip::{lemma_members_round_trip, members_fit};
use crate::frame::types::{encode_bytes_opt, encode_payloads};
use crate::frame::value::value_payload;
use vstd::prelude::*;

verus! {

/// Why a value could not be read as the type that was asked for.
#[derive(Debug, Clone, Copy, PartialEq, Eq)]
pub enum FromCQLValError {
    /// The value has another type.
    BadCQLType,
    /// There is no value where one is required.
    ValIsNull,
}

/// Why a row could not be read as the record that was asked for.
#[derive(Debug, Clone, Copy, PartialEq, Eq)]
pub enum FromRowError {
    /// The row has another number of columns than the record has fields.
    WrongRowSize { expected: usize, actual: usize },
    /// The column at `column_index` could not be read as its field.
    BadCQLVal { column_index: usize, reason: FromCQLValError },
}

/// A type of the application that one value stands for.
pub trait FromCQLVal: Sized + View {
    /// What a value reads as, or none where it has another type.
    spec fn decode_cql(value: CQLValueView) -> Option<Self::V>;

    /// The value that stands for `v`.
    spec fn cql_of(v: Self::V) -> CQLValueView;

    /// The value that stands for `v` reads as `v`.
    proof fn lemma_cql_round_trip(v: Self::V)
        ensures
            Self::decode_cql(Self::cql_of(v)) == Some(v),
    ;

    /// Reads a value.
    fn from_cql(value: CQLValue) -> (r: Result<Self, FromCQLValError>)
        ensures
            r matches Ok(x) ==> Self::decode_cql(value@) == Some(x@),
            r matches Err(e) ==> Self::decode_cql(value@) is None && e
                == FromCQLValError::BadCQLType,
    ;

    /// The value that stands for `self`.
    fn to_cql(&self) -> (value: CQLValue)
        ensures
            value@ == Self::cql_of(self@),
    ;
}

impl FromCQLVal for i32 {
    open spec fn decode_cql(value: CQLValueView) -> Option<i32> {
        match value {
            CQLValueView::Int(i) => Some(i),
            _ => None,
        }
    }

    open spec fn cql_of(v: i32) -> CQLValueView {
        CQLValueView::Int(v)
    }

    proof fn lemma_cql_round_trip(v: i32) {
    }

    fn from_cql(value: CQLValue) -> (r: Result<Self, FromCQLValError>) {
        match value.as_int() {
            Some(i) => Ok(i),
            None => Err(FromCQLValError::BadCQLType),
        }
    }

    fn to_cql(&self) -> (value: CQLValue) {
        CQLValue::Int(*self)
    }
}

impl FromCQLVal for String {
    open spec fn decode_cql(value: CQLValueView) -> Option<Seq<char>> {
        match value {
            CQLValueView::Ascii(s) => Some(s),
            CQLValueView::Text(s) => Some(s),
            _ => None,
        }
    }

    open spec fn cql_of(v: Seq<char>) -> CQLValueView {
        CQLValueView::Text(v)
    }

    proof fn lemma_cql_round_trip(v: Seq<char>) {
    }

    fn from_cql(value: CQLValue) -> (r: Result<Self, FromCQLValError>) {
        match value.into_string() {
            Some(s) => Ok(s),
            None => Err(FromCQLValError::BadCQLType),
        }
    }

    fn to_cql(&self) -> (value: CQLValue) {
        CQLValue::Text(self.clone())
    }
}

impl FromCQLVal for i64 {
    open spec fn decode_cql(value: CQLValueView) -> Option<i64> {
        match value {
            CQLValueView::BigInt(x) => Some(x),
            _ => None,
        }
    }

    open spec fn cql_of(v: i64) -> CQLValueView {
        CQLValueView::BigInt(v)
    }

    proof fn lemma_cql_round_trip(v: i64) {
    }

    fn from_cql(value: CQLValue) -> (r: Result<Self, FromCQLValError>) {
        match value.as_bigint() {
            Some(x) => Ok(x),
            None => Err(FromCQLValError::BadCQLType),
        }
    }

    fn to_cql(&self) -> (value: CQLValue) {
        CQLValue::BigInt(*self)
    }
}

impl FromCQLVal for bool {
    open spec fn decode_cql(value: CQLValueView) -> Option<bool> {
        match value {
            CQLValueView::Boolean(x) => Some(x),
            _ => None,
        }
    }

    open spec fn cql_of(v: bool) -> CQLValueView {
        CQLValueView::Boolean(v)
    }

    proof fn lemma_cql_round_trip(v: bool) {
    }

    fn from_cql(value: CQLValue) -> (r: Result<Self, FromCQLValError>) {
        match value.as_boolean() {
            Some(x) => Ok(x),
            None => Err(FromCQLValError::BadCQLType),
        }
    }

    fn to_cql(&self) -> (value: CQLValue) {
        CQLValue::Boolean(*self)
    }
}

impl FromCQLVal for i16 {
    open spec fn decode_cql(value: CQLValueView) -> Option<i16> {
        match value {
            CQLValueView::SmallInt(x) => Some(x),
            _ => None,
        }
    }

    open spec fn cql_of(v: i16) -> CQLValueView {
        CQLValueView::SmallInt(v)
    }

    proof fn lemma_cql_round_trip(v: i16) {
    }

    fn from_cql(value: CQLValue) -> (r: Result<Self, FromCQLValError>) {
        match value.as_smallint() {
            Some(x) => Ok(x),
            None => Err(FromCQLValError::BadCQLType),
        }
    }

    fn to_cql(&self) -> (value: CQLValue) {
        CQLValue::SmallInt(*self)
    }
}

impl FromCQLVal for i8 {
    open spec fn decode_cql(value: CQLValueView) -> Option<i8> {
        match value {
            CQLValueView::TinyInt(x) => Some(x),
            _ => None,
        }
    }

    open spec fn cql_of(v: i8) -> CQLValueView {
        CQLValueView::TinyInt(v)
    }

    proof fn lemma_cql_round_trip(v: i8) {
    }

    fn from_cql(value: CQLValue) -> (r: Result<Self, FromCQLValError>) {
        match value.as_tinyint() {
            Some(x) => Ok(x),
            None => Err(FromCQLValError::BadCQLType),
        }
    }

    fn to_cql(&self) -> (value: CQLValue) {
        CQLValue::TinyInt(*self)
    }
}

impl FromCQLVal for u64 {
    open spec fn decode_cql(value: CQLValueView) -> Option<u64> {
        match value {
            CQLValueView::Counter(x) => Some(x),
            _ => None,
        }
    }

    open spec fn cql_of(v: u64) -> CQLValueView {
        CQLValueView::Counter(v)
    }

    proof fn lemma_cql_round_trip(v: u64) {
    }

    fn from_cql(value: CQLValue) -> (r: Result<Self, FromCQLValError>) {
        match value.as_counter() {
            Some(x) => Ok(x),
            None => Err(FromCQLValError::BadCQLType),
        }
    }

    fn to_cql(&self) -> (value: CQLValue) {
        CQLValue::Counter(*self)
    }
}

/// What the column at `column_index` reads as: a column without a value
/// cannot be read, nor one whose value has another type.
pub open spec fn decode_field<T: FromCQLVal>(
    value: Option<CQLValueView>,
    column_index: usize,
) -> Result<T::V, FromRowError> {
    match value {
        None => Err(FromRowError::BadCQLVal { column_index, reason: FromCQLValError::ValIsNull }),
        Some(v) => match T::decode_cql(v) {
            None => Err(
                FromRowError::BadCQLVal { column_index, reason: FromCQLValError::BadCQLType },
            ),
            Some(x) => Ok(x),
        },
    }
}

/// Reads the column at `column_index` as a field.
pub fn read_field<T: FromCQLVal>(value: Option<CQLValue>, column_index: usize) -> (r: Result<
    T,
    FromRowError,
>)
    ensures
        (match r {
            Ok(x) => Ok(x@),
            Err(e) => Err(e),
        }) == decode_field::<T>(opt_value_view(value), column_index),
{
    match value {
        None => Err(FromRowError::BadCQLVal { column_index, reason: FromCQLValError::ValIsNull }),
        Some(v) => match T::from_cql(v) {
            Ok(x) => Ok(x),
            Err(reason) => Err(FromRowError::BadCQLVal { column_index, reason }),
        },
    }
}

/// The payload that stands for a value that may be absent.
pub open spec fn opt_payload(value: Option<CQLValueView>) -> Option<Seq<u8>> {
    match value {
        None => None,
        Some(v) => Some(encode_value(v)),
    }
}

/// The payloads that stand for the values of a row, in their order.
pub open spec fn payloads_of(row: Seq<Option<CQLValueView>>) -> Seq<Option<Seq<u8>>> {
    Seq::new(row.len(), |i: int| opt_payload(row[i]))
}

/// The bytes of a payload that may be absent.
pub open spec fn opt_bytes(payload: Option<Vec<u8>>) -> Option<Seq<u8>> {
    match payload {
        None => None,
        Some(p) => Some(p@),
    }
}

/// The bytes of a list of payloads, in their order.
pub open spec fn payloads_view(list: Seq<Option<Vec<u8>>>) -> Seq<Option<Seq<u8>>> {
    Seq::new(list.len(), |i: int| opt_bytes(list[i]))
}

/// The payload that stands for a field.
pub fn bind_field<T: FromCQLVal>(field: &T) -> (r: Result<Option<Vec<u8>>, EncodeError>)
    ensures
        r is Ok <==> fits_bytes(T::cql_of(field@)),
        r matches Ok(p) ==> opt_bytes(p) == Some(encode_value(T::cql_of(field@))),
        r matches Err(e) ==> e == EncodeError::TooLong,
{
    let payload = value_payload(&field.to_cql())?;
    if payload.len() > i32::MAX as usize {
        return Err(EncodeError::TooLong);
    }
    Ok(Some(payload))
}

/// A record that a row can be read as. The columns are taken by their
/// position, in the order of the record's fields, not by their names.
pub trait FromRow: Sized + View {
    /// What a row reads as: an error where the row has another number of
    /// columns than the record has fields, or a column cannot be read as its
    /// field.
    spec fn decode_row(row: Seq<Option<CQLValueView>>) -> Result<Self::V, FromRowError>;

    /// Reads a row.
    fn from_row(row: Row) -> (r: Result<Self, FromRowError>)
        ensures
            (match r {
                Ok(x) => Ok(x@),
                Err(e) => Err(e),
            }) == Self::decode_row(row@),
    ;
}

/// A record that can be bound to the parameters of a statement.
pub trait ValueList: Sized + View {
    /// The values that stand for the record, in the order of its fields.
    spec fn bound_values(v: Self::V) -> Seq<Option<CQLValueView>>;

    /// The payloads of the values that stand for the record, in the order of
    /// its fields: for each the value's bytes, or none where there is no
    /// value. A record with a value that does not fit a `[bytes]` is refused.
    fn value_list(&self) -> (r: Result<Vec<Option<Vec<u8>>>, EncodeError>)
        ensures
            r is Ok <==> (forall|i: int|
                0 <= i < Self::bound_values(self@).len() ==> (
                #[trigger] Self::bound_values(self@)[i] matches Some(v) ==> fits_bytes(v))),
            r matches Ok(list) ==> payloads_view(list@) == payloads_of(Self::bound_values(self@)),
            r matches Err(e) ==> e == EncodeError::TooLong,
    ;
}

/// A record that can be read from a row and bound to parameters, and for
/// which the two agree: the values that stand for a record read as that
/// record.
pub trait Record: FromRow + ValueList {
    proof fn lemma_record_round_trip(v: Self::V)
        ensures
            Self::decode_row(Self::bound_values(v)) == Ok::<_, FromRowError>(v),
    ;
}

impl Row {
    /// Reads the row as a record.
    pub fn into_typed<RowT: FromRow>(self) -> (r: Result<RowT, FromRowError>)
        ensures
            (match r {
                Ok(x) => Ok(x@),
                Err(e) => Err(e),
            }) == RowT::decode_row(self@),
    {
        RowT::from_row(self)
    }
}

impl<A: FromCQLVal> FromRow for (A,) {
    open spec fn decode_row(row: Seq<Option<CQLValueView>>) -> Result<(A::V,), FromRowError> {
        if row.len() != 1 {
            Err(FromRowError::WrongRowSize { expected: 1, actual: row.len() as usize })
        } else {
            match decode_field::<A>(row[0], 0) {
                Err(e) => Err(e),
                Ok(a) => Ok((a,)),
            }
        }
    }

    fn from_row(row: Row) -> (r: Result<Self, FromRowError>) {
        let mut columns = row.columns;
        if columns.len() != 1 {
            return Err(FromRowError::WrongRowSize { expected: 1, actual: columns.len() });
        }
        let c0 = columns.pop().unwrap();
        let a = read_field::<A>(c0, 0)?;
        Ok((a,))
    }
}

impl<A: FromCQLVal> ValueList for (A,) {
    open spec fn bound_values(v: (A::V,)) -> Seq<Option<CQLValueView>> {
        seq![Some(A::cql_of(v.0))]
    }

    fn value_list(&self) -> (r: Result<Vec<Option<Vec<u8>>>, EncodeError>) {
        let ghost values = Self::bound_values(self@);
        assert(values[0] == Some(A::cql_of(self@.0)));
        let mut list: Vec<Option<Vec<u8>>> = Vec::new();
        list.push(bind_field(&self.0)?);
        assert(payloads_view(list@) =~= payloads_of(values));
        Ok(list)
    }
}

impl<A: FromCQLVal> Record for (A,) {
    proof fn lemma_record_round_trip(v: (A::V,)) {
        A::lemma_cql_round_trip(v.0);
    }
}

impl<A: FromCQLVal, B: FromCQLVal> FromRow for (A, B) {
    open spec fn decode_row(row: Seq<Option<CQLValueView>>) -> Result<(A::V, B::V), FromRowError> {
        if row.len() != 2 {
            Err(FromRowError::WrongRowSize { expected: 2, actual: row.len() as usize })
        } else {
            match decode_field::<A>(row[0], 0) {
                Err(e) => Err(e),
                Ok(a) => match decode_field::<B>(row[1], 1) {
                    Err(e) => Err(e),
                    Ok(b) => Ok((a, b)),
                },
            }
        }
    }

    fn from_row(row: Row) -> (r: Result<Self, FromRowError>) {
        let mut columns = row.columns;
        if columns.len() != 2 {
            return Err(FromRowError::WrongRowSize { expected: 2, actual: columns.len() });
        }
        let c1 = columns.pop().unwrap();
        let c0 = columns.pop().unwrap();
        let a = read_field::<A>(c0, 0)?;
        let b = read_field::<B>(c1, 1)?;
        Ok((a, b))
    }
}

impl<A: FromCQLVal, B: FromCQLVal> ValueList for (A, B) {
    open spec fn bound_values(v: (A::V, B::V)) -> Seq<Option<CQLValueView>> {
        seq![Some(A::cql_of(v.0)), Some(B::cql_of(v.1))]
    }

    fn value_list(&self) -> (r: Result<Vec<Option<Vec<u8>>>, EncodeError>) {
        let ghost values = Self::bound_values(self@);
        assert(values[0] == Some(A::cql_of(self@.0)));
        assert(values[1] == Some(B::cql_of(self@.1)));
        let mut list: Vec<Option<Vec<u8>>> = Vec::new();
        list.push(bind_field(&self.0)?);
        list.push(bind_field(&self.1)?);
        assert(payloads_view(list@) =~= payloads_of(values));
        Ok(list)
    }
}

impl<A: FromCQLVal, B: FromCQLVal> Record for (A, B) {
    proof fn lemma_record_round_trip(v: (A::V, B::V)) {
        A::lemma_cql_round_trip(v.0);
        B::lemma_cql_round_trip(v.1);
    }
}

impl<A: FromCQLVal, B: FromCQLVal, C: FromCQLVal> FromRow for (A, B, C) {
    open spec fn decode_row(row: Seq<Option<CQLValueView>>) -> Result<(A::V, B::V, C::V), FromRowError> {
        if row.len() != 3 {
            Err(FromRowError::WrongRowSize { expected: 3, actual: row.len() as usize })
        } else {
            match decode_field::<A>(row[0], 0) {
                Err(e) => Err(e),
                Ok(a) => match decode_field::<B>(row[1], 1) {
                Err(e) => Err(e),
                Ok(b) => match decode_field::<C>(row[2], 2) {
                Err(e) => Err(e),
                Ok(c) => Ok((a, b, c)),
            },
            },
            }
        }
    }

    fn from_row(row: Row) -> (r: Result<Self, FromRowError>) {
        let mut columns = row.columns;
        if columns.len() != 3 {
            return Err(FromRowError::WrongRowSize { expected: 3, actual: columns.len() });
        }
        let c2 = columns.pop().unwrap();
        let c1 = columns.pop().unwrap();
        let c0 = columns.pop().unwrap();
        let a = read_field::<A>(c0, 0)?;
        let b = read_field::<B>(c1, 1)?;
        let c = read_field::<C>(c2, 2)?;
        Ok((a, b, c))
    }
}

impl<A: FromCQLVal, B: FromCQLVal, C: FromCQLVal> ValueList for (A, B, C) {
    open spec fn bound_values(v: (A::V, B::V, C::V)) -> Seq<Option<CQLValueView>> {
        seq![Some(A::cql_of(v.0)), Some(B::cql_of(v.1)), Some(C::cql_of(v.2))]
    }

    fn value_list(&self) -> (r: Result<Vec<Option<Vec<u8>>>, EncodeError>) {
        let ghost values = Self::bound_values(self@);
        assert(values[0] == Some(A::cql_of(self@.0)));
        assert(values[1] == Some(B::cql_of(self@.1)));
        assert(values[2] == Some(C::cql_of(self@.2)));
        let mut list: Vec<Option<Vec<u8>>> = Vec::new();
        list.push(bind_field(&self.0)?);
        list.push(bind_field(&self.1)?);
        list.push(bind_field(&self.2)?);
        assert(payloads_view(list@) =~= payloads_of(values));
        Ok(list)
    }
}

impl<A: FromCQLVal, B: FromCQLVal, C: FromCQLVal> Record for (A, B, C) {
    proof fn lemma_record_round_trip(v: (A::V, B::V, C::V)) {
        A::lemma_cql_round_trip(v.0);
        B::lemma_cql_round_trip(v.1);
        C::lemma_cql_round_trip(v.2);
    }
}

impl<A: FromCQLVal, B: FromCQLVal, C: FromCQLVal, D: FromCQLVal> FromRow for (A, B, C, D) {
    open spec fn decode_row(row: Seq<Option<CQLValueView>>) -> Result<(A::V, B::V, C::V, D::V), FromRowError> {
        if row.len() != 4 {
            Err(FromRowError::WrongRowSize { expected: 4, actual: row.len() as usize })
        } else {
            match decode_field::<A>(row[0], 0) {
                Err(e) => Err(e),
                Ok(a) => match decode_field::<B>(row[1], 1) {
                Err(e) => Err(e),
                Ok(b) => match decode_field::<C>(row[2], 2) {
                Err(e) => Err(e),
                Ok(c) => match decode_field::<D>(row[3], 3) {
                Err(e) => Err(e),
                Ok(d) => Ok((a, b, c, d)),
            },
            },
            },
            }
        }
    }

    fn from_row(row: Row) -> (r: Result<Self, FromRowError>) {
        let mut columns = row.columns;
        if columns.len() != 4 {
            return Err(FromRowError::WrongRowSize { expected: 4, actual: columns.len() });
        }
        let c3 = columns.pop().unwrap();
        let c2 = columns.pop().unwrap();
        let c1 = columns.pop().unwrap();
        let c0 = columns.pop().unwrap();
        let a = read_field::<A>(c0, 0)?;
        let b = read_field::<B>(c1, 1)?;
        let c = read_field::<C>(c2, 2)?;
        let d = read_field::<D>(c3, 3)?;
        Ok((a, b, c, d))
    }
}

impl<A: FromCQLVal, B: FromCQLVal, C: FromCQLVal, D: FromCQLVal> ValueList for (A, B, C, D) {
    open spec fn bound_values(v: (A::V, B::V, C::V, D::V)) -> Seq<Option<CQLValueView>> {
        seq![Some(A::cql_of(v.0)), Some(B::cql_of(v.1)), Some(C::cql_of(v.2)), Some(D::cql_of(v.3))]
    }

    fn value_list(&self) -> (r: Result<Vec<Option<Vec<u8>>>, EncodeError>) {
        let ghost values = Self::bound_values(self@);
        assert(values[0] == Some(A::cql_of(self@.0)));
        assert(values[1] == Some(B::cql_of(self@.1)));
        assert(values[2] == Some(C::cql_of(self@.2)));
        assert(values[3] == Some(D::cql_of(self@.3)));
        let mut list: Vec<Option<Vec<u8>>> = Vec::new();
        list.push(bind_field(&self.0)?);
        list.push(bind_field(&self.1)?);
        list.push(bind_field(&self.2)?);
        list.push(bind_field(&self.3)?);
        assert(payloads_view(list@) =~= payloads_of(values));
        Ok(list)
    }
}

impl<A: FromCQLVal, B: FromCQLVal, C: FromCQLVal, D: FromCQLVal> Record for (A, B, C, D) {
    proof fn lemma_record_round_trip(v: (A::V, B::V, C::V, D::V)) {
        A::lemma_cql_round_trip(v.0);
        B::lemma_cql_round_trip(v.1);
        C::lemma_cql_round_trip(v.2);
        D::lemma_cql_round_trip(v.3);
    }
}

/// Writing the payloads of the values of a row one after the other gives
/// the bytes of the row.
pub proof fn lemma_payloads_are_members(row: Seq<Option<CQLValueView>>, from: int)
    requires
        0 <= from <= row.len(),
    ensures
        encode_payloads(payloads_of(row), from) == encode_members(row, from),
    decreases row.len() - from,
{
    if from < row.len() {
        lemma_payloads_are_members(row, from + 1);
        assert(payloads_of(row)[from] == opt_payload(row[from]));
        assert(encode_opt_value(row[from]) == encode_bytes_opt(opt_payload(row[from])));
        assert(encode_members(row, from) == encode_opt_value(row[from]) + encode_members(
            row,
            from + 1,
        ));
    } else {
        assert(encode_members(row, from) == Seq::<u8>::empty());
    }
}

/// What is bound is what is read. Take a record, the payloads that its
/// value list gives, written one after the other, and the types of the
/// columns that they are bound to. Decoded cell by cell under those types
/// they give a row, and that row reads as the record.
pub proof fn lemma_projection_round_trip<R: Record>(record: R::V, types: Seq<ColumnTypeView>)
    requires
        members_fit(types, R::bound_values(record)),
    ensures
        parse_members(types, 0, encode_payloads(payloads_of(R::bound_values(record)), 0)) == Ok::<
            _,
            ParseError,
        >((R::bound_values(record), Seq::<u8>::empty())),
        R::decode_row(R::bound_values(record)) == Ok::<_, FromRowError>(record),
{
    let row = R::bound_values(record);
    lemma_payloads_are_members(row, 0);
    lemma_members_round_trip(types, row, 0, Seq::<u8>::empty());
    assert(encode_members(row, 0) + Seq::<u8>::empty() =~= encode_members(row, 0));
    assert(row.skip(0) =~= row);
    R::lemma_record_round_trip(record);
}

} // verus!
