//! The bodies of the requests QUERY, PREPARE and EXECUTE.
use crate::frame::frame_errors::EncodeError;
use crate::frame::types::{
    as_unsigned, bytes_as_slice, bytes_of, encode_bytes, encode_int, encode_long_string,
    encode_short, encode_short_bytes, put_i64, put_slice, u64_be_bytes, write_bytes, write_int,
    write_long_string, write_short, write_short_bytes,
};
use bytes::Bytes;
use vstd::prelude::*;
use vstd::utf8::encode_utf8;

verus! {

/// The bit of the flags of a request that says that values follow.
pub const FLAG_VALUES: u8 = 0x01;

/// The bit that asks the server to leave the metadata out of the result.
pub const FLAG_SKIP_METADATA: u8 = 0x02;

/// The bit that says that a page size follows.
pub const FLAG_PAGE_SIZE: u8 = 0x04;

/// The bit that says that a paging state follows.
pub const FLAG_PAGING_STATE: u8 = 0x08;

/// The bit that says that a serial consistency follows.
pub const FLAG_SERIAL_CONSISTENCY: u8 = 0x10;

/// The bit that says that a default timestamp follows.
pub const FLAG_DEFAULT_TIMESTAMP: u8 = 0x20;

/// A parameter of a statement as it goes on the wire.
#[derive(Debug, Clone, PartialEq, Eq)]
pub enum BoundValue {
    /// The payload of a value.
    Value(Vec<u8>),
    /// No value: the parameter is set to null.
    Null,
    /// The parameter is left as it is. Only a protocol that knows this form
    /// can carry it.
    NotSet,
}

/// What `BoundValue` stands for in contracts.
pub enum BoundValueView {
    Value(Seq<u8>),
    Null,
    NotSet,
}

impl View for BoundValue {
    type V = BoundValueView;

    open spec fn view(&self) -> BoundValueView {
        match self {
            BoundValue::Value(payload) => BoundValueView::Value(payload@),
            BoundValue::Null => BoundValueView::Null,
            BoundValue::NotSet => BoundValueView::NotSet,
        }
    }
}

/// The views of a sequence of bound values, in their order.
pub open spec fn bound_values_view(values: Seq<BoundValue>) -> Seq<BoundValueView> {
    Seq::new(values.len(), |i: int| values[i]@)
}

/// The bytes of a `[value]`: an `[int]` length and the payload, the length
/// -1 alone for null, or the length -2 alone for a parameter that is not
/// set.
pub open spec fn encode_bound_value(value: BoundValueView) -> Seq<u8> {
    match value {
        BoundValueView::Value(payload) => encode_bytes(payload),
        BoundValueView::Null => encode_int(-1i32),
        BoundValueView::NotSet => encode_int(-2i32),
    }
}

/// Why a `[value]` cannot be written, if it cannot: its payload is longer
/// than `i32::MAX` bytes, or it is not set and the protocol cannot say so.
pub open spec fn bound_value_check(value: BoundValueView, supports_not_set: bool) -> Result<
    (),
    EncodeError,
> {
    match value {
        BoundValueView::Value(payload) => if payload.len() <= i32::MAX {
            Ok(())
        } else {
            Err(EncodeError::TooLong)
        },
        BoundValueView::Null => Ok(()),
        BoundValueView::NotSet => if supports_not_set {
            Ok(())
        } else {
            Err(EncodeError::Unsupported)
        },
    }
}

/// The bytes of the values from the one at `from` on.
pub open spec fn encode_bound_values(values: Seq<BoundValueView>, from: int) -> Seq<u8>
    decreases values.len() - from,
{
    if 0 <= from < values.len() {
        encode_bound_value(values[from]) + encode_bound_values(values, from + 1)
    } else {
        Seq::empty()
    }
}

/// Why the values from the one at `from` on cannot be written, if they
/// cannot: the first of them that cannot be written decides.
pub open spec fn bound_values_check(
    values: Seq<BoundValueView>,
    supports_not_set: bool,
    from: int,
) -> Result<(), EncodeError>
    decreases values.len() - from,
{
    if 0 <= from < values.len() {
        match bound_value_check(values[from], supports_not_set) {
            Err(e) => Err(e),
            Ok(_) => bound_values_check(values, supports_not_set, from + 1),
        }
    } else {
        Ok(())
    }
}

/// The parameters of a QUERY or an EXECUTE request.
#[derive(Debug)]
pub struct QueryParameters {
    pub consistency: u16,
    /// Asks the server to leave the metadata out of the result.
    pub skip_metadata: bool,
    /// The values of the statement's parameters, in their order.
    pub values: Vec<BoundValue>,
    pub page_size: Option<i32>,
    /// Where the page starts: the paging state of the result before.
    pub paging_state: Option<Bytes>,
    pub serial_consistency: Option<u16>,
    pub default_timestamp: Option<i64>,
}

/// What `QueryParameters` stands for in contracts.
pub struct QueryParametersView {
    pub consistency: u16,
    pub skip_metadata: bool,
    pub values: Seq<BoundValueView>,
    pub page_size: Option<i32>,
    pub paging_state: Option<Seq<u8>>,
    pub serial_consistency: Option<u16>,
    pub default_timestamp: Option<i64>,
}

impl View for QueryParameters {
    type V = QueryParametersView;

    open spec fn view(&self) -> QueryParametersView {
        QueryParametersView {
            consistency: self.consistency,
            skip_metadata: self.skip_metadata,
            values: bound_values_view(self.values@),
            page_size: self.page_size,
            paging_state: match self.paging_state {
                Some(state) => Some(bytes_of(state)),
                None => None,
            },
            serial_consistency: self.serial_consistency,
            default_timestamp: self.default_timestamp,
        }
    }
}

/// The flags of a request: one bit for each part that follows them, and the
/// bit that asks to skip the metadata.
pub open spec fn parameters_flags(p: QueryParametersView) -> u8 {
    ((if p.values.len() > 0 {
        FLAG_VALUES as int
    } else {
        0
    }) + (if p.skip_metadata {
        FLAG_SKIP_METADATA as int
    } else {
        0
    }) + (if p.page_size is Some {
        FLAG_PAGE_SIZE as int
    } else {
        0
    }) + (if p.paging_state is Some {
        FLAG_PAGING_STATE as int
    } else {
        0
    }) + (if p.serial_consistency is Some {
        FLAG_SERIAL_CONSISTENCY as int
    } else {
        0
    }) + (if p.default_timestamp is Some {
        FLAG_DEFAULT_TIMESTAMP as int
    } else {
        0
    })) as u8
}

/// The bytes of the parameters of a request: a `[short]` consistency, the
/// flags in one byte and, each only where its flag is set and in this
/// order, the values as a `[short]` count and that many `[value]`s, the
/// page size as an `[int]`, the paging state as `[bytes]`, the serial
/// consistency as a `[short]` and the default timestamp in eight bytes.
pub open spec fn encode_parameters(p: QueryParametersView) -> Seq<u8> {
    encode_short(p.consistency) + seq![parameters_flags(p)] + (if p.values.len() > 0 {
        encode_short(p.values.len() as u16) + encode_bound_values(p.values, 0)
    } else {
        Seq::empty()
    }) + (match p.page_size {
        Some(size) => encode_int(size),
        None => Seq::empty(),
    }) + (match p.paging_state {
        Some(state) => encode_bytes(state),
        None => Seq::empty(),
    }) + (match p.serial_consistency {
        Some(consistency) => encode_short(consistency),
        None => Seq::empty(),
    }) + (match p.default_timestamp {
        Some(timestamp) => u64_be_bytes(as_unsigned(timestamp as int, 0x1_0000_0000_0000_0000)),
        None => Seq::empty(),
    })
}

/// Why the parameters cannot be written, if they cannot: there are more
/// than 65535 values, or else a value cannot be written (the first such
/// value decides), or else the paging state is longer than `i32::MAX`
/// bytes.
pub open spec fn parameters_check(p: QueryParametersView, supports_not_set: bool) -> Result<
    (),
    EncodeError,
> {
    if p.values.len() > u16::MAX {
        Err(EncodeError::TooLong)
    } else {
        match bound_values_check(p.values, supports_not_set, 0) {
            Err(e) => Err(e),
            Ok(_) => if p.paging_state matches Some(state) && state.len() > i32::MAX {
                Err(EncodeError::TooLong)
            } else {
                Ok(())
            },
        }
    }
}

/// The parameters that stand for a list of payloads: a payload is bound as
/// it is, and no payload as null.
pub fn bind_values(payloads: Vec<Option<Vec<u8>>>) -> (values: Vec<BoundValue>)
    ensures
        values@.len() == payloads@.len(),
        forall|i: int|
            0 <= i < payloads@.len() ==> (#[trigger] values@[i])@ == (match payloads@[i] {
                Some(payload) => BoundValueView::Value(payload@),
                None => BoundValueView::Null,
            }),
{
    let mut payloads = payloads;
    let ghost all = payloads@;
    let mut reversed: Vec<BoundValue> = Vec::new();
    while payloads.len() > 0
        invariant
            payloads@.len() + reversed@.len() == all.len(),
            forall|i: int| 0 <= i < payloads@.len() ==> payloads@[i] == all[i],
            forall|j: int|
                0 <= j < reversed@.len() ==> (#[trigger] reversed@[j])@ == (match all[all.len() - 1
                    - j] {
                    Some(payload) => BoundValueView::Value(payload@),
                    None => BoundValueView::Null,
                }),
        decreases payloads@.len(),
    {
        let value = match payloads.pop().unwrap() {
            Some(payload) => BoundValue::Value(payload),
            None => BoundValue::Null,
        };
        reversed.push(value);
    }
    let mut values: Vec<BoundValue> = Vec::new();
    while reversed.len() > 0
        invariant
            reversed@.len() + values@.len() == all.len(),
            forall|j: int|
                0 <= j < reversed@.len() ==> (#[trigger] reversed@[j])@ == (match all[all.len() - 1
                    - j] {
                    Some(payload) => BoundValueView::Value(payload@),
                    None => BoundValueView::Null,
                }),
            forall|i: int|
                0 <= i < values@.len() ==> (#[trigger] values@[i])@ == (match all[i] {
                    Some(payload) => BoundValueView::Value(payload@),
                    None => BoundValueView::Null,
                }),
        decreases reversed@.len(),
    {
        let value = reversed.pop().unwrap();
        values.push(value);
    }
    values
}

/// Adds a `[value]` to `buf`.
fn push_bound_value(value: &BoundValue, supports_not_set: bool, buf: &mut Vec<u8>) -> (r: Result<
    (),
    EncodeError,
>)
    ensures
        r == bound_value_check(value@, supports_not_set),
        r is Ok ==> final(buf)@ == old(buf)@ + encode_bound_value(value@),
        r is Err ==> final(buf)@ == old(buf)@,
{
    match value {
        BoundValue::Value(payload) => match write_bytes(payload.as_slice(), buf) {
            Ok(_) => Ok(()),
            Err(e) => Err(e),
        },
        BoundValue::Null => {
            write_int(-1, buf);
            Ok(())
        },
        BoundValue::NotSet => {
            if !supports_not_set {
                return Err(EncodeError::Unsupported);
            }
            write_int(-2, buf);
            Ok(())
        },
    }
}

/// The values from `from` on start with the one at `from`.
proof fn lemma_bound_values_step(
    values: Seq<BoundValueView>,
    supports_not_set: bool,
    from: int,
    done: Seq<u8>,
)
    requires
        0 <= from < values.len(),
    ensures
        (done + encode_bound_value(values[from])) + encode_bound_values(values, from + 1) == done
            + encode_bound_values(values, from),
        bound_values_check(values, supports_not_set, from) == (match bound_value_check(
            values[from],
            supports_not_set,
        ) {
            Err(e) => Err(e),
            Ok(_) => bound_values_check(values, supports_not_set, from + 1),
        }),
{
    assert((done + encode_bound_value(values[from])) + encode_bound_values(values, from + 1)
        =~= done + encode_bound_values(values, from));
}

/// The `[value]`s of a list of values.
fn bound_values_payload(values: &Vec<BoundValue>, supports_not_set: bool) -> (r: Result<
    Vec<u8>,
    EncodeError,
>)
    ensures
        (match r {
            Ok(_) => Ok(()),
            Err(e) => Err(e),
        }) == bound_values_check(bound_values_view(values@), supports_not_set, 0),
        r matches Ok(p) ==> p@ == encode_bound_values(bound_values_view(values@), 0),
{
    let ghost items = bound_values_view(values@);
    let mut buf: Vec<u8> = Vec::new();
    let mut i: usize = 0;
    while i < values.len()
        invariant
            i <= values@.len(),
            items == bound_values_view(values@),
            bound_values_check(items, supports_not_set, 0) == bound_values_check(
                items,
                supports_not_set,
                i as int,
            ),
            buf@ + encode_bound_values(items, i as int) == encode_bound_values(items, 0),
        decreases values@.len() - i,
    {
        proof {
            lemma_bound_values_step(items, supports_not_set, i as int, buf@);
        }
        push_bound_value(&values[i], supports_not_set, &mut buf)?;
        i += 1;
    }
    assert(buf@ + encode_bound_values(items, i as int) =~= buf@);
    Ok(buf)
}

/// The flags of the parameters.
fn flags_of(p: &QueryParameters) -> (flags: u8)
    ensures
        flags == parameters_flags(p@),
{
    let mut flags: u8 = 0;
    if p.values.len() > 0 {
        flags = flags + FLAG_VALUES;
    }
    if p.skip_metadata {
        flags = flags + FLAG_SKIP_METADATA;
    }
    if p.page_size.is_some() {
        flags = flags + FLAG_PAGE_SIZE;
    }
    if p.paging_state.is_some() {
        flags = flags + FLAG_PAGING_STATE;
    }
    if p.serial_consistency.is_some() {
        flags = flags + FLAG_SERIAL_CONSISTENCY;
    }
    if p.default_timestamp.is_some() {
        flags = flags + FLAG_DEFAULT_TIMESTAMP;
    }
    flags
}

/// The bytes of the parameters of a request, or why they cannot be
/// written.
pub fn parameters_payload(p: &QueryParameters, supports_not_set: bool) -> (r: Result<
    Vec<u8>,
    EncodeError,
>)
    ensures
        (match r {
            Ok(_) => Ok(()),
            Err(e) => Err(e),
        }) == parameters_check(p@, supports_not_set),
        r matches Ok(bytes) ==> bytes@ == encode_parameters(p@),
{
    if p.values.len() > u16::MAX as usize {
        return Err(EncodeError::TooLong);
    }
    let mut buf: Vec<u8> = Vec::new();
    write_short(p.consistency, &mut buf);
    buf.push(flags_of(p));
    let ghost head = buf@;
    assert(head =~= encode_short(p@.consistency) + seq![parameters_flags(p@)]);
    if p.values.len() > 0 {
        let values = bound_values_payload(&p.values, supports_not_set)?;
        write_short(p.values.len() as u16, &mut buf);
        put_slice(&mut buf, values.as_slice());
    }
    let ghost with_values = buf@;
    assert(with_values =~= head + (if p@.values.len() > 0 {
        encode_short(p@.values.len() as u16) + encode_bound_values(p@.values, 0)
    } else {
        Seq::empty()
    }));
    match p.page_size {
        Some(size) => {
            write_int(size, &mut buf);
        },
        None => {
            assert(buf@ =~= with_values + Seq::<u8>::empty());
        },
    }
    let ghost with_size = buf@;
    match &p.paging_state {
        Some(state) => {
            write_bytes(bytes_as_slice(state), &mut buf)?;
        },
        None => {
            assert(buf@ =~= with_size + Seq::<u8>::empty());
        },
    }
    let ghost with_state = buf@;
    match p.serial_consistency {
        Some(consistency) => {
            write_short(consistency, &mut buf);
        },
        None => {
            assert(buf@ =~= with_state + Seq::<u8>::empty());
        },
    }
    let ghost with_serial = buf@;
    match p.default_timestamp {
        Some(timestamp) => {
            put_i64(&mut buf, timestamp);
        },
        None => {
            assert(buf@ =~= with_serial + Seq::<u8>::empty());
        },
    }
    Ok(buf)
}

/// The body of a QUERY request: the statement as a `[long string]` and the
/// parameters.
pub open spec fn encode_query(text: Seq<char>, p: QueryParametersView) -> Seq<u8> {
    encode_long_string(text) + encode_parameters(p)
}

/// The body of a PREPARE request: the statement as a `[long string]`.
pub open spec fn encode_prepare(text: Seq<char>) -> Seq<u8> {
    encode_long_string(text)
}

/// The body of an EXECUTE request: the id of the prepared statement as
/// `[short bytes]` and the parameters.
pub open spec fn encode_execute(id: Seq<u8>, p: QueryParametersView) -> Seq<u8> {
    encode_short_bytes(id) + encode_parameters(p)
}

/// Why a QUERY request cannot be written, if it cannot: the statement is
/// longer than `i32::MAX` bytes, or else the parameters cannot be written.
pub open spec fn query_check(text: Seq<char>, p: QueryParametersView, supports_not_set: bool) -> Result<
    (),
    EncodeError,
> {
    if encode_utf8(text).len() > i32::MAX {
        Err(EncodeError::TooLong)
    } else {
        parameters_check(p, supports_not_set)
    }
}

/// Why an EXECUTE request cannot be written, if it cannot: the id is longer
/// than 65535 bytes, or else the parameters cannot be written.
pub open spec fn execute_check(id: Seq<u8>, p: QueryParametersView, supports_not_set: bool) -> Result<
    (),
    EncodeError,
> {
    if id.len() > u16::MAX {
        Err(EncodeError::TooLong)
    } else {
        parameters_check(p, supports_not_set)
    }
}

/// Adds the body of a QUERY request to `out`. Where the request cannot be
/// written, nothing is added.
pub fn write_query(
    text: &str,
    p: &QueryParameters,
    supports_not_set: bool,
    out: &mut Vec<u8>,
) -> (r: Result<(), EncodeError>)
    ensures
        r == query_check(text@, p@, supports_not_set),
        r is Ok ==> final(out)@ == old(out)@ + encode_query(text@, p@),
        r is Err ==> final(out)@ == old(out)@,
{
    if text.as_bytes().len() > i32::MAX as usize {
        return Err(EncodeError::TooLong);
    }
    let parameters = parameters_payload(p, supports_not_set)?;
    let ghost before = out@;
    write_long_string(text, out)?;
    put_slice(out, parameters.as_slice());
    assert(out@ =~= before + encode_query(text@, p@));
    Ok(())
}

/// Adds the body of a PREPARE request to `out`. A statement of more than
/// `i32::MAX` bytes is refused and nothing is added.
pub fn write_prepare(text: &str, out: &mut Vec<u8>) -> (r: Result<(), EncodeError>)
    ensures
        r is Ok <==> encode_utf8(text@).len() <= i32::MAX,
        r is Ok ==> final(out)@ == old(out)@ + encode_prepare(text@),
        r matches Err(e) ==> e == EncodeError::TooLong && final(out)@ == old(out)@,
{
    write_long_string(text, out)
}

/// Adds the body of an EXECUTE request to `out`. Where the request cannot
/// be written, nothing is added.
pub fn write_execute(
    id: &Bytes,
    p: &QueryParameters,
    supports_not_set: bool,
    out: &mut Vec<u8>,
) -> (r: Result<(), EncodeError>)
    ensures
        r == execute_check(bytes_of(*id), p@, supports_not_set),
        r is Ok ==> final(out)@ == old(out)@ + encode_execute(bytes_of(*id), p@),
        r is Err ==> final(out)@ == old(out)@,
{
    let raw = bytes_as_slice(id);
    if raw.len() > u16::MAX as usize {
        return Err(EncodeError::TooLong);
    }
    let parameters = parameters_payload(p, supports_not_set)?;
    let ghost before = out@;
    write_short_bytes(raw, out)?;
    put_slice(out, parameters.as_slice());
    assert(out@ =~= before + encode_execute(bytes_of(*id), p@));
    Ok(())
}

} // verus!
