//! The primitive codec: fixed-width integers, length-prefixed strings and
//! byte blobs, and the optional form of a blob.
//!
//! The wire format is modelled by functions on `Seq<u8>`. A `parse_*` function
//! takes the bytes that are left and returns the value it finds at their
//! start together with the bytes that follow it; an `encode_*` function
//! returns the bytes that stand for a value. The `read_*` and `write_*`
//! functions are the executable counterparts over a cursor and a buffer.
use crate::frame::frame_errors::{BadDataReason, EncodeError, ParseError};
use crate::frame::tail::is_tail;
use byteorder::{BigEndian, ByteOrder};
use bytes::{Buf, BufMut, Bytes};
use vstd::prelude::*;
use vstd::slice::slice_subrange;
use vstd::string::StringSliceAdditionalSpecFns;
use vstd::utf8::{decode_utf8, encode_utf8, valid_utf8};

verus! {

// ---------------------------------------------------------------------------
// Big-endian integers
// ---------------------------------------------------------------------------
/// The unsigned number that the first two bytes of `s` spell, most
/// significant byte first.
pub open spec fn be_u16(s: Seq<u8>) -> int
    recommends
        s.len() >= 2,
{
    s[0] as int * 0x100 + s[1] as int
}

/// The unsigned number that the first four bytes of `s` spell.
pub open spec fn be_u32(s: Seq<u8>) -> int
    recommends
        s.len() >= 4,
{
    ((s[0] as int * 0x100 + s[1] as int) * 0x100 + s[2] as int) * 0x100 + s[3] as int
}

/// The unsigned number that the first eight bytes of `s` spell.
pub open spec fn be_u64(s: Seq<u8>) -> int
    recommends
        s.len() >= 8,
{
    be_u32(s) * 0x1_0000_0000 + be_u32(s.skip(4))
}

/// Reads `u`, a number below `modulus`, as a two's-complement number of that
/// width.
pub open spec fn as_signed(u: int, modulus: int) -> int {
    if 2 * u >= modulus {
        u - modulus
    } else {
        u
    }
}

/// The number below `modulus` that stands for `v` in two's complement.
pub open spec fn as_unsigned(v: int, modulus: int) -> int {
    if v < 0 {
        v + modulus
    } else {
        v
    }
}

/// The two bytes that spell `u`, most significant first.
pub open spec fn u16_be_bytes(u: int) -> Seq<u8>
    recommends
        0 <= u < 0x1_0000,
{
    seq![(u / 0x100) as u8, (u % 0x100) as u8]
}

/// The four bytes that spell `u`, most significant first.
pub open spec fn u32_be_bytes(u: int) -> Seq<u8>
    recommends
        0 <= u < 0x1_0000_0000,
{
    seq![
        (u / 0x100_0000) as u8,
        (u / 0x1_0000 % 0x100) as u8,
        (u / 0x100 % 0x100) as u8,
        (u % 0x100) as u8,
    ]
}

/// The eight bytes that spell `u`, most significant first.
pub open spec fn u64_be_bytes(u: int) -> Seq<u8>
    recommends
        0 <= u < 0x1_0000_0000_0000_0000,
{
    u32_be_bytes(u / 0x1_0000_0000) + u32_be_bytes(u % 0x1_0000_0000)
}

/// Reading back what `u16_be_bytes` wrote gives the number again.
pub proof fn lemma_u16_round_trip(u: int, tail: Seq<u8>)
    requires
        0 <= u < 0x1_0000,
    ensures
        be_u16(u16_be_bytes(u) + tail) == u,
        (u16_be_bytes(u) + tail).skip(2) == tail,
        u16_be_bytes(u).len() == 2,
{
    assert((u16_be_bytes(u) + tail).skip(2) =~= tail);
}

/// Reading back what `u32_be_bytes` wrote gives the number again.
pub proof fn lemma_u32_round_trip(u: int, tail: Seq<u8>)
    requires
        0 <= u < 0x1_0000_0000,
    ensures
        be_u32(u32_be_bytes(u) + tail) == u,
        (u32_be_bytes(u) + tail).skip(4) == tail,
        u32_be_bytes(u).len() == 4,
{
    assert((u32_be_bytes(u) + tail).skip(4) =~= tail);
}

/// Reading back what `u64_be_bytes` wrote gives the number again.
pub proof fn lemma_u64_round_trip(u: int, tail: Seq<u8>)
    requires
        0 <= u < 0x1_0000_0000_0000_0000,
    ensures
        be_u64(u64_be_bytes(u) + tail) == u,
        (u64_be_bytes(u) + tail).skip(8) == tail,
        u64_be_bytes(u).len() == 8,
{
    let hi = u / 0x1_0000_0000;
    let lo = u % 0x1_0000_0000;
    let s = u64_be_bytes(u) + tail;
    lemma_u32_round_trip(hi, u32_be_bytes(lo) + tail);
    lemma_u32_round_trip(lo, tail);
    assert(s =~= u32_be_bytes(hi) + (u32_be_bytes(lo) + tail));
    assert(s.skip(4) =~= u32_be_bytes(lo) + tail);
    assert(s.skip(8) =~= tail);
}

// ---------------------------------------------------------------------------
// The model of the wire format
// ---------------------------------------------------------------------------
/// Pairs what an executable reader returned with the bytes its cursor was
/// left on, in the shape in which the `parse_*` functions speak.
pub open spec fn outcome<T>(r: Result<T, ParseError>, rest: Seq<u8>) -> Result<
    (T, Seq<u8>),
    ParseError,
> {
    match r {
        Ok(v) => Ok((v, rest)),
        Err(e) => Err(e),
    }
}

/// As `outcome`, for a reader whose value is compared by its view.
pub open spec fn outcome_view<T: View>(r: Result<T, ParseError>, rest: Seq<u8>) -> Result<
    (T::V, Seq<u8>),
    ParseError,
> {
    match r {
        Ok(v) => Ok((v@, rest)),
        Err(e) => Err(e),
    }
}

/// As `outcome_view`, for a reader whose value may be absent.
pub open spec fn outcome_opt_view<T: View>(r: Result<Option<T>, ParseError>, rest: Seq<u8>) -> Result<
    (Option<T::V>, Seq<u8>),
    ParseError,
> {
    match r {
        Ok(Some(v)) => Ok((Some(v@), rest)),
        Ok(None) => Ok((None, rest)),
        Err(e) => Err(e),
    }
}

/// The next `count` bytes.
pub open spec fn parse_raw(s: Seq<u8>, count: nat) -> Result<(Seq<u8>, Seq<u8>), ParseError> {
    if s.len() < count {
        Err(ParseError::ShortRead)
    } else {
        Ok((s.take(count as int), s.skip(count as int)))
    }
}

/// A `[short]`: an unsigned 16-bit integer.
pub open spec fn parse_short(s: Seq<u8>) -> Result<(u16, Seq<u8>), ParseError> {
    if s.len() < 2 {
        Err(ParseError::ShortRead)
    } else {
        Ok((be_u16(s) as u16, s.skip(2)))
    }
}

/// An `[int]`: a signed 32-bit integer in two's complement.
pub open spec fn parse_int(s: Seq<u8>) -> Result<(i32, Seq<u8>), ParseError> {
    if s.len() < 4 {
        Err(ParseError::ShortRead)
    } else {
        Ok((as_signed(be_u32(s), 0x1_0000_0000) as i32, s.skip(4)))
    }
}

/// An `[int]` that serves as a count or a length and may not be negative.
pub open spec fn parse_int_length(s: Seq<u8>) -> Result<(u32, Seq<u8>), ParseError> {
    match parse_int(s) {
        Err(e) => Err(e),
        Ok((v, rest)) => if v < 0 {
            Err(ParseError::BadData(BadDataReason::NegativeLength { value: v }))
        } else {
            Ok((v as u32, rest))
        },
    }
}

/// A `[string]`: a `[short]` length and that many bytes of UTF-8.
pub open spec fn parse_string(s: Seq<u8>) -> Result<(Seq<char>, Seq<u8>), ParseError> {
    match parse_short(s) {
        Err(e) => Err(e),
        Ok((len, rest)) => match parse_raw(rest, len as nat) {
            Err(e) => Err(e),
            Ok((raw, rest)) => if valid_utf8(raw) {
                Ok((decode_utf8(raw), rest))
            } else {
                Err(ParseError::BadData(BadDataReason::InvalidUtf8))
            },
        },
    }
}

/// A `[bytes]` that must be present: a non-negative `[int]` length and that
/// many bytes.
pub open spec fn parse_bytes(s: Seq<u8>) -> Result<(Seq<u8>, Seq<u8>), ParseError> {
    match parse_int_length(s) {
        Err(e) => Err(e),
        Ok((len, rest)) => parse_raw(rest, len as nat),
    }
}

/// A `[bytes]` that may be absent: a negative length stands for no value and
/// is followed by nothing.
pub open spec fn parse_bytes_opt(s: Seq<u8>) -> Result<(Option<Seq<u8>>, Seq<u8>), ParseError> {
    match parse_int(s) {
        Err(e) => Err(e),
        Ok((len, rest)) => if len < 0 {
            Ok((None, rest))
        } else {
            match parse_raw(rest, len as nat) {
                Err(e) => Err(e),
                Ok((raw, rest)) => Ok((Some(raw), rest)),
            }
        },
    }
}

/// A `[short bytes]`: a `[short]` length and that many bytes.
pub open spec fn parse_short_bytes(s: Seq<u8>) -> Result<(Seq<u8>, Seq<u8>), ParseError> {
    match parse_short(s) {
        Err(e) => Err(e),
        Ok((len, rest)) => parse_raw(rest, len as nat),
    }
}

/// The bytes of a `[short]`.
pub open spec fn encode_short(v: u16) -> Seq<u8> {
    u16_be_bytes(v as int)
}

/// The bytes of an `[int]`.
pub open spec fn encode_int(v: i32) -> Seq<u8> {
    u32_be_bytes(as_unsigned(v as int, 0x1_0000_0000))
}

/// The bytes of a `[string]`, for a text whose UTF-8 form fits a `[short]`
/// length.
pub open spec fn encode_string(chars: Seq<char>) -> Seq<u8>
    recommends
        encode_utf8(chars).len() <= u16::MAX,
{
    encode_short(encode_utf8(chars).len() as u16) + encode_utf8(chars)
}

/// The bytes of a `[bytes]` that is present, for a blob whose length fits an
/// `[int]`.
pub open spec fn encode_bytes(raw: Seq<u8>) -> Seq<u8>
    recommends
        raw.len() <= i32::MAX,
{
    encode_int(raw.len() as i32) + raw
}

/// The bytes of a `[bytes]` that may be absent: no value is written as the
/// length -1 alone.
pub open spec fn encode_bytes_opt(raw: Option<Seq<u8>>) -> Seq<u8>
    recommends
        raw matches Some(b) ==> b.len() <= i32::MAX,
{
    match raw {
        None => encode_int(-1i32),
        Some(b) => encode_bytes(b),
    }
}

/// The bytes of a `[long string]`: an `[int]` length and that many bytes of
/// UTF-8.
pub open spec fn encode_long_string(chars: Seq<char>) -> Seq<u8>
    recommends
        encode_utf8(chars).len() <= i32::MAX,
{
    encode_bytes(encode_utf8(chars))
}

/// The bytes of a `[short bytes]`, for a blob whose length fits a `[short]`.
pub open spec fn encode_short_bytes(raw: Seq<u8>) -> Seq<u8>
    recommends
        raw.len() <= u16::MAX,
{
    encode_short(raw.len() as u16) + raw
}

/// The bytes of a list of optional `[bytes]` from the one at `from` on.
pub open spec fn encode_payloads(payloads: Seq<Option<Seq<u8>>>, from: int) -> Seq<u8>
    decreases payloads.len() - from,
{
    if 0 <= from < payloads.len() {
        encode_bytes_opt(payloads[from]) + encode_payloads(payloads, from + 1)
    } else {
        Seq::empty()
    }
}

// ---------------------------------------------------------------------------
// What is read is what was written
// ---------------------------------------------------------------------------
/// Taking `count` bytes from the front of `raw + tail` gives `raw` and
/// leaves `tail`.
pub proof fn lemma_raw_round_trip(raw: Seq<u8>, tail: Seq<u8>)
    ensures
        parse_raw(raw + tail, raw.len()) == Ok::<_, ParseError>((raw, tail)),
{
    assert((raw + tail).take(raw.len() as int) =~= raw);
    assert((raw + tail).skip(raw.len() as int) =~= tail);
}

/// A `[short]` reads back as the number written, whatever follows it.
pub proof fn lemma_short_round_trip(v: u16, tail: Seq<u8>)
    ensures
        parse_short(encode_short(v) + tail) == Ok::<_, ParseError>((v, tail)),
        encode_short(v).len() == 2,
{
    lemma_u16_round_trip(v as int, tail);
}

/// An `[int]` reads back as the number written, whatever follows it.
pub proof fn lemma_int_round_trip(v: i32, tail: Seq<u8>)
    ensures
        parse_int(encode_int(v) + tail) == Ok::<_, ParseError>((v, tail)),
        encode_int(v).len() == 4,
{
    lemma_u32_round_trip(as_unsigned(v as int, 0x1_0000_0000), tail);
}

/// A `[string]` reads back as the text written, whatever follows it.
pub proof fn lemma_string_round_trip(chars: Seq<char>, tail: Seq<u8>)
    requires
        encode_utf8(chars).len() <= u16::MAX,
    ensures
        parse_string(encode_string(chars) + tail) == Ok::<_, ParseError>((chars, tail)),
{
    let raw = encode_utf8(chars);
    vstd::utf8::encode_utf8_valid_utf8(chars);
    vstd::utf8::encode_utf8_decode_utf8(chars);
    lemma_short_round_trip(raw.len() as u16, raw + tail);
    lemma_raw_round_trip(raw, tail);
    assert(encode_string(chars) + tail =~= encode_short(raw.len() as u16) + (raw + tail));
}

/// A `[bytes]` reads back as the blob written, whatever follows it.
pub proof fn lemma_bytes_round_trip(raw: Seq<u8>, tail: Seq<u8>)
    requires
        raw.len() <= i32::MAX,
    ensures
        parse_bytes(encode_bytes(raw) + tail) == Ok::<_, ParseError>((raw, tail)),
        parse_bytes_opt(encode_bytes(raw) + tail) == Ok::<_, ParseError>((Some(raw), tail)),
        encode_bytes(raw).len() == 4 + raw.len(),
{
    lemma_int_round_trip(raw.len() as i32, raw + tail);
    lemma_raw_round_trip(raw, tail);
    assert(encode_bytes(raw) + tail =~= encode_int(raw.len() as i32) + (raw + tail));
}

/// An optional `[bytes]` reads back as written. In particular no value is
/// written as the four bytes of -1 and read back as no value.
pub proof fn lemma_bytes_opt_round_trip(raw: Option<Seq<u8>>, tail: Seq<u8>)
    requires
        raw matches Some(b) ==> b.len() <= i32::MAX,
    ensures
        parse_bytes_opt(encode_bytes_opt(raw) + tail) == Ok::<_, ParseError>((raw, tail)),
        raw is None ==> encode_bytes_opt(raw) == seq![0xffu8, 0xffu8, 0xffu8, 0xffu8],
{
    match raw {
        None => {
            lemma_int_round_trip(-1i32, tail);
            assert(encode_bytes_opt(raw) =~= seq![0xffu8, 0xffu8, 0xffu8, 0xffu8]);
        },
        Some(b) => {
            lemma_bytes_round_trip(b, tail);
        },
    }
}

/// A `[short bytes]` reads back as the blob written, whatever follows it.
pub proof fn lemma_short_bytes_round_trip(raw: Seq<u8>, tail: Seq<u8>)
    requires
        raw.len() <= u16::MAX,
    ensures
        parse_short_bytes(encode_short_bytes(raw) + tail) == Ok::<_, ParseError>((raw, tail)),
{
    lemma_short_round_trip(raw.len() as u16, raw + tail);
    lemma_raw_round_trip(raw, tail);
    assert(encode_short_bytes(raw) + tail =~= encode_short(raw.len() as u16) + (raw + tail));
}

// ---------------------------------------------------------------------------
// Calls into byteorder, bytes and core
// ---------------------------------------------------------------------------
/// `byteorder::BigEndian::read_u16`: the first two bytes as an unsigned
/// number, most significant byte first. It panics on a shorter slice.
#[verifier::external_body]
pub(crate) fn be_read_u16(buf: &[u8]) -> (v: u16)
    requires
        buf@.len() >= 2,
    ensures
        v as int == be_u16(buf@),
{
    BigEndian::read_u16(buf)
}

/// `byteorder::BigEndian::read_i16`: the first two bytes as a number in
/// two's complement. It panics on a shorter slice.
#[verifier::external_body]
pub(crate) fn be_read_i16(buf: &[u8]) -> (v: i16)
    requires
        buf@.len() >= 2,
    ensures
        v as int == as_signed(be_u16(buf@), 0x1_0000),
{
    BigEndian::read_i16(buf)
}

/// `byteorder::BigEndian::read_i32`: the first four bytes as a number in
/// two's complement. It panics on a shorter slice.
#[verifier::external_body]
pub(crate) fn be_read_i32(buf: &[u8]) -> (v: i32)
    requires
        buf@.len() >= 4,
    ensures
        v as int == as_signed(be_u32(buf@), 0x1_0000_0000),
{
    BigEndian::read_i32(buf)
}

/// `byteorder::BigEndian::read_i64`: the first eight bytes as a number in
/// two's complement. It panics on a shorter slice.
#[verifier::external_body]
pub(crate) fn be_read_i64(buf: &[u8]) -> (v: i64)
    requires
        buf@.len() >= 8,
    ensures
        v as int == as_signed(be_u64(buf@), 0x1_0000_0000_0000_0000),
{
    BigEndian::read_i64(buf)
}

/// `byteorder::BigEndian::read_u64`: the first eight bytes as an unsigned
/// number. It panics on a shorter slice.
#[verifier::external_body]
pub(crate) fn be_read_u64(buf: &[u8]) -> (v: u64)
    requires
        buf@.len() >= 8,
    ensures
        v as int == be_u64(buf@),
{
    BigEndian::read_u64(buf)
}

/// `bytes::Buf::advance` on a byte slice: the cursor moves `cnt` bytes on.
/// It panics where fewer are left.
#[verifier::external_body]
pub(crate) fn advance(buf: &mut &[u8], cnt: usize)
    requires
        cnt <= old(buf)@.len(),
    ensures
        final(buf)@ == old(buf)@.skip(cnt as int),
{
    buf.advance(cnt)
}

/// `bytes::BufMut::put_u16` on a `Vec<u8>`: the two bytes of `v` are added
/// at the end, most significant first.
#[verifier::external_body]
pub(crate) fn put_u16(out: &mut Vec<u8>, v: u16)
    ensures
        final(out)@ == old(out)@ + u16_be_bytes(v as int),
{
    out.put_u16(v)
}

/// `bytes::BufMut::put_i16` on a `Vec<u8>`: the two bytes of `v` in two's
/// complement are added at the end, most significant first.
#[verifier::external_body]
pub(crate) fn put_i16(out: &mut Vec<u8>, v: i16)
    ensures
        final(out)@ == old(out)@ + u16_be_bytes(as_unsigned(v as int, 0x1_0000)),
{
    out.put_i16(v)
}

/// `bytes::BufMut::put_i32` on a `Vec<u8>`: the four bytes of `v` in two's
/// complement are added at the end, most significant first.
#[verifier::external_body]
pub(crate) fn put_i32(out: &mut Vec<u8>, v: i32)
    ensures
        final(out)@ == old(out)@ + u32_be_bytes(as_unsigned(v as int, 0x1_0000_0000)),
{
    out.put_i32(v)
}

/// `bytes::BufMut::put_i64` on a `Vec<u8>`: the eight bytes of `v` in two's
/// complement are added at the end, most significant first.
#[verifier::external_body]
pub(crate) fn put_i64(out: &mut Vec<u8>, v: i64)
    ensures
        final(out)@ == old(out)@ + u64_be_bytes(as_unsigned(v as int, 0x1_0000_0000_0000_0000)),
{
    out.put_i64(v)
}

/// `bytes::BufMut::put_u64` on a `Vec<u8>`: the eight bytes of `v` are added
/// at the end, most significant first.
#[verifier::external_body]
pub(crate) fn put_u64(out: &mut Vec<u8>, v: u64)
    ensures
        final(out)@ == old(out)@ + u64_be_bytes(v as int),
{
    out.put_u64(v)
}

/// `bytes::BufMut::put_slice` on a `Vec<u8>`: the bytes of `src` are added
/// at the end.
#[verifier::external_body]
pub(crate) fn put_slice(out: &mut Vec<u8>, src: &[u8])
    ensures
        final(out)@ == old(out)@ + src@,
{
    out.put_slice(src)
}

/// `bytes::Bytes`, a buffer of bytes that is cheap to hand on. Nothing of
/// its inside is known here but what `bytes_of` names.
#[verifier::external_type_specification]
#[verifier::external_body]
pub struct ExBytes(bytes::Bytes);

/// The bytes that a `bytes::Bytes` holds, in their order.
pub uninterp spec fn bytes_of(b: bytes::Bytes) -> Seq<u8>;

/// `Bytes::from` on a `Vec<u8>`: the buffer takes the vector over and holds
/// its bytes.
#[verifier::external_body]
pub(crate) fn bytes_from_vec(v: Vec<u8>) -> (b: Bytes)
    ensures
        bytes_of(b) == v@,
{
    Bytes::from(v)
}

/// `Bytes::as_ref`: the bytes that the buffer holds, as a slice.
#[verifier::external_body]
pub(crate) fn bytes_as_slice(b: &Bytes) -> (r: &[u8])
    ensures
        r@ == bytes_of(*b),
{
    b.as_ref()
}

/// `core::str::Utf8Error`, what `core::str::from_utf8` fails with. Nothing
/// of its inside is used.
#[verifier::external_type_specification]
#[verifier::external_body]
pub struct ExUtf8Error(core::str::Utf8Error);

/// `core::str::from_utf8` succeeds on exactly the slices that are UTF-8, and
/// the string it returns has the bytes of the slice.
pub assume_specification[ core::str::from_utf8 ](v: &[u8]) -> (r: core::result::Result<
    &str,
    core::str::Utf8Error,
>)
    ensures
        r is Ok <==> valid_utf8(v@),
        r matches Ok(s) ==> s.spec_bytes() == v@,
;

// ---------------------------------------------------------------------------
// Readers
// ---------------------------------------------------------------------------
broadcast use crate::frame::tail::group_tail;

/// Whether `flags` has a bit of `mask` set.
pub open spec fn flag_set(flags: i32, mask: i32) -> bool {
    flags & mask != 0
}

/// Tests a bit of a flags field.
pub fn has_flag(flags: i32, mask: i32) -> (r: bool)
    ensures
        r == flag_set(flags, mask),
{
    flags & mask != 0
}

/// Takes the next `count` bytes.
pub fn read_raw_bytes<'a>(count: usize, buf: &mut &'a [u8]) -> (r: Result<&'a [u8], ParseError>)
    ensures
        outcome_view(r, final(buf)@) == parse_raw(old(buf)@, count as nat),
        is_tail(final(buf)@, old(buf)@),
{
    if buf.len() < count {
        return Err(ParseError::ShortRead);
    }
    let head = slice_subrange(*buf, 0, count);
    advance(buf, count);
    Ok(head)
}

/// Reads a `[short]`.
pub fn read_short(buf: &mut &[u8]) -> (r: Result<u16, ParseError>)
    ensures
        outcome(r, final(buf)@) == parse_short(old(buf)@),
        is_tail(final(buf)@, old(buf)@),
{
    if buf.len() < 2 {
        return Err(ParseError::ShortRead);
    }
    let v: u16 = be_read_u16(*buf);
    advance(buf, 2);
    Ok(v)
}

/// Reads an `[int]`.
pub fn read_int(buf: &mut &[u8]) -> (r: Result<i32, ParseError>)
    ensures
        outcome(r, final(buf)@) == parse_int(old(buf)@),
        is_tail(final(buf)@, old(buf)@),
{
    if buf.len() < 4 {
        return Err(ParseError::ShortRead);
    }
    let v: i32 = be_read_i32(*buf);
    advance(buf, 4);
    Ok(v)
}

/// Reads an `[int]` that must not be negative.
pub fn read_int_length(buf: &mut &[u8]) -> (r: Result<u32, ParseError>)
    ensures
        outcome(r, final(buf)@) == parse_int_length(old(buf)@),
        is_tail(final(buf)@, old(buf)@),
{
    let v: i32 = read_int(buf)?;
    if v < 0 {
        return Err(ParseError::BadData(BadDataReason::NegativeLength { value: v }));
    }
    Ok(v as u32)
}

/// Reads a `[string]`. The text is borrowed from the input.
pub fn read_string<'a>(buf: &mut &'a [u8]) -> (r: Result<&'a str, ParseError>)
    ensures
        outcome_view(r, final(buf)@) == parse_string(old(buf)@),
        is_tail(final(buf)@, old(buf)@),
{
    let len: u16 = read_short(buf)?;
    let raw = read_raw_bytes(len as usize, buf)?;
    match core::str::from_utf8(raw) {
        Ok(s) => {
            proof {
                vstd::utf8::encode_utf8_decode_utf8(s@);
            }
            Ok(s)
        },
        Err(_) => Err(ParseError::BadData(BadDataReason::InvalidUtf8)),
    }
}

/// Reads a `[bytes]` that must be present. The blob is borrowed from the
/// input.
pub fn read_bytes<'a>(buf: &mut &'a [u8]) -> (r: Result<&'a [u8], ParseError>)
    ensures
        outcome_view(r, final(buf)@) == parse_bytes(old(buf)@),
        is_tail(final(buf)@, old(buf)@),
{
    let len: u32 = read_int_length(buf)?;
    let raw = read_raw_bytes(len as usize, buf)?;
    Ok(raw)
}

/// Reads a `[bytes]` that may be absent.
pub fn read_bytes_opt<'a>(buf: &mut &'a [u8]) -> (r: Result<Option<&'a [u8]>, ParseError>)
    ensures
        outcome_opt_view(r, final(buf)@) == parse_bytes_opt(old(buf)@),
        is_tail(final(buf)@, old(buf)@),
{
    let len: i32 = read_int(buf)?;
    if len < 0 {
        return Ok(None);
    }
    let raw = read_raw_bytes(len as usize, buf)?;
    Ok(Some(raw))
}

/// Reads a `[short bytes]`. The blob is borrowed from the input.
pub fn read_short_bytes<'a>(buf: &mut &'a [u8]) -> (r: Result<&'a [u8], ParseError>)
    ensures
        outcome_view(r, final(buf)@) == parse_short_bytes(old(buf)@),
        is_tail(final(buf)@, old(buf)@),
{
    let len: u16 = read_short(buf)?;
    let raw = read_raw_bytes(len as usize, buf)?;
    Ok(raw)
}

// ---------------------------------------------------------------------------
// Writers
// ---------------------------------------------------------------------------
/// Writes a `[short]`.
pub fn write_short(v: u16, out: &mut Vec<u8>)
    ensures
        final(out)@ == old(out)@ + encode_short(v),
{
    put_u16(out, v);
}

/// Writes an `[int]`.
pub fn write_int(v: i32, out: &mut Vec<u8>)
    ensures
        final(out)@ == old(out)@ + encode_int(v),
{
    put_i32(out, v);
}

/// Writes a `[string]`. A text whose UTF-8 form is longer than 65535 bytes
/// is refused and nothing is written.
pub fn write_string(text: &str, out: &mut Vec<u8>) -> (r: Result<(), EncodeError>)
    ensures
        r is Ok <==> encode_utf8(text@).len() <= u16::MAX,
        r is Ok ==> final(out)@ == old(out)@ + encode_string(text@),
        r matches Err(e) ==> e == EncodeError::TooLong && final(out)@ == old(out)@,
{
    let raw = text.as_bytes();
    if raw.len() > u16::MAX as usize {
        return Err(EncodeError::TooLong);
    }
    write_short(raw.len() as u16, out);
    put_slice(out, raw);
    assert(out@ =~= old(out)@ + encode_string(text@));
    Ok(())
}

/// Writes a `[bytes]` that is present. A blob of more than `i32::MAX`
/// bytes is refused and nothing is written.
pub fn write_bytes(raw: &[u8], out: &mut Vec<u8>) -> (r: Result<(), EncodeError>)
    ensures
        r is Ok <==> raw@.len() <= i32::MAX,
        r is Ok ==> final(out)@ == old(out)@ + encode_bytes(raw@),
        r matches Err(e) ==> e == EncodeError::TooLong && final(out)@ == old(out)@,
{
    if raw.len() > i32::MAX as usize {
        return Err(EncodeError::TooLong);
    }
    write_int(raw.len() as i32, out);
    put_slice(out, raw);
    assert(out@ =~= old(out)@ + encode_bytes(raw@));
    Ok(())
}

/// Writes a `[bytes]` that may be absent: no value is written as the length
/// -1.
pub fn write_bytes_opt(raw: Option<&[u8]>, out: &mut Vec<u8>) -> (r: Result<(), EncodeError>)
    ensures
        r is Ok <==> (raw matches Some(b) ==> b@.len() <= i32::MAX),
        r is Ok ==> final(out)@ == old(out)@ + encode_bytes_opt(
            match raw {
                Some(b) => Some(b@),
                None => None,
            },
        ),
        r matches Err(e) ==> e == EncodeError::TooLong && final(out)@ == old(out)@,
{
    match raw {
        None => {
            write_int(-1, out);
            Ok(())
        },
        Some(b) => write_bytes(b, out),
    }
}

/// Writes a `[short bytes]`. A blob of more than 65535 bytes is refused and
/// nothing is written.
pub fn write_short_bytes(raw: &[u8], out: &mut Vec<u8>) -> (r: Result<(), EncodeError>)
    ensures
        r is Ok <==> raw@.len() <= u16::MAX,
        r is Ok ==> final(out)@ == old(out)@ + encode_short_bytes(raw@),
        r matches Err(e) ==> e == EncodeError::TooLong && final(out)@ == old(out)@,
{
    if raw.len() > u16::MAX as usize {
        return Err(EncodeError::TooLong);
    }
    write_short(raw.len() as u16, out);
    put_slice(out, raw);
    assert(out@ =~= old(out)@ + encode_short_bytes(raw@));
    Ok(())
}

/// Writes a `[long string]`. A text whose UTF-8 form is longer than
/// `i32::MAX` bytes is refused and nothing is written.
pub fn write_long_string(text: &str, out: &mut Vec<u8>) -> (r: Result<(), EncodeError>)
    ensures
        r is Ok <==> encode_utf8(text@).len() <= i32::MAX,
        r is Ok ==> final(out)@ == old(out)@ + encode_long_string(text@),
        r matches Err(e) ==> e == EncodeError::TooLong && final(out)@ == old(out)@,
{
    write_bytes(text.as_bytes(), out)
}

} // verus!
