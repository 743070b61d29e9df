use scylla::frame::frame_errors::{BadDataReason, EncodeError, ParseError};
use scylla::frame::types::{
    has_flag, read_bytes, read_bytes_opt, read_int, read_int_length, read_raw_bytes, read_short,
    read_short_bytes, read_string, write_bytes, write_bytes_opt, write_int, write_short,
    write_short_bytes, write_string,
};

#[test]
fn read_short_is_big_endian_and_unsigned() {
    let data = [0xff, 0xfe, 0x01];
    let mut buf = &data[..];
    assert_eq!(read_short(&mut buf), Ok(0xfffe));
    assert_eq!(buf, &[0x01][..]);
}

#[test]
fn read_short_needs_two_bytes() {
    let data = [0x01];
    let mut buf = &data[..];
    assert_eq!(read_short(&mut buf), Err(ParseError::ShortRead));
}

#[test]
fn read_int_is_big_endian_and_signed() {
    let data = [0x00, 0x00, 0x01, 0x02, 0xff, 0xff, 0xff, 0xfe];
    let mut buf = &data[..];
    assert_eq!(read_int(&mut buf), Ok(258));
    assert_eq!(read_int(&mut buf), Ok(-2));
    assert!(buf.is_empty());
    assert_eq!(read_int(&mut buf), Err(ParseError::ShortRead));
}

#[test]
fn read_int_length_refuses_negative_numbers() {
    let data = [0x80, 0x00, 0x00, 0x00];
    let mut buf = &data[..];
    assert_eq!(
        read_int_length(&mut buf),
        Err(ParseError::BadData(BadDataReason::NegativeLength { value: i32::MIN }))
    );
    let data = [0x7f, 0xff, 0xff, 0xff];
    let mut buf = &data[..];
    assert_eq!(read_int_length(&mut buf), Ok(0x7fff_ffff));
}

#[test]
fn read_raw_bytes_takes_what_is_asked_for() {
    let data = [1, 2, 3, 4, 5];
    let mut buf = &data[..];
    assert_eq!(read_raw_bytes(2, &mut buf), Ok(&[1u8, 2][..]));
    assert_eq!(buf, &[3, 4, 5][..]);
    assert_eq!(read_raw_bytes(4, &mut buf), Err(ParseError::ShortRead));
    assert_eq!(read_raw_bytes(0, &mut buf), Ok(&[][..]));
}

#[test]
fn read_string_borrows_the_text() {
    let data = [0x00, 0x03, b'a', 0xc3, 0xa9, b'!'];
    let mut buf = &data[..];
    assert_eq!(read_string(&mut buf), Ok("a\u{e9}"));
    assert_eq!(buf, &[b'!'][..]);
}

#[test]
fn read_string_refuses_bad_utf8_and_short_input() {
    let data = [0x00, 0x02, 0xc3, 0x28];
    let mut buf = &data[..];
    assert_eq!(
        read_string(&mut buf),
        Err(ParseError::BadData(BadDataReason::InvalidUtf8))
    );
    let data = [0x00, 0x05, b'a'];
    let mut buf = &data[..];
    assert_eq!(read_string(&mut buf), Err(ParseError::ShortRead));
}

#[test]
fn read_bytes_needs_a_length_that_is_not_negative() {
    let data = [0x00, 0x00, 0x00, 0x02, 9, 8, 7];
    let mut buf = &data[..];
    assert_eq!(read_bytes(&mut buf), Ok(&[9u8, 8][..]));
    assert_eq!(buf, &[7][..]);
    let data = [0xff, 0xff, 0xff, 0xff];
    let mut buf = &data[..];
    assert_eq!(
        read_bytes(&mut buf),
        Err(ParseError::BadData(BadDataReason::NegativeLength { value: -1 }))
    );
    let data = [0x00, 0x00, 0x00, 0x03, 1];
    let mut buf = &data[..];
    assert_eq!(read_bytes(&mut buf), Err(ParseError::ShortRead));
}

#[test]
fn null_is_read_from_any_negative_length() {
    let data = [0xff, 0xff, 0xff, 0xff, 0x55];
    let mut buf = &data[..];
    assert_eq!(read_bytes_opt(&mut buf), Ok(None));
    assert_eq!(buf, &[0x55][..]);
    let data = [0xff, 0xff, 0xff, 0xfe];
    let mut buf = &data[..];
    assert_eq!(read_bytes_opt(&mut buf), Ok(None));
    let data = [0x00, 0x00, 0x00, 0x01, 0x2a];
    let mut buf = &data[..];
    assert_eq!(read_bytes_opt(&mut buf), Ok(Some(&[0x2au8][..])));
}

#[test]
fn null_is_written_as_minus_one_and_read_back() {
    let mut out = Vec::new();
    assert_eq!(write_bytes_opt(None, &mut out), Ok(()));
    assert_eq!(out, vec![0xff, 0xff, 0xff, 0xff]);
    let mut buf = &out[..];
    assert_eq!(read_bytes_opt(&mut buf), Ok(None));
    assert!(buf.is_empty());
}

#[test]
fn read_short_bytes_takes_a_short_length() {
    let data = [0x00, 0x02, 0xab, 0xcd, 0xef];
    let mut buf = &data[..];
    assert_eq!(read_short_bytes(&mut buf), Ok(&[0xabu8, 0xcd][..]));
    assert_eq!(buf, &[0xef][..]);
}

#[test]
fn writers_produce_what_the_readers_take() {
    let mut out = vec![0x99];
    write_short(0x0102, &mut out);
    write_int(-2, &mut out);
    assert_eq!(write_string("k\u{e9}", &mut out), Ok(()));
    assert_eq!(write_bytes(&[7, 8], &mut out), Ok(()));
    assert_eq!(write_bytes_opt(Some(&[9]), &mut out), Ok(()));
    assert_eq!(write_short_bytes(&[1, 2, 3], &mut out), Ok(()));
    assert_eq!(
        out,
        vec![
            0x99, 0x01, 0x02, 0xff, 0xff, 0xff, 0xfe, 0x00, 0x03, b'k', 0xc3, 0xa9, 0x00, 0x00,
            0x00, 0x02, 7, 8, 0x00, 0x00, 0x00, 0x01, 9, 0x00, 0x03, 1, 2, 3
        ]
    );
    let mut buf = &out[1..];
    assert_eq!(read_short(&mut buf), Ok(0x0102));
    assert_eq!(read_int(&mut buf), Ok(-2));
    assert_eq!(read_string(&mut buf), Ok("k\u{e9}"));
    assert_eq!(read_bytes(&mut buf), Ok(&[7u8, 8][..]));
    assert_eq!(read_bytes_opt(&mut buf), Ok(Some(&[9u8][..])));
    assert_eq!(read_short_bytes(&mut buf), Ok(&[1u8, 2, 3][..]));
    assert!(buf.is_empty());
}

#[test]
fn a_text_that_is_too_long_for_a_string_is_refused() {
    let text = "x".repeat(0x1_0000);
    let mut out = vec![1, 2];
    assert_eq!(write_string(&text, &mut out), Err(EncodeError::TooLong));
    assert_eq!(out, vec![1, 2]);
    let text = "x".repeat(0xffff);
    assert_eq!(write_string(&text, &mut out), Ok(()));
    assert_eq!(out.len(), 2 + 2 + 0xffff);
    let blob = vec![0u8; 0x1_0000];
    let mut out = Vec::new();
    assert_eq!(write_short_bytes(&blob, &mut out), Err(EncodeError::TooLong));
    assert!(out.is_empty());
}

#[test]
fn flags_are_tested_bit_by_bit() {
    assert!(has_flag(0x0005, 0x0001));
    assert!(!has_flag(0x0005, 0x0002));
    assert!(has_flag(0x0005, 0x0004));
    assert!(!has_flag(0, 0x0001));
}
