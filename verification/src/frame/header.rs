//! The frame: a header of nine bytes and a body of the length that the
//! header gives.
use crate::frame::frame_errors::ParseError;
use crate::frame::tail::is_tail;
use crate::frame::types::{
    outcome, parse_int_length, parse_raw, parse_short, read_int_length, read_raw_bytes,
    read_short,
};
use vstd::prelude::*;

verus! {

broadcast use crate::frame::tail::group_tail;

/// The opcode of an ERROR response.
pub const OPCODE_ERROR: u8 = 0x00;

/// The opcode of a READY response.
pub const OPCODE_READY: u8 = 0x02;

/// The opcode of an AUTHENTICATE response.
pub const OPCODE_AUTHENTICATE: u8 = 0x03;

/// The opcode of a SUPPORTED response.
pub const OPCODE_SUPPORTED: u8 = 0x06;

/// The opcode of a RESULT response.
pub const OPCODE_RESULT: u8 = 0x08;

/// The opcode of an EVENT response.
pub const OPCODE_EVENT: u8 = 0x0C;

/// The header of a frame.
#[derive(Debug, Clone, Copy, PartialEq, Eq)]
pub struct FrameHeader {
    pub version: u8,
    pub flags: u8,
    /// The stream that pairs the response with its request.
    pub stream: u16,
    pub opcode: u8,
    /// The number of bytes of the body.
    pub length: u32,
}

/// A header: version, flags, stream as a `[short]`, opcode, and the length
/// of the body as an `[int]` that must not be negative.
pub open spec fn parse_frame_header(s: Seq<u8>) -> Result<(FrameHeader, Seq<u8>), ParseError> {
    if s.len() < 2 {
        Err(ParseError::ShortRead)
    } else {
        match parse_short(s.skip(2)) {
            Err(e) => Err(e),
            Ok((stream, rest)) => if rest.len() < 1 {
                Err(ParseError::ShortRead)
            } else {
                match parse_int_length(rest.skip(1)) {
                    Err(e) => Err(e),
                    Ok((length, after)) => Ok(
                        (
                            FrameHeader {
                                version: s[0],
                                flags: s[1],
                                stream,
                                opcode: rest[0],
                                length,
                            },
                            after,
                        ),
                    ),
                }
            },
        }
    }
}

/// A frame: a header and the body, which has as many bytes as the header
/// says.
pub open spec fn parse_frame(s: Seq<u8>) -> Result<((FrameHeader, Seq<u8>), Seq<u8>), ParseError> {
    match parse_frame_header(s) {
        Err(e) => Err(e),
        Ok((header, rest)) => match parse_raw(rest, header.length as nat) {
            Err(e) => Err(e),
            Ok((body, rest)) => Ok(((header, body), rest)),
        },
    }
}

/// Reads the header of a frame.
pub fn read_frame_header(buf: &mut &[u8]) -> (r: Result<FrameHeader, ParseError>)
    ensures
        outcome(r, final(buf)@) == parse_frame_header(old(buf)@),
        is_tail(final(buf)@, old(buf)@),
{
    let head = read_raw_bytes(2, buf)?;
    let version: u8 = head[0];
    let flags: u8 = head[1];
    let stream: u16 = read_short(buf)?;
    let opcode: u8 = read_raw_bytes(1, buf)?[0];
    let length: u32 = read_int_length(buf)?;
    Ok(FrameHeader { version, flags, stream, opcode, length })
}

/// Reads a frame: the header and the body. The body is borrowed from the
/// input and handed on as it is, whatever its opcode.
pub fn read_frame<'a>(buf: &mut &'a [u8]) -> (r: Result<(FrameHeader, &'a [u8]), ParseError>)
    ensures
        (match r {
            Ok((header, body)) => Ok(((header, body@), final(buf)@)),
            Err(e) => Err(e),
        }) == parse_frame(old(buf)@),
        is_tail(final(buf)@, old(buf)@),
{
    let header = read_frame_header(buf)?;
    let body = read_raw_bytes(header.length as usize, buf)?;
    Ok((header, body))
}

} // verus!
