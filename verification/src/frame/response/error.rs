//! The body of an ERROR frame.
use crate::frame::frame_errors::ParseError;
use crate::frame::tail::is_tail;
use crate::frame::types::{
    bytes_from_vec, bytes_of, outcome_view, parse_int, parse_short_bytes, parse_string,
    read_int, read_short_bytes, read_string,
};
use bytes::Bytes;
use vstd::prelude::*;
use vstd::slice::slice_to_vec;

verus! {

broadcast use crate::frame::tail::group_tail;

/// The code of the error that says that the server does not know the id of
/// a prepared statement.
pub const CODE_UNPREPARED: i32 = 0x2500;

/// An error that the server reported.
#[derive(Debug)]
pub enum ServerError {
    /// The server does not know the prepared statement with this id.
    Unprepared { message: String, id: Bytes },
    /// Any other error, with its code.
    Other { code: i32, message: String },
}

/// What `ServerError` stands for in contracts.
pub enum ServerErrorView {
    Unprepared { message: Seq<char>, id: Seq<u8> },
    Other { code: i32, message: Seq<char> },
}

impl View for ServerError {
    type V = ServerErrorView;

    open spec fn view(&self) -> ServerErrorView {
        match self {
            ServerError::Unprepared { message, id } => ServerErrorView::Unprepared {
                message: message@,
                id: bytes_of(*id),
            },
            ServerError::Other { code, message } => ServerErrorView::Other {
                code: *code,
                message: message@,
            },
        }
    }
}

/// The body of an ERROR frame: an `[int]` code and a `[string]` message,
/// followed where the code is that of an unknown prepared statement by the
/// statement's id as `[short bytes]`. What follows the message of any other
/// error is left.
pub open spec fn parse_error(s: Seq<u8>) -> Result<(ServerErrorView, Seq<u8>), ParseError> {
    match parse_int(s) {
        Err(e) => Err(e),
        Ok((code, rest)) => match parse_string(rest) {
            Err(e) => Err(e),
            Ok((message, rest)) => if code == CODE_UNPREPARED {
                match parse_short_bytes(rest) {
                    Err(e) => Err(e),
                    Ok((id, rest)) => Ok((ServerErrorView::Unprepared { message, id }, rest)),
                }
            } else {
                Ok((ServerErrorView::Other { code, message }, rest))
            },
        },
    }
}

/// Decodes the body of an ERROR frame.
pub fn deser_error(buf: &mut &[u8]) -> (r: Result<ServerError, ParseError>)
    ensures
        outcome_view(r, final(buf)@) == parse_error(old(buf)@),
        is_tail(final(buf)@, old(buf)@),
{
    let code: i32 = read_int(buf)?;
    let message = read_string(buf)?.to_owned();
    if code == CODE_UNPREPARED {
        let id = bytes_from_vec(slice_to_vec(read_short_bytes(buf)?));
        Ok(ServerError::Unprepared { message, id })
    } else {
        Ok(ServerError::Other { code, message })
    }
}

} // verus!
