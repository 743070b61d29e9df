use vstd::prelude::*;

verus! {

/// Why a payload of a plausible length was refused.
#[derive(Debug, Clone, Copy, PartialEq, Eq)]
pub enum BadDataReason {
    /// A string or a text value whose bytes are not UTF-8.
    InvalidUtf8,
    /// An ascii value that holds a byte above `0x7f`.
    NotAscii,
    /// A fixed-width value whose payload has another length.
    WrongLength { expected: usize, actual: usize },
    /// An inet value that is neither 4 nor 16 bytes long.
    InvalidInetLength { actual: usize },
    /// A value that leaves bytes of its payload over.
    TrailingBytes { left: usize },
    /// A negative number where a count or a length is required.
    NegativeLength { value: i32 },
    /// A result body of a kind that the protocol does not define.
    UnknownResultKind { kind: i32 },
    /// Rows whose metadata announces columns but describes another number of them.
    MissingColumnSpecs { col_count: usize, described: usize },
}

/// What can go wrong while a frame body is decoded.
#[derive(Debug, Clone, Copy, PartialEq, Eq)]
pub enum ParseError {
    /// The input ended in the middle of a field.
    ShortRead,
    /// The field was complete but its content is not acceptable.
    BadData(BadDataReason),
    /// A column type whose tag this decoder does not know.
    TypeNotImplemented(u16),
}

/// What can go wrong while a request or a value is encoded.
#[derive(Debug, Clone, Copy, PartialEq, Eq)]
pub enum EncodeError {
    /// The request asks for something that the negotiated protocol does not
    /// offer.
    Unsupported,
    /// A text, a blob or a collection is longer than its length prefix can
    /// say.
    TooLong,
}

} // verus!
