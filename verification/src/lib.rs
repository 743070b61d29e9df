//! Wire-protocol layer of a CQL driver: the decoder of RESULT frame bodies,
//! the matching encoder, and the in-memory model of CQL types and values.
//!
//! Every executable function carries a contract over a mathematical model of
//! the wire format, so that decoding is known to be total, free of panics and
//! exactly the inverse of encoding.

pub mod cql_to_rust;
pub mod frame;
pub mod statement;
pub mod transport;
