//! What a connection is set up with.
pub mod connection_params;

use vstd::prelude::*;

verus! {

/// The wire protocol compression algorithm.
#[derive(Copy, Clone, Debug)]
pub enum Compression {
    /// LZ4 compression algorithm.
    LZ4,
    /// Snappy compression algorithm.
    Snappy,
}

impl Compression {
    /// The name under which the algorithm is negotiated with the server.
    pub open spec fn name(&self) -> Seq<char> {
        match self {
            Compression::LZ4 => "lz4"@,
            Compression::Snappy => "snappy"@,
        }
    }

    /// The name under which the algorithm is negotiated with the server:
    /// `lz4` or `snappy`.
    pub fn to_string(&self) -> (r: String)
        ensures
            r@ == self.name(),
    {
        match self {
            Compression::LZ4 => "lz4".to_owned(),
            Compression::Snappy => "snappy".to_owned(),
        }
    }
}

} // verus!
