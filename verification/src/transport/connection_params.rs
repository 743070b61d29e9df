use crate::transport::Compression;
use vstd::prelude::*;

verus! {

/// Custom connection parameters
#[derive(Copy, Clone, Debug)]
pub struct ConnectionParams {
    pub compression: Option<Compression>,
    pub nodelay: bool,
}

impl Default for ConnectionParams {
    /// No compression, and no delay of small packets.
    fn default() -> (r: Self)
        ensures
            r.compression is None,
            r.nodelay,
    {
        Self { compression: None, nodelay: true }
    }
}

} // verus!
