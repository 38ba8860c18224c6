//! What a job adds to the statistics of the store.

use vstd::prelude::*;

verus! {

/// Numbers of bytes.
#[derive(Debug, Clone, Copy, PartialEq, Eq, Structural)]
pub struct JobStats {
    pub read_file_bytes: u64,
    pub rewrite_input_bytes: u64,
    pub rewrite_bytes: u64,
    pub compact_input_bytes: u64,
    pub compact_write_bytes: u64,
}

} // verus!
