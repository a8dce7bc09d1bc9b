//! The failure outcomes a store operation can surface.

use vstd::prelude::*;

verus! {

/// Why a store operation failed.
#[derive(Clone, Copy, Debug, PartialEq, Eq, Structural)]
pub enum StoreError {
    /// An underlying stream operation failed.
    Io,
    /// A read's recomputed digest does not match the requested digest.
    Integrity,
    /// A directory traversal met an entry that is neither a regular
    /// file nor a directory.
    Unsupported,
}

} // verus!
