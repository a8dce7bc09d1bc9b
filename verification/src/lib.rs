//! A content-addressable object store, verified.
//!
//! Files and directory trees are persisted as objects: the uncompressed
//! payload (a header-prefixed byte sequence for a file, a list of entry
//! lines for a directory) is hashed to obtain the object's content
//! address, and the compressed payload is stored under a path derived
//! from that address. Reading an object decompresses it and re-verifies
//! the address against the bytes handed back.

pub mod bytes;
pub mod codec;
pub mod error;
pub mod hash;
pub mod laws;
pub mod object;
pub mod payload;
pub mod store;
pub mod tree;
