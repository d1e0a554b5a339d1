//! Verified core of a directory-tree synchronizer.
//!
//! The library fingerprints files by content hash, resolves conflicts
//! between replicas deterministically, and defines the wire protocol
//! (message encoding and length-prefixed framing) used to exchange
//! change notifications between devices.  All file and network I/O is
//! left to the surrounding application, which hands the library plain
//! values and carries its decisions out.

pub mod config;
pub mod coordinator;
pub mod errors;
pub mod file_manager;
pub mod framing;
pub mod hashing;
pub mod network;
pub mod paths;
pub mod protocol;
pub mod text;
