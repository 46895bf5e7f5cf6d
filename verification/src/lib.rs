//! A minimal single-file transfer protocol: one 4-byte big-endian length
//! prefix followed by the file's raw bytes, with length `0` serving as the
//! "file not found" sentinel.
//!
//! This crate holds the verified protocol logic: encoding and decoding the
//! length prefix, building the server's wire message from the file contents,
//! and parsing the bytes a client received back into the file contents.
//! The socket and file-system I/O around it lives outside the library.

pub mod codec;
pub mod message;
