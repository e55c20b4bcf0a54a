//! A marshaling bridge: a record type crosses a byte-buffer boundary as a
//! small JSON encoding, a native computation runs on the decoded value, and
//! every failure is reported through one textual error channel together with
//! a status code.

pub mod world;
pub mod codec;
pub mod channel;
pub mod utf8;
pub mod bridge;
