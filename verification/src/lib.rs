//! A user-space TCP connection engine over raw IPv4 frames.
//!
//! The engine accepts inbound connections on a virtual interface: it drives
//! the RFC 793 handshake, in-order data acknowledgment, and teardown for each
//! connection, keyed by the pair of endpoints. Header parsing and
//! serialization are delegated to a codec dependency; device I/O stays with
//! the caller.

pub mod codec;
pub mod conn;
pub mod engine;
pub mod segment;
pub mod seqnum;
pub mod table;
pub mod tracker;
