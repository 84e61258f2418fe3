//! Verified core of a session-based coordination-service client.
//!
//! The library is the pure heart of the client: the wire codec, the frame
//! transport, the multiplexing connection state, and the lifecycle manager.
//! All I/O stays outside; callers feed bytes and events in and carry bytes
//! and actions out.

pub mod client;
pub mod codec;
pub mod error;
pub mod conn;
pub mod manager;
pub mod transport;
pub mod types;
pub mod wire;
