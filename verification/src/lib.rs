//! A modular RPC framework: the wire protocol, the task bookkeeping of a client,
//! the request handling of a server, the framing of the TCP and QUIC transports and the
//! rules by which task types are declared. Everything here is free of I/O; what to
//! read, write, spawn or wait for next is handed to the caller as plain values.

pub mod buffer;
pub mod call;
pub mod channel;
pub mod client;
pub mod codec;
pub mod declare;
pub mod error;
pub mod fxmap;
pub mod laws;
pub mod le;
pub mod proto;
pub mod server;
pub mod text;
pub mod transport;
