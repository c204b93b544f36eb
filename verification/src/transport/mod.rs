//! What a transport reads and writes, apart from the reading and writing.

pub mod net;
pub mod quic;
pub mod request;
pub mod response;
