//! What holds of the library as a whole.
//!
//! Each function here states a law. Where it can, a law speaks of calls: what a call with these
//! arguments may return and leave behind, whatever the function says of itself.

pub mod client;
pub mod declare_client;
pub mod declare_enum;
pub mod declare_server;
pub mod failover;
pub mod net;
pub mod pool;
pub mod protocol;
pub mod request;
pub mod response;
pub mod server;
pub mod task;
pub mod text;
pub mod timer;
