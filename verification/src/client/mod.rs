//! The client side: tasks, the connection, the pool of connections and failover.

pub mod caller;
pub mod failover;
pub mod pool;
pub mod stream;
pub mod task;
pub mod timer;
pub mod variant;
