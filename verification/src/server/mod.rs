//! The server side: tasks, dispatch, and what a connection does.

pub mod conn;
pub mod dispatch;
pub mod listen;
pub mod noti;
pub mod task;
