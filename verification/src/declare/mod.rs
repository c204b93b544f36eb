//! The rules by which task types are declared.
//!
//! A task type is a struct or an enum with attributes. What the attributes say is given here as
//! plain values; what comes out says which traits to implement and how, or why the declaration
//! is refused.

pub mod client_task;
pub mod client_task_enum;
pub mod server_task_enum;
pub mod syntax;
