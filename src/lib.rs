//! A persistent, ordered task list: the in-memory model and its index-based
//! batch mutations, each stated over a mathematical view of the list.

pub mod label;
pub mod laws;
pub mod command;
pub mod list;

pub use label::sanitize_label;
pub use command::Command;
pub use list::{Entry, Task, Todo, TodoError};
