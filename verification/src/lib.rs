//! A small task list: records, the store that holds them, and the three
//! commands that act on it, each with a proved contract.
//!
//! The library touches no file and prints nothing. The program around it
//! reads the store file and decodes it, hands both to [`load`], runs one
//! [`Command`] with [`execute`], writes the store back when the
//! [`Outcome`] says that it changed, and prints the outcome's lines.

pub mod command;
pub mod laws;
pub mod persistence;
pub mod render;
pub mod store;
pub mod task;

pub use command::{execute, Command, Outcome};
pub use persistence::{load, PersistenceError};
pub use store::TaskStore;
pub use task::{Task, TaskView};
