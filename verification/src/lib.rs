//! A task-launcher engine: loads task definitions from configuration files,
//! filters them by per-item shell predicates, and prepares the selected
//! task's command for execution.
//!
//! The engine itself never touches the file system or spawns processes.
//! Callers read files and run commands, and feed the results back in; the
//! engine's state machines decide what to read, what to run, and what each
//! outcome means.

pub mod error;
pub mod laws;
pub mod load;
pub mod parse;
pub mod source;
pub mod task;
pub mod item;

pub use error::ActionError;
pub use error::ParseError;
pub use error::TaskError;
pub use item::TaskItem;
pub use load::Loader;
pub use source::Pull;
pub use source::TaskSource;
pub use task::default_path;
pub use task::Task;
pub use task::TaskConfig;
