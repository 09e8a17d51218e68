//! Horme: a verified core for a terminal to-do list.
//!
//! The library holds the task model, the ordered task store with its
//! selection, the markdown codec that persists a store, the key-driven
//! screen state machine, and the color palette model. Terminal I/O,
//! rendering and file access live outside the library.

pub mod codec;
pub mod colors;
pub mod screen;
pub mod store;
pub mod task;

pub use screen::App;
pub use screen::CurrentScreen;
pub use screen::CurrentlyEditing;
pub use screen::Key;

pub use store::StoreError;
pub use store::TodoList;
pub use task::Status;
pub use task::Subtask;
pub use task::Task;
