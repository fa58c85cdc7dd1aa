//! The logic behind the Flux IDE's desktop shell.
//!
//! Most of it is the terminal session manager: the registry of interactive
//! shell sessions (`registry`), the same registry behind the lock that the
//! whole application shares (`state`), the plan by which a shell is started
//! (`spawn`, `command`), what a session's reader does with every read
//! (`reader`), how bytes are sent to a session's sink (`sink`), the
//! notifications a subscriber receives (`event`) and the failures an
//! operation reports (`error`). Beside it stand the order of a directory
//! listing (`files`) and the plan, the run and the report of a build
//! (`compile`).
//!
//! Opening pseudoterminals, blocking reads, event delivery, the file system
//! and the compiler's process belong to the host application, which hands
//! its handles and its I/O to the functions here.
pub mod command;
pub mod compile;
pub mod error;
pub mod event;
pub mod files;
pub mod reader;
pub mod registry;
pub mod sink;
pub mod spawn;
pub mod state;
pub mod text;
