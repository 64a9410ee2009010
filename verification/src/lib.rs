//! Sequential thinking: thoughts, sessions, and their store.
//!
//! A client thinks in numbered thoughts, which may revise earlier ones or
//! branch off from them. The thoughts of a chain make a session; a connection
//! thinks in one chain after the other. A session lives in memory, in an actor of
//! its own. When nobody uses it, or when the server shuts down, it is persisted to
//! disk under its connection, and it is restored when that connection goes on
//! thinking.
//!
//! What talks to the outside (the file system, actors and channels, the clock)
//! is written as a job: a job says which request comes next, and goes on with
//! the outcome of that request.

pub mod branches;
pub mod calls;
pub mod clock;
pub mod command_order;
pub mod disk_cleanup;
pub mod logging;
pub mod path;
pub mod persist;
pub mod persistence;
pub mod processor;
pub mod prompts;
pub mod restore;
pub mod sequence_manager;
pub mod server;
pub mod session;
pub mod session_id;
pub mod session_map;
pub mod shutdown;
pub mod string_utils;
pub mod thought_box;
pub mod thought_files;
pub mod thought_processor;
pub mod thought_restore;
pub mod thought_round_trip;
pub mod tool;
pub mod trait_impl;
pub mod types;

pub use tool::SequentialThinkingTool;
pub use types::{SessionStateSnapshot, ThoughtData};
