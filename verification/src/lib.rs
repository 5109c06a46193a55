//! The core of a small interactive shell: it parses a line into a command,
//! decides whether the shell carries it out itself or a program does, finds
//! the program on the search path, and says what is to be written back.
//!
//! The core does no input or output. Whatever touches the process or the
//! file system is a request to the driver that hosts the shell; see
//! [`host`]. [`repl::Shell`] is the whole loop in that form, and
//! [`command::Command`] one line of it.

pub mod builtin;
pub mod command;
pub mod host;
pub mod path;
pub mod repl;
pub mod status;
pub mod text;
