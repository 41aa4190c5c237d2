//! Core logic of an interactive POSIX-style command shell.
//!
//! The crate covers the parts of a shell whose behaviour can be stated and
//! proved: the quote-aware lexer that splits a line into argument words, the
//! redirection parser, the pipeline splitter, the builtin command registry and
//! the builtin commands themselves, the command resolver, and the pipeline
//! executor modelled as a state machine that a thin driver steps through.
//! Everything that touches the operating system (reading lines, spawning
//! children, changing directory, opening files) stays outside; the driver
//! hands the results of those calls back in as plain values.

pub mod builtins;
pub mod cli;
pub mod completion;
pub mod errors;
pub mod executor;
pub mod history;
pub mod lexer;
pub mod pipeline;
pub mod redirection;
pub mod registry;
pub mod repl;
pub mod resolver;
pub mod text;

pub use errors::{ShellError, ShellResult};
