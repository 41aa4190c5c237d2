//! The error taxonomy of the shell.
//!
//! Errors are values: they are returned, printed at the prompt, and never
//! thrown across pipeline boundaries.

use vstd::prelude::*;
use vstd::string::*;

verus! {

/// Everything that can go wrong while handling one line of input.
///
/// Operating-system failure text travels as a plain `String` so that the
/// variants stay transparent to the verifier.
#[derive(Debug, Clone)]
pub enum ShellError {
    /// A command word resolved to neither a builtin nor an executable.
    CommandNotFound(String),
    /// The input source failed, or a line could not be parsed as a command.
    InputError(String),
    /// A redirection operator without a target, or a target that cannot be opened.
    RedirectionError(String),
    /// A child process could not be spawned.
    ExecutionError(String),
    /// An operating-system I/O failure, carried as its message.
    IoError(String),
    /// `cd` to a directory that does not exist, or `HOME` unset when needed.
    InvalidDirectory(String),
    /// Unterminated quote or trailing backslash in the input line.
    InvalidQuoting,
    /// End of input: the read loop should stop.
    Interrupted,
}

/// The mathematical value of a [`ShellError`].
pub enum ShellErrorView {
    CommandNotFound(Seq<char>),
    InputError(Seq<char>),
    RedirectionError(Seq<char>),
    ExecutionError(Seq<char>),
    IoError(Seq<char>),
    InvalidDirectory(Seq<char>),
    InvalidQuoting,
    Interrupted,
}

impl View for ShellError {
    type V = ShellErrorView;

    open spec fn view(&self) -> ShellErrorView {
        match self {
            ShellError::CommandNotFound(m) => ShellErrorView::CommandNotFound(m@),
            ShellError::InputError(m) => ShellErrorView::InputError(m@),
            ShellError::RedirectionError(m) => ShellErrorView::RedirectionError(m@),
            ShellError::ExecutionError(m) => ShellErrorView::ExecutionError(m@),
            ShellError::IoError(m) => ShellErrorView::IoError(m@),
            ShellError::InvalidDirectory(m) => ShellErrorView::InvalidDirectory(m@),
            ShellError::InvalidQuoting => ShellErrorView::InvalidQuoting,
            ShellError::Interrupted => ShellErrorView::Interrupted,
        }
    }
}

/// The one-line diagnostic of an error.
pub open spec fn spec_message(e: ShellErrorView) -> Seq<char> {
    match e {
        ShellErrorView::CommandNotFound(m) => m,
        ShellErrorView::InputError(m) => "Input error: "@ + m,
        ShellErrorView::RedirectionError(m) => m,
        ShellErrorView::ExecutionError(m) => m,
        ShellErrorView::IoError(m) => "IO error: "@ + m,
        ShellErrorView::InvalidDirectory(m) => m,
        ShellErrorView::InvalidQuoting => "Invalid quoting in command"@,
        ShellErrorView::Interrupted => "Interrupted"@,
    }
}

impl ShellError {
    /// The diagnostic to print for this error, without a trailing newline.
    pub fn message(&self) -> (r: String)
        ensures
            r@ == spec_message(self@),
    {
        match self {
            ShellError::CommandNotFound(m) => m.clone(),
            ShellError::InputError(m) => {
                let mut t = String::from_str("Input error: ");
                t.append(m.as_str());
                t
            },
            ShellError::RedirectionError(m) => m.clone(),
            ShellError::ExecutionError(m) => m.clone(),
            ShellError::IoError(m) => {
                let mut t = String::from_str("IO error: ");
                t.append(m.as_str());
                t
            },
            ShellError::InvalidDirectory(m) => m.clone(),
            ShellError::InvalidQuoting => String::from_str("Invalid quoting in command"),
            ShellError::Interrupted => String::from_str("Interrupted"),
        }
    }
}

/// Shorthand for results whose error is a [`ShellError`].
pub type ShellResult<T> = Result<T, ShellError>;

} // verus!
