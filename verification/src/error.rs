//! What can go wrong in a block, by kind.

use vstd::prelude::*;

verus! {

/// The kinds of failure that the core distinguishes.
#[derive(Clone, Copy, Debug, PartialEq, Eq, Structural)]
pub enum ErrorKind {
    /// A block's configuration was rejected when the block was built.
    Config,
    /// One render attempt failed.
    Render,
    /// A signal handler failed.
    Signal,
    /// A click handler failed.
    Click,
    /// A request to render again could not be handed to the scheduler.
    Channel,
}

/// A failure of one block: its kind, the name of the block, and a message.
#[derive(Debug, PartialEq, Eq)]
pub struct Error {
    pub kind: ErrorKind,
    pub block: String,
    pub message: String,
}

/// The mathematical value of an [`Error`].
pub struct ErrorView {
    pub kind: ErrorKind,
    pub block: Seq<char>,
    pub message: Seq<char>,
}

impl View for Error {
    type V = ErrorView;

    open spec fn view(&self) -> ErrorView {
        ErrorView { kind: self.kind, block: self.block@, message: self.message@ }
    }
}

impl Error {
    /// An error of `kind` for the block named `block`.
    pub fn new(kind: ErrorKind, block: &str, message: String) -> (e: Error)
        ensures
            e@ == (ErrorView { kind, block: block@, message: message@ }),
    {
        Error { kind, block: block.to_owned(), message }
    }
}

} // verus!
