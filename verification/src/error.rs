//! The ways in which an invocation can end without doing what was asked.

use vstd::prelude::*;

verus! {

/// Why an operation did not go through.
#[derive(Clone, Copy, Debug, PartialEq, Eq, Structural)]
pub enum ErrorKind {
    /// The control program's output could not be read: a line of a node list
    /// lacks a field, or a number in it is not one.
    MalformedStatus,
    /// A collaborating program did not start or reported failure.
    SubprocessFailure,
    /// The user left the chooser without choosing. Not a failure: nothing
    /// changes.
    NoSelection,
    /// The chosen name belongs to no node that was offered.
    UnknownName,
    /// The kind of node asked for is neither sink nor source.
    UnknownNodeType,
}

impl ErrorKind {
    /// A line for the user.
    pub fn describe(&self) -> (out: &'static str)
        ensures
            out@ == describe_spec(*self),
    {
        match self {
            ErrorKind::MalformedStatus => "malformed status text",
            ErrorKind::SubprocessFailure => "a subprocess failed",
            ErrorKind::NoSelection => "nothing was selected",
            ErrorKind::UnknownName => "no node has that name",
            ErrorKind::UnknownNodeType => "unknown node type",
        }
    }

    /// Whether the process should exit with a failure status.
    pub fn is_fatal(&self) -> (fatal: bool)
        ensures
            fatal == !(*self is NoSelection),
    {
        match self {
            ErrorKind::NoSelection => false,
            _ => true,
        }
    }
}

/// The text of `describe` for each kind.
pub open spec fn describe_spec(kind: ErrorKind) -> Seq<char> {
    match kind {
        ErrorKind::MalformedStatus => "malformed status text"@,
        ErrorKind::SubprocessFailure => "a subprocess failed"@,
        ErrorKind::NoSelection => "nothing was selected"@,
        ErrorKind::UnknownName => "no node has that name"@,
        ErrorKind::UnknownNodeType => "unknown node type"@,
    }
}

} // verus!
