//! The error type shared by every fallible operation of the library.

use vstd::prelude::*;

verus! {

/// What went wrong, in the coarse classes that callers branch on.
#[derive(Debug, Clone, Copy, PartialEq, Eq, Structural)]
pub enum ErrorKind {
    /// The caller gave bad input.
    Validation,
    /// A Docker command exited unsuccessfully.
    ExternalCommand,
    /// The Docker HTTP interface reported an error.
    Api,
    /// A filesystem or network operation failed.
    Io,
    /// Supervision exceeded the caller's time budget.
    Timeout,
    /// The process-wide cancellation flag was observed.
    Cancelled,
    /// One or more containers left an error stack or a panic message.
    Aggregate,
}

/// An error with its chain of human-readable context, innermost first.
#[derive(Debug, Clone, PartialEq, Eq)]
pub struct Error {
    pub kind: ErrorKind,
    pub stack: Vec<String>,
}

/// An `Error` as plain values.
pub struct ErrorView {
    pub kind: ErrorKind,
    pub messages: Seq<Seq<char>>,
}

impl View for Error {
    type V = ErrorView;

    open spec fn view(&self) -> ErrorView {
        ErrorView { kind: self.kind, messages: self.stack.deep_view() }
    }
}

impl Error {
    /// The context chain as sequences of characters.
    pub open spec fn messages(&self) -> Seq<Seq<char>> {
        self.stack.deep_view()
    }

    /// The same context under another kind.
    pub fn with_kind(self, kind: ErrorKind) -> (e: Error)
        ensures
            e@ == (ErrorView { kind, ..self@ }),
    {
        Error { kind, stack: self.stack }
    }

    /// An error of `kind` without any context.
    pub fn empty(kind: ErrorKind) -> (e: Error)
        ensures
            e.kind == kind,
            e.messages() == Seq::<Seq<char>>::empty(),
    {
        let e = Error { kind, stack: Vec::new() };
        assert(e.stack.deep_view() =~= Seq::<Seq<char>>::empty());
        e
    }

    /// An error of `kind` with one message.
    pub fn new(kind: ErrorKind, message: String) -> (e: Error)
        ensures
            e.kind == kind,
            e.messages() == seq![message@],
    {
        let mut stack: Vec<String> = Vec::new();
        stack.push(message);
        let e = Error { kind, stack };
        assert(e.stack.deep_view() =~= seq![message@]);
        e
    }

    /// Adds one more layer of context and keeps the kind.
    pub fn stack_err(self, message: String) -> (e: Error)
        ensures
            e.kind == self.kind,
            e.messages() == self.messages().push(message@),
    {
        let mut e = self;
        e.stack.push(message);
        assert(e.stack.deep_view() =~= self.stack.deep_view().push(message@));
        e
    }

    /// Whether this is a timeout.
    pub fn is_timeout(&self) -> (b: bool)
        ensures
            b == (self.kind == ErrorKind::Timeout),
    {
        self.kind == ErrorKind::Timeout
    }
}

} // verus!
