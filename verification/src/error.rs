//! Places in the source, counted in tokens, and the errors that point at
//! them.

use vstd::prelude::*;

verus! {

/// A stretch of the source, by the number of its first token and the
/// number of the token behind its last. Tokens are counted from the start
/// of the source, the brackets of a group as one token each.
#[derive(Clone, Copy, Debug, PartialEq, Eq, Structural)]
pub struct Span {
    pub start: usize,
    pub end: usize,
}

/// What is wrong with the input.
#[derive(Clone, Copy, Debug, PartialEq, Eq, Structural)]
pub enum ErrorKind {
    /// The trait does not name the model and the parent model.
    GenericArgument,
    /// A widget is not written as a widget.
    WidgetSyntax,
    /// An event connection is not written as one.
    EventSyntax,
}

/// An error and the place in the source that it is about.
#[derive(Clone, Copy, Debug, PartialEq, Eq, Structural)]
pub struct Error {
    pub kind: ErrorKind,
    pub span: Span,
}

impl Error {
    /// The error of the kind `kind` at `span`.
    pub fn new(kind: ErrorKind, span: Span) -> (e: Error)
        ensures
            e == (Error { kind, span }),
    {
        Error { kind, span }
    }

    /// The text of the message for each kind of error.
    pub open spec fn message_text(kind: ErrorKind) -> Seq<char> {
        match kind {
            ErrorKind::GenericArgument => "expected two generic type parameters, for the model and the parent model"@,
            ErrorKind::WidgetSyntax => "expected a widget: a type or a constructor call, followed by a block of properties"@,
            ErrorKind::EventSyntax => "expected an event connection: a signal, the captured variables in parentheses, `=>` and a closure"@,
        }
    }

    /// What to tell the user.
    pub fn message(&self) -> (text: &'static str)
        ensures
            text@ == Self::message_text(self.kind),
    {
        match self.kind {
            ErrorKind::GenericArgument => "expected two generic type parameters, for the model and the parent model",
            ErrorKind::WidgetSyntax => "expected a widget: a type or a constructor call, followed by a block of properties",
            ErrorKind::EventSyntax => "expected an event connection: a signal, the captured variables in parentheses, `=>` and a closure",
        }
    }
}

} // verus!
