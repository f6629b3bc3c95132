//! The errors that evaluating a statement can end in.

use vstd::prelude::*;
use crate::location::{Location, LocationView};
use crate::text::{concat_text, owned_text};

verus! {

/// What went wrong.
#[derive(Debug, Clone, Copy, PartialEq, Eq, Structural)]
pub enum EvaluatorErrorKind {
    ImportPathNotFound,
    ImportCycle,
    ImportLoadFailed,
    ImportNotFound,
    UnexpectedStmt,
    TypeNotFound,
    InvalidAssignment,
    InvalidConnection,
    ParseError,
    DuplicateDeclaration,
    CyclicInheritance,
    /// An invariant of the evaluator was violated; not an authoring error.
    Internal,
}

/// The words for a kind of error.
pub open spec fn kind_text(kind: EvaluatorErrorKind) -> Seq<char> {
    match kind {
        EvaluatorErrorKind::ImportPathNotFound => "import path not found"@,
        EvaluatorErrorKind::ImportCycle => "cyclic import detected"@,
        EvaluatorErrorKind::ImportLoadFailed => "failed to load import"@,
        EvaluatorErrorKind::ImportNotFound => "symbol not found"@,
        EvaluatorErrorKind::UnexpectedStmt => "unexpected statement"@,
        EvaluatorErrorKind::TypeNotFound => "type not found"@,
        EvaluatorErrorKind::InvalidAssignment => "invalid assignment"@,
        EvaluatorErrorKind::InvalidConnection => "invalid connection"@,
        EvaluatorErrorKind::ParseError => "parse error"@,
        EvaluatorErrorKind::DuplicateDeclaration => "duplicate declaration"@,
        EvaluatorErrorKind::CyclicInheritance => "cyclic inheritance detected"@,
        EvaluatorErrorKind::Internal => "internal error"@,
    }
}

impl EvaluatorErrorKind {
    /// Writes the words for the kind.
    pub fn to_string(&self) -> (r: String)
        ensures
            r@ == kind_text(*self),
    {
        match self {
            EvaluatorErrorKind::ImportPathNotFound => owned_text("import path not found"),
            EvaluatorErrorKind::ImportCycle => owned_text("cyclic import detected"),
            EvaluatorErrorKind::ImportLoadFailed => owned_text("failed to load import"),
            EvaluatorErrorKind::ImportNotFound => owned_text("symbol not found"),
            EvaluatorErrorKind::UnexpectedStmt => owned_text("unexpected statement"),
            EvaluatorErrorKind::TypeNotFound => owned_text("type not found"),
            EvaluatorErrorKind::InvalidAssignment => owned_text("invalid assignment"),
            EvaluatorErrorKind::InvalidConnection => owned_text("invalid connection"),
            EvaluatorErrorKind::ParseError => owned_text("parse error"),
            EvaluatorErrorKind::DuplicateDeclaration => owned_text("duplicate declaration"),
            EvaluatorErrorKind::CyclicInheritance => owned_text("cyclic inheritance detected"),
            EvaluatorErrorKind::Internal => owned_text("internal error"),
        }
    }
}

/// An error of a kind, at a place, with an optional detail message.
#[derive(Debug, PartialEq)]
pub struct EvaluatorError {
    pub kind: EvaluatorErrorKind,
    pub location: Location,
    pub message: Option<String>,
}

/// What an [`EvaluatorError`] stands for.
pub struct ErrorView {
    pub kind: EvaluatorErrorKind,
    pub location: LocationView,
    pub message: Option<Seq<char>>,
}

impl View for EvaluatorError {
    type V = ErrorView;

    open spec fn view(&self) -> ErrorView {
        ErrorView {
            kind: self.kind,
            location: self.location@,
            message: match self.message {
                Some(m) => Some(m@),
                None => None,
            },
        }
    }
}

/// An error of `kind` at `location` without a message.
pub open spec fn plain_error(kind: EvaluatorErrorKind, location: LocationView) -> ErrorView {
    ErrorView { kind, location, message: None }
}

/// An error of `kind` at `location` with `message`.
pub open spec fn error_with(
    kind: EvaluatorErrorKind,
    location: LocationView,
    message: Seq<char>,
) -> ErrorView {
    ErrorView { kind, location, message: Some(message) }
}

/// An error as displayed: the words for its kind, then a colon and the
/// message if there is one.
pub open spec fn error_text(e: ErrorView) -> Seq<char> {
    match e.message {
        Some(m) => kind_text(e.kind) + ": "@ + m,
        None => kind_text(e.kind),
    }
}

impl Clone for EvaluatorError {
    fn clone(&self) -> (r: Self)
        ensures
            r@ == self@,
    {
        EvaluatorError {
            kind: self.kind,
            location: self.location.clone(),
            message: match &self.message {
                Some(m) => Some(crate::text::copy_text(m)),
                None => None,
            },
        }
    }
}

impl EvaluatorError {
    /// An error of `kind` at `location` without a message.
    pub fn new(kind: EvaluatorErrorKind, location: &Location) -> (r: Self)
        ensures
            r@ == plain_error(kind, location@),
    {
        EvaluatorError { kind, location: location.clone(), message: None }
    }

    /// An internal error at `location` with `message`.
    pub fn internal(location: &Location, message: String) -> (r: Self)
        ensures
            r@ == error_with(EvaluatorErrorKind::Internal, location@, message@),
    {
        EvaluatorError::new(EvaluatorErrorKind::Internal, location).with_message(message)
    }

    /// An invalid-connection error at `location` with `message`.
    pub fn invalid_connection(location: &Location, message: String) -> (r: Self)
        ensures
            r@ == error_with(EvaluatorErrorKind::InvalidConnection, location@, message@),
    {
        EvaluatorError::new(EvaluatorErrorKind::InvalidConnection, location).with_message(message)
    }

    /// The same error with `message` as its message.
    pub fn with_message(self, message: String) -> (r: Self)
        ensures
            r@ == (ErrorView { message: Some(message@), ..self@ }),
    {
        EvaluatorError { kind: self.kind, location: self.location, message: Some(message) }
    }

    /// Writes the error as displayed.
    pub fn to_string(&self) -> (r: String)
        ensures
            r@ == error_text(self@),
    {
        let kind = self.kind.to_string();
        match &self.message {
            Some(m) => concat_text(concat_text(kind, ": "), m.as_str()),
            None => kind,
        }
    }
}

} // verus!
