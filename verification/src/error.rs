//! Error taxonomy: validation failures, operation precondition failures,
//! history-engine failures, and an opaque I/O failure.

use vstd::prelude::*;
use vstd::string::StringExecFns;
use crate::command::CommandId;
use crate::object::{spec_type_str, type_str, Type};
use crate::path::{spec_path_display, AbsPath};

verus! {

/// A failed re-validation of an object handle.
#[derive(Debug, PartialEq, Eq)]
pub enum ValidationError {
    /// The object no longer exists.
    NotExists,
    /// The object is of another kind than the handle recorded.
    WrongType { expected: Type, got: Type },
    /// The on-disk path is not valid UTF-8.
    NotUTF8,
}

/// The message a validation failure reports.
pub open spec fn spec_validation_message(e: ValidationError) -> Seq<char> {
    match e {
        ValidationError::NotExists => "object no longer exists"@,
        ValidationError::WrongType { expected, got } => "expected the object to be "@
            + spec_type_str(expected) + ", got "@ + spec_type_str(got),
        ValidationError::NotUTF8 => "the path is not a valid UTF-8"@,
    }
}

impl ValidationError {
    /// Render the failure for the user.
    pub fn message(&self) -> (r: String)
        ensures
            r@ == spec_validation_message(*self),
    {
        match self {
            ValidationError::NotExists => {
                let mut s = String::new();
                s.append("object no longer exists");
                s
            },
            ValidationError::WrongType { expected, got } => {
                let mut s = String::new();
                s.append("expected the object to be ");
                s.append(type_str(*expected));
                s.append(", got ");
                s.append(type_str(*got));
                s
            },
            ValidationError::NotUTF8 => {
                let mut s = String::new();
                s.append("the path is not a valid UTF-8");
                s
            },
        }
    }
}

/// Any failure an operation or a revert can report.
#[derive(Debug, PartialEq, Eq)]
pub enum Error {
    /// A lower-level filesystem or store failure, surfaced as-is.
    IO,
    /// The object handle no longer matches the filesystem.
    Validation(ValidationError),
    /// The destination of a move or copy is not a directory.
    MoveDestNotDir,
    /// The destination path is already occupied.
    NameTaken(AbsPath),
    /// The root directory cannot be renamed or moved.
    CannotRenameRoot,
    /// A proposed name contains a path separator or a NUL.
    ForbiddenNameChars,
    /// The command already ran; it may run at most once.
    AlreadyExecuted,
    /// The command was already reverted; reverting is terminal.
    AlreadyReverted,
    /// The command never ran, so there is nothing to revert.
    NotExecuted,
    /// The target's content changed since the command ran; reverting would
    /// destroy unrelated work.
    DriftError,
    /// The copy diverged from the recorded content; deleting it would lose
    /// content.
    DivergedCopy,
    /// Later commands still depend on this one; they must be reverted first.
    ConflictError(Vec<CommandId>),
}

/// The message an operation failure reports.
pub open spec fn spec_error_message(e: Error) -> Seq<char> {
    match e {
        Error::IO => "IO error"@,
        Error::Validation(v) => "validation error: "@ + spec_validation_message(v),
        Error::MoveDestNotDir => "move destination is not a directory"@,
        Error::NameTaken(p) => "a file object at "@ + spec_path_display(p@)
            + " already exists"@,
        Error::CannotRenameRoot => "root directory can't be renamed"@,
        Error::ForbiddenNameChars => "file names can't include '/' or '\\0'"@,
        Error::AlreadyExecuted => "the command was already executed"@,
        Error::AlreadyReverted => "the command was already reverted"@,
        Error::NotExecuted => "the command was not executed"@,
        Error::DriftError => "the object changed since the command ran"@,
        Error::DivergedCopy => "the copy no longer matches the recorded content"@,
        Error::ConflictError(_) => "later commands still depend on this one"@,
    }
}

impl Error {
    /// Render the failure for the user.
    pub fn message(&self) -> (r: String)
        ensures
            r@ == spec_error_message(*self),
    {
        match self {
            Error::IO => {
                let mut s = String::new();
                s.append("IO error");
                s
            },
            Error::Validation(v) => {
                let mut s = String::new();
                s.append("validation error: ");
                let inner = v.message();
                s.append(inner.as_str());
                s
            },
            Error::MoveDestNotDir => {
                let mut s = String::new();
                s.append("move destination is not a directory");
                s
            },
            Error::NameTaken(p) => {
                let mut s = String::new();
                s.append("a file object at ");
                let shown = p.render();
                s.append(shown.as_str());
                s.append(" already exists");
                s
            },
            Error::CannotRenameRoot => {
                let mut s = String::new();
                s.append("root directory can't be renamed");
                s
            },
            Error::ForbiddenNameChars => {
                let mut s = String::new();
                s.append("file names can't include '/' or '\\0'");
                s
            },
            Error::AlreadyExecuted => {
                let mut s = String::new();
                s.append("the command was already executed");
                s
            },
            Error::AlreadyReverted => {
                let mut s = String::new();
                s.append("the command was already reverted");
                s
            },
            Error::NotExecuted => {
                let mut s = String::new();
                s.append("the command was not executed");
                s
            },
            Error::DriftError => {
                let mut s = String::new();
                s.append("the object changed since the command ran");
                s
            },
            Error::DivergedCopy => {
                let mut s = String::new();
                s.append("the copy no longer matches the recorded content");
                s
            },
            Error::ConflictError(_) => {
                let mut s = String::new();
                s.append("later commands still depend on this one");
                s
            },
        }
    }
}

} // verus!
