//! The error taxonomy of the schema pipeline.

use vstd::prelude::*;

verus! {

/// Everything that can go wrong while deriving a schema or generating code.
///
/// Every stage of the pipeline propagates failures immediately: there is no
/// partial or best-effort schema.
#[derive(Debug, Clone)]
pub enum Error {
    /// The engine rejected a statement; carries the engine's message.
    EngineFailure { message: String },
    /// A piece of statement text could not be parsed; names its source
    /// (a migration file, or the definition text itself).
    ParseFailure { source: String },
    /// Expected exactly `expected` results or statements, found `got`.
    ResultCountMismatch { expected: usize, got: usize },
    /// A value or statement did not have the structurally required shape.
    UnexpectedType { expected: String, got: String },
    /// A metadata response was missing a required key.
    MissingExpectedKey { key: String },
    /// A directory or file could not be read.
    IOFailure { context: String },
    /// No table of the requested name exists in the derived schema.
    TableNotFound { table: String },
    /// More than one table matched the requested name.
    AmbiguousTable { table: String },
    /// A field has no declared type, or a type no target type maps to.
    UntypedField { field: String, kind: Option<String> },
}

/// The mathematical shape of an [`Error`].
pub enum ErrorV {
    EngineFailure { message: Seq<char> },
    ParseFailure { source: Seq<char> },
    ResultCountMismatch { expected: nat, got: nat },
    UnexpectedType { expected: Seq<char>, got: Seq<char> },
    MissingExpectedKey { key: Seq<char> },
    IOFailure { context: Seq<char> },
    TableNotFound { table: Seq<char> },
    AmbiguousTable { table: Seq<char> },
    UntypedField { field: Seq<char>, kind: Option<Seq<char>> },
}

impl View for Error {
    type V = ErrorV;

    open spec fn view(&self) -> ErrorV {
        match self {
            Error::EngineFailure { message } => ErrorV::EngineFailure { message: message@ },
            Error::ParseFailure { source } => ErrorV::ParseFailure { source: source@ },
            Error::ResultCountMismatch { expected, got } => ErrorV::ResultCountMismatch {
                expected: *expected as nat,
                got: *got as nat,
            },
            Error::UnexpectedType { expected, got } => ErrorV::UnexpectedType {
                expected: expected@,
                got: got@,
            },
            Error::MissingExpectedKey { key } => ErrorV::MissingExpectedKey { key: key@ },
            Error::IOFailure { context } => ErrorV::IOFailure { context: context@ },
            Error::TableNotFound { table } => ErrorV::TableNotFound { table: table@ },
            Error::AmbiguousTable { table } => ErrorV::AmbiguousTable { table: table@ },
            Error::UntypedField { field, kind } => ErrorV::UntypedField {
                field: field@,
                kind: match kind {
                    Some(k) => Some(k@),
                    None => None,
                },
            },
        }
    }
}

} // verus!
