//! The error taxonomy and recoverable diagnostics of the pipeline.
use vstd::prelude::*;

verus! {

/// Spec mirror of `CompileError`.
#[verifier::ext_equal]
pub enum CompileErrorV {
    ParseError { line: usize, message: Seq<char> },
    TypeError { message: Seq<char> },
    UnsupportedFeature { message: Seq<char>, suggestion: Option<Seq<char>> },
    CompilationFailed { message: Seq<char> },
    IoError { message: Seq<char> },
}

/// The compile error taxonomy: a parse failure (a function header that
/// could not be matched), a type error (reserved for a future strict mode),
/// a recognized but unimplemented construct, a toolchain failure, and an
/// underlying storage failure.
#[derive(Debug)]
pub enum CompileError {
    ParseError { line: usize, message: String },
    TypeError { message: String },
    UnsupportedFeature { message: String, suggestion: Option<String> },
    CompilationFailed { message: String },
    IoError { message: String },
}

impl View for CompileError {
    type V = CompileErrorV;

    open spec fn view(&self) -> CompileErrorV {
        match self {
            CompileError::ParseError { line, message } => CompileErrorV::ParseError {
                line: *line,
                message: message@,
            },
            CompileError::TypeError { message } => CompileErrorV::TypeError { message: message@ },
            CompileError::UnsupportedFeature { message, suggestion } => {
                CompileErrorV::UnsupportedFeature {
                    message: message@,
                    suggestion: match suggestion {
                        Option::None => Option::None,
                        Option::Some(s) => Option::Some(s@),
                    },
                }
            },
            CompileError::CompilationFailed { message } => CompileErrorV::CompilationFailed {
                message: message@,
            },
            CompileError::IoError { message } => CompileErrorV::IoError { message: message@ },
        }
    }
}

impl CompileError {
    /// A short description of the error, for relaying to a user.
    pub fn describe(&self) -> (r: &String)
        ensures
            (match self@ {
                CompileErrorV::ParseError { message, .. } => message,
                CompileErrorV::TypeError { message } => message,
                CompileErrorV::UnsupportedFeature { message, .. } => message,
                CompileErrorV::CompilationFailed { message } => message,
                CompileErrorV::IoError { message } => message,
            }) == r@,
    {
        match self {
            CompileError::ParseError { message, .. } => message,
            CompileError::TypeError { message } => message,
            CompileError::UnsupportedFeature { message, .. } => message,
            CompileError::CompilationFailed { message } => message,
            CompileError::IoError { message } => message,
        }
    }
}

/// Spec mirror of `Diagnostic`.
#[verifier::ext_equal]
pub struct DiagnosticV {
    pub line: usize,
    pub message: Seq<char>,
    pub fatal: bool,
}

/// A recoverable finding recorded during parsing: the line it concerns, a
/// message, and whether it aborts the compile once parsing ends.
#[derive(Debug)]
pub struct Diagnostic {
    pub line: usize,
    pub message: String,
    pub fatal: bool,
}

impl View for Diagnostic {
    type V = DiagnosticV;

    open spec fn view(&self) -> DiagnosticV {
        DiagnosticV { line: self.line, message: self.message@, fatal: self.fatal }
    }
}

/// Builds the non-positional errors of the taxonomy.
pub struct DiagnosticBuilder {}

impl DiagnosticBuilder {
    /// A recognized but intentionally unimplemented construct, with an
    /// optional suggested workaround.
    pub fn unsupported_feature(feature: &str, suggestion: Option<String>) -> (r: CompileError)
        ensures
            r@ == (CompileErrorV::UnsupportedFeature {
                message: feature@,
                suggestion: match suggestion {
                    Option::None => Option::None,
                    Option::Some(s) => Option::Some(s@),
                },
            }),
    {
        CompileError::UnsupportedFeature {
            message: crate::text::str_to_string(feature),
            suggestion,
        }
    }

    /// An expression with no resolvable type under a strict policy.
    pub fn type_error(message: &str) -> (r: CompileError)
        ensures
            r@ == (CompileErrorV::TypeError { message: message@ }),
    {
        CompileError::TypeError { message: crate::text::str_to_string(message) }
    }

    /// A toolchain failure, surfaced verbatim.
    pub fn compilation_failed(message: &str) -> (r: CompileError)
        ensures
            r@ == (CompileErrorV::CompilationFailed { message: message@ }),
    {
        CompileError::CompilationFailed { message: crate::text::str_to_string(message) }
    }
}

} // verus!
