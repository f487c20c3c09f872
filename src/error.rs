//! Source spans and the diagnostics every failing operation carries.

use vstd::prelude::*;

verus! {

/// A line/column range in the source text.
#[derive(Debug, Clone, Copy, PartialEq, Eq, Structural)]
pub struct Span {
    pub start_line: usize,
    pub start_column: usize,
    pub end_line: usize,
    pub end_column: usize,
}

impl Span {
    /// The span that starts and ends at one position.
    pub fn point(line: usize, column: usize) -> (r: Span)
        ensures
            r == (Span { start_line: line, start_column: column, end_line: line, end_column: column }),
    {
        Span { start_line: line, start_column: column, end_line: line, end_column: column }
    }
}

/// A diagnostic.
#[derive(Debug)]
pub enum DesignTimeError {
    LexerError { span: Span, message: String, suggestion: Option<String> },
    /// A structural mismatch: "expected X, found Y", a mismatched closing tag.
    ParserError { span: Span, message: String, suggestion: Option<String> },
    /// A token that no production of the grammar can start with, in its written form.
    UnexpectedToken { span: Span, found: String },
    /// A name that is not known; reported by consumers of the tree.
    UnknownIdentifier { span: Span, name: String },
    /// The end of input inside a block that was still open.
    UnterminatedBlock { span: Span, message: String },
    CompilerError(String),
    RuntimeError(String),
    IoError(String),
    Unknown(String),
}

/// The mathematical value of a `DesignTimeError`.
pub enum ErrorModel {
    LexerError { span: Span, message: Seq<char>, suggestion: Option<Seq<char>> },
    ParserError { span: Span, message: Seq<char>, suggestion: Option<Seq<char>> },
    UnexpectedToken { span: Span, found: Seq<char> },
    UnknownIdentifier { span: Span, name: Seq<char> },
    UnterminatedBlock { span: Span, message: Seq<char> },
    CompilerError(Seq<char>),
    RuntimeError(Seq<char>),
    IoError(Seq<char>),
    Unknown(Seq<char>),
}

pub open spec fn opt_model(o: Option<String>) -> Option<Seq<char>> {
    match o {
        Some(s) => Some(s@),
        None => None,
    }
}

fn clone_opt(o: &Option<String>) -> (r: Option<String>)
    ensures
        opt_model(r) == opt_model(*o),
{
    match o {
        Some(s) => Some(s.clone()),
        None => None,
    }
}

impl View for DesignTimeError {
    type V = ErrorModel;

    open spec fn view(&self) -> ErrorModel {
        match self {
            DesignTimeError::LexerError { span, message, suggestion } => ErrorModel::LexerError {
                span: *span,
                message: message@,
                suggestion: opt_model(*suggestion),
            },
            DesignTimeError::ParserError { span, message, suggestion } => ErrorModel::ParserError {
                span: *span,
                message: message@,
                suggestion: opt_model(*suggestion),
            },
            DesignTimeError::UnexpectedToken { span, found } => ErrorModel::UnexpectedToken {
                span: *span,
                found: found@,
            },
            DesignTimeError::UnknownIdentifier { span, name } => ErrorModel::UnknownIdentifier {
                span: *span,
                name: name@,
            },
            DesignTimeError::UnterminatedBlock { span, message } => ErrorModel::UnterminatedBlock {
                span: *span,
                message: message@,
            },
            DesignTimeError::CompilerError(m) => ErrorModel::CompilerError(m@),
            DesignTimeError::RuntimeError(m) => ErrorModel::RuntimeError(m@),
            DesignTimeError::IoError(m) => ErrorModel::IoError(m@),
            DesignTimeError::Unknown(m) => ErrorModel::Unknown(m@),
        }
    }
}

impl DesignTimeError {
    /// A new error with the same variant and data.
    pub fn clone_error(&self) -> (r: DesignTimeError)
        ensures
            r@ == self@,
    {
        match self {
            DesignTimeError::LexerError { span, message, suggestion } => DesignTimeError::LexerError {
                span: *span,
                message: message.clone(),
                suggestion: clone_opt(suggestion),
            },
            DesignTimeError::ParserError { span, message, suggestion } => DesignTimeError::ParserError {
                span: *span,
                message: message.clone(),
                suggestion: clone_opt(suggestion),
            },
            DesignTimeError::UnexpectedToken { span, found } => DesignTimeError::UnexpectedToken {
                span: *span,
                found: found.clone(),
            },
            DesignTimeError::UnknownIdentifier { span, name } => DesignTimeError::UnknownIdentifier {
                span: *span,
                name: name.clone(),
            },
            DesignTimeError::UnterminatedBlock { span, message } => DesignTimeError::UnterminatedBlock {
                span: *span,
                message: message.clone(),
            },
            DesignTimeError::CompilerError(m) => DesignTimeError::CompilerError(m.clone()),
            DesignTimeError::RuntimeError(m) => DesignTimeError::RuntimeError(m.clone()),
            DesignTimeError::IoError(m) => DesignTimeError::IoError(m.clone()),
            DesignTimeError::Unknown(m) => DesignTimeError::Unknown(m.clone()),
        }
    }

    /// The human-readable message of this error.
    pub fn message(&self) -> (r: String)
        ensures
            r@ == message_of(self@),
    {
        match self {
            DesignTimeError::LexerError { message, .. } => message.clone(),
            DesignTimeError::ParserError { message, .. } => message.clone(),
            DesignTimeError::UnexpectedToken { found, .. } => found.clone(),
            DesignTimeError::UnknownIdentifier { name, .. } => name.clone(),
            DesignTimeError::UnterminatedBlock { message, .. } => message.clone(),
            DesignTimeError::CompilerError(m) => m.clone(),
            DesignTimeError::RuntimeError(m) => m.clone(),
            DesignTimeError::IoError(m) => m.clone(),
            DesignTimeError::Unknown(m) => m.clone(),
        }
    }
}

/// The text that an error carries: its message, the offending token or the unknown name.
pub open spec fn message_of(e: ErrorModel) -> Seq<char> {
    match e {
        ErrorModel::LexerError { message, .. } => message,
        ErrorModel::ParserError { message, .. } => message,
        ErrorModel::UnexpectedToken { found, .. } => found,
        ErrorModel::UnknownIdentifier { name, .. } => name,
        ErrorModel::UnterminatedBlock { message, .. } => message,
        ErrorModel::CompilerError(m) => m,
        ErrorModel::RuntimeError(m) => m,
        ErrorModel::IoError(m) => m,
        ErrorModel::Unknown(m) => m,
    }
}

} // verus!
