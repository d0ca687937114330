//! Parse errors.  Every parse error is fatal: the parser returns the first
//! one it meets and no partial program.

use vstd::prelude::*;
use crate::ast::{span_v, Span, SpanV};

verus! {

/// The kinds of fatal parse errors.
#[derive(Debug, Clone, PartialEq, Eq)]
pub enum ErrorKind {
    /// A token of another kind than the grammar allows here.
    UnexpectedToken { expected: String, found: Span },
    /// The token stream ended where more input was required.
    UnexpectedEndOfInput,
    /// A token that cannot start a pattern.
    UnexpectedTokenInPattern { found: Span },
    /// A statement was complete but more tokens follow on the same line.
    TooMuchExpr { found: Span },
    /// A newline inside a one-line context such as a binding's right-hand
    /// side.
    ExpectedNewline { found: Span },
}

/// A parse error: its kind and the span it points at.
#[derive(Debug, Clone, PartialEq, Eq)]
pub struct Error {
    pub kind: ErrorKind,
    pub span: Span,
}

impl Error {
    /// Every span the error carries lies inside `src` and reproduces its
    /// text.
    pub open spec fn wf(self, src: Seq<char>) -> bool {
        &&& self.span.wf(src)
        &&& match self.kind {
            ErrorKind::UnexpectedToken { expected, found } => found.wf(src),
            ErrorKind::UnexpectedEndOfInput => true,
            ErrorKind::UnexpectedTokenInPattern { found } => found.wf(src),
            ErrorKind::TooMuchExpr { found } => found.wf(src),
            ErrorKind::ExpectedNewline { found } => found.wf(src),
        }
    }

    pub fn new(kind: ErrorKind, span: Span) -> (r: Error)
        ensures
            r.kind == kind,
            r.span == span,
    {
        Error { kind, span }
    }
}

/// The mathematical image of a parse error: text as character sequences,
/// spans as their ranges.
pub ghost enum ErrKV {
    UnexpectedToken { expected: Seq<char>, found: SpanV },
    UnexpectedEndOfInput,
    UnexpectedTokenInPattern { found: SpanV },
    TooMuchExpr { found: SpanV },
    ExpectedNewline { found: SpanV },
}

pub ghost struct ErrV {
    pub kind: ErrKV,
    pub span: SpanV,
}

pub open spec fn err_v(e: Error) -> ErrV {
    ErrV {
        kind: match e.kind {
            ErrorKind::UnexpectedToken { expected, found } => ErrKV::UnexpectedToken {
                expected: expected@,
                found: span_v(found),
            },
            ErrorKind::UnexpectedEndOfInput => ErrKV::UnexpectedEndOfInput,
            ErrorKind::UnexpectedTokenInPattern { found } => ErrKV::UnexpectedTokenInPattern {
                found: span_v(found),
            },
            ErrorKind::TooMuchExpr { found } => ErrKV::TooMuchExpr { found: span_v(found) },
            ErrorKind::ExpectedNewline { found } => ErrKV::ExpectedNewline {
                found: span_v(found),
            },
        },
        span: span_v(e.span),
    }
}

} // verus!
