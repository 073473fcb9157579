//! The error types of the two pipeline stages, and the abstract error kinds
//! the evaluation contracts speak of.

use vstd::prelude::*;

verus! {

/// A failure of tokenizing or parsing; the message carries the position and
/// the original input for diagnosis.
#[derive(Debug)]
pub struct ParseError {
    pub message: String,
}

/// A failure of evaluation, distinguishable by kind.
#[derive(Debug, Clone, PartialEq)]
pub enum EvalError {
    /// The input did not parse; carries the parse error's message.
    EvalParseError(String),
    /// A variable was referenced but is not bound.
    UnboundVariable { name: String },
    /// An operation was applied to operands of the wrong type.
    TypeError { operation: String, expected: String, actual: String, context: String },
    /// NULL reached an operation other than IS NULL / IS NOT NULL.
    NullInOperation { operation: String, context: String },
    /// A division or modulo had a zero divisor; carries the whole expression.
    DivisionByZero { expression: String },
    /// A literal could not be re-validated; carries the literal and the cause.
    InvalidLiteral { literal: String, literal_type: String, error: String },
}

/// The abstract kind of an evaluation failure: what the contracts pin down.
/// An unbound-variable failure also pins the variable's name.
pub ghost enum ErrKind {
    ParseFail,
    Unbound(Seq<char>),
    TypeFail,
    NullFail,
    DivZero,
    PatternFail,
}

/// The kind of a concrete evaluation error.
pub open spec fn err_kind(e: EvalError) -> ErrKind {
    match e {
        EvalError::EvalParseError(_) => ErrKind::ParseFail,
        EvalError::UnboundVariable { name } => ErrKind::Unbound(name@),
        EvalError::TypeError { .. } => ErrKind::TypeFail,
        EvalError::NullInOperation { .. } => ErrKind::NullFail,
        EvalError::DivisionByZero { .. } => ErrKind::DivZero,
        EvalError::InvalidLiteral { .. } => ErrKind::PatternFail,
    }
}

} // verus!
