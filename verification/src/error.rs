//! The semantic diagnostics.
//!
//! Every violation the analysis detects is recovered locally: the checker
//! substitutes the `Unknown` type or skips the offending sub-check and walks
//! on, so one root cause is reported once and unrelated errors elsewhere
//! still surface. Type payloads carry canonical types; rendering them to
//! text is the caller's concern.

use vstd::prelude::*;
use crate::canonical::{canon_view, CanonicalType, CanonicalTypeView};
use crate::symbol::{Symbol, SymbolView};

verus! {

/// One semantic error, with the data needed to render a message.
#[derive(Debug, PartialEq)]
pub enum Error {
    /// A name was declared twice in the same scope, or a record field name
    /// was repeated within one record.
    DuplicatedIdentifier(String),
    /// A name was used but no scope binds it.
    UndefinedIdentifier(String),
    /// A type name does not resolve to a declared type.
    UndefinedType(String),
    /// A general structural mismatch: the two sides of an operator, an
    /// array index that is not an integer, or a call of something that is
    /// not a procedure (then `expected` is `Unknown`).
    UncompatableType { expected: CanonicalType, got: CanonicalType },
    /// A symbol that is not a variable stood where a variable is needed.
    InvalidVariableRepresent(Symbol),
    /// An array type whose lower bound exceeds its upper bound.
    InvalidArrayDefinition,
    /// A constant index outside the array bounds; no rule raises it today.
    ArrayIndexOutbound(u32, u32, u32),
    /// An index visit on a value that is not an array.
    UnexpectedArrayIndex,
    /// A field visit on a value that is not a record.
    InvalidFieldIndexType(CanonicalType),
    /// A field visit naming no field of the record.
    UndefinedRecordField(String),
    /// Assignment of a value whose type differs from the assignee's.
    AssignTypeMismatch { expected: CanonicalType, got: CanonicalType },
    /// The left side of an assignment does not denote a value.
    InvalidAssignee,
    /// A call argument whose type differs from the declared parameter type.
    CallParameterTypeMismatch { expected: CanonicalType, got: CanonicalType },
    /// A call with the wrong number of arguments.
    CallParameterCountMismatch { expected: usize, got: usize },
    /// A relation operand that is neither integer nor char.
    InvalidBoolExpression,
    /// `read` into something that is not an integer or char variable.
    InvalidReadType(CanonicalType),
    /// `write` of an expression that is neither integer nor char.
    InvalidWriteType(CanonicalType),
}

/// The mathematical shape of an [`Error`].
pub enum ErrorView {
    DuplicatedIdentifier(Seq<char>),
    UndefinedIdentifier(Seq<char>),
    UndefinedType(Seq<char>),
    UncompatableType { expected: CanonicalTypeView, got: CanonicalTypeView },
    InvalidVariableRepresent(SymbolView),
    InvalidArrayDefinition,
    ArrayIndexOutbound(u32, u32, u32),
    UnexpectedArrayIndex,
    InvalidFieldIndexType(CanonicalTypeView),
    UndefinedRecordField(Seq<char>),
    AssignTypeMismatch { expected: CanonicalTypeView, got: CanonicalTypeView },
    InvalidAssignee,
    CallParameterTypeMismatch { expected: CanonicalTypeView, got: CanonicalTypeView },
    CallParameterCountMismatch { expected: usize, got: usize },
    InvalidBoolExpression,
    InvalidReadType(CanonicalTypeView),
    InvalidWriteType(CanonicalTypeView),
}

impl DeepView for Error {
    type V = ErrorView;

    open spec fn deep_view(&self) -> ErrorView {
        match *self {
            Error::DuplicatedIdentifier(s) => ErrorView::DuplicatedIdentifier(s@),
            Error::UndefinedIdentifier(s) => ErrorView::UndefinedIdentifier(s@),
            Error::UndefinedType(s) => ErrorView::UndefinedType(s@),
            Error::UncompatableType { expected, got } => ErrorView::UncompatableType {
                expected: canon_view(expected),
                got: canon_view(got),
            },
            Error::InvalidVariableRepresent(s) => ErrorView::InvalidVariableRepresent(
                s.deep_view(),
            ),
            Error::InvalidArrayDefinition => ErrorView::InvalidArrayDefinition,
            Error::ArrayIndexOutbound(a, b, c) => ErrorView::ArrayIndexOutbound(a, b, c),
            Error::UnexpectedArrayIndex => ErrorView::UnexpectedArrayIndex,
            Error::InvalidFieldIndexType(t) => ErrorView::InvalidFieldIndexType(canon_view(t)),
            Error::UndefinedRecordField(s) => ErrorView::UndefinedRecordField(s@),
            Error::AssignTypeMismatch { expected, got } => ErrorView::AssignTypeMismatch {
                expected: canon_view(expected),
                got: canon_view(got),
            },
            Error::InvalidAssignee => ErrorView::InvalidAssignee,
            Error::CallParameterTypeMismatch { expected, got } => (
            ErrorView::CallParameterTypeMismatch {
                expected: canon_view(expected),
                got: canon_view(got),
            }),
            Error::CallParameterCountMismatch { expected, got } => (
            ErrorView::CallParameterCountMismatch { expected, got }),
            Error::InvalidBoolExpression => ErrorView::InvalidBoolExpression,
            Error::InvalidReadType(t) => ErrorView::InvalidReadType(canon_view(t)),
            Error::InvalidWriteType(t) => ErrorView::InvalidWriteType(canon_view(t)),
        }
    }
}

} // verus!
