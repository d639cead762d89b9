//! Failures of the compilation pipeline.
//!
//! The taxonomy keeps user-facing failures apart from compiler defects:
//! unresolved or duplicated names and type mismatches are the user's program
//! at fault; a missing node-to-scope entry or an unbound name surfacing
//! after a successful resolution can only be a defect of the pipeline
//! itself, and the classifier methods below tell the classes apart.
//!
//! The enum is generic over the text it carries so that the specification
//! mirrors of the passes, which work on `Seq<char>`, can state the exact
//! error an executable function (which carries `String`) returns;
//! `err_matches` is that correspondence.

use vstd::prelude::*;

use crate::ast::{BinaryOperator, Type};

verus! {

/// One failure of the compilation pipeline, carrying text of type `S`.
#[derive(Clone, Debug, PartialEq, Eq)]
pub enum CompileError<S> {
    /// User-facing: an identifier with no binding in its scope chain.
    UndefinedName(S),
    /// User-facing: a name already bound in the very same scope.
    DuplicateBinding(S),
    /// User-facing: `if` arms of these two incompatible types.
    TypeMismatch(Type, Type),
    /// User-facing: the operator is not defined for these operand types.
    OperatorUndefined(BinaryOperator, Type, Type),
    /// Compiler defect: the node has no recorded scope.
    MissingScope(usize),
    /// Compiler defect: a name resolution vouched for is gone at lookup time.
    UnboundName(S),
    /// Compiler defect: the fresh-name counter is exhausted.
    TemporariesExhausted,
}

impl<S> CompileError<S> {
    /// The error blames the user's names (undefined or duplicated).
    pub open spec fn spec_is_name_resolution_error(&self) -> bool {
        match *self {
            CompileError::UndefinedName(_) => true,
            CompileError::DuplicateBinding(_) => true,
            _ => false,
        }
    }

    /// The error blames the user's types.
    pub open spec fn spec_is_type_error(&self) -> bool {
        match *self {
            CompileError::TypeMismatch(_, _) => true,
            CompileError::OperatorUndefined(_, _, _) => true,
            _ => false,
        }
    }

    /// The error signals a defect of the compiler, not of the user's program.
    pub open spec fn spec_is_internal(&self) -> bool {
        match *self {
            CompileError::MissingScope(_) => true,
            CompileError::UnboundName(_) => true,
            CompileError::TemporariesExhausted => true,
            _ => false,
        }
    }

    /// Executable counterpart of `spec_is_name_resolution_error`.
    pub fn is_name_resolution_error(&self) -> (r: bool)
        ensures
            r == self.spec_is_name_resolution_error(),
    {
        match self {
            CompileError::UndefinedName(_) => true,
            CompileError::DuplicateBinding(_) => true,
            _ => false,
        }
    }

    /// Executable counterpart of `spec_is_type_error`.
    pub fn is_type_error(&self) -> (r: bool)
        ensures
            r == self.spec_is_type_error(),
    {
        match self {
            CompileError::TypeMismatch(_, _) => true,
            CompileError::OperatorUndefined(_, _, _) => true,
            _ => false,
        }
    }

    /// Executable counterpart of `spec_is_internal`.
    pub fn is_internal(&self) -> (r: bool)
        ensures
            r == self.spec_is_internal(),
    {
        match self {
            CompileError::MissingScope(_) => true,
            CompileError::UnboundName(_) => true,
            CompileError::TemporariesExhausted => true,
            _ => false,
        }
    }
}

/// An executable error carries the same information as its model: equal up
/// to taking the view of the carried text.
pub open spec fn err_matches(e: CompileError<String>, g: CompileError<Seq<char>>) -> bool {
    match (e, g) {
        (CompileError::UndefinedName(a), CompileError::UndefinedName(b)) => a@ == b,
        (CompileError::DuplicateBinding(a), CompileError::DuplicateBinding(b)) => a@ == b,
        (CompileError::TypeMismatch(a1, a2), CompileError::TypeMismatch(b1, b2)) => a1 == b1
            && a2 == b2,
        (
            CompileError::OperatorUndefined(o1, a1, a2),
            CompileError::OperatorUndefined(o2, b1, b2),
        ) => o1 == o2 && a1 == b1 && a2 == b2,
        (CompileError::MissingScope(a), CompileError::MissingScope(b)) => a == b,
        (CompileError::UnboundName(a), CompileError::UnboundName(b)) => a@ == b,
        (CompileError::TemporariesExhausted, CompileError::TemporariesExhausted) => true,
        _ => false,
    }
}

/// Correspondence of a pass result without payload to its model.
pub open spec fn unit_result_matches(
    r: Result<(), CompileError<String>>,
    g: Result<(), CompileError<Seq<char>>>,
) -> bool {
    match (r, g) {
        (Ok(_), Ok(_)) => true,
        (Err(e), Err(ge)) => err_matches(e, ge),
        _ => false,
    }
}

/// Correspondence of a type-inference result to its model.
pub open spec fn type_result_matches(
    r: Result<Type, CompileError<String>>,
    g: Result<Type, CompileError<Seq<char>>>,
) -> bool {
    match (r, g) {
        (Ok(a), Ok(b)) => a == b,
        (Err(e), Err(ge)) => err_matches(e, ge),
        _ => false,
    }
}

/// Correspondence of a generated-text result to its model.
pub open spec fn text_result_matches(
    r: Result<String, CompileError<String>>,
    g: Result<Seq<char>, CompileError<Seq<char>>>,
) -> bool {
    match (r, g) {
        (Ok(a), Ok(b)) => a@ == b,
        (Err(e), Err(ge)) => err_matches(e, ge),
        _ => false,
    }
}

} // verus!
