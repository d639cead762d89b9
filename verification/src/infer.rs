//! Structural type inference.
//!
//! `Read` yields its declared type verbatim; `Name` yields the type of its
//! resolved binding, looked up through the scope that resolution recorded
//! for the node; a binary operator yields the result type of its operator
//! table entry (`op_result`); an `if` yields the union of its two arm
//! types, where an absent arm, or a block arm without trailing expression,
//! has type `Unit`.
//!
//! Union policy: two arm types unite only when they are equal; `Unit` gets
//! no special treatment, so a non-unit arm beside an absent or unit arm is
//! a `TypeMismatch`. There is no implicit numeric widening.
//!
//! Inference runs only after resolution has validated all names, so a node
//! without a recorded scope (`MissingScope`) or a name that no longer
//! resolves (`UnboundName`) signals a compiler defect, not a user error.

use vstd::prelude::*;

use crate::ast::{
    arena_wf, branch_wf, expr_wf, spec_branch_value, branch_value, BinaryOperator, Expression,
    ExpressionOrBlock, IfExpression, ReadExpression, Type,
};
use crate::errors::{type_result_matches, CompileError};
use crate::resolve::NamesResolved;
use crate::scope::{lookup, lookup_spec, ScopeModel};

verus! {

/// The union of two `if` arm types: defined exactly for equal types.
pub open spec fn union_of(a: Type, b: Type) -> Result<Type, CompileError<Seq<char>>> {
    if a == b {
        Ok(a)
    } else {
        Err(CompileError::TypeMismatch(a, b))
    }
}

/// The operator table: arithmetic is integer-only and yields `Int`;
/// equality compares two values of one type and yields `Bool`; ordering is
/// integer-only and yields `Bool`; the logical operators take two booleans.
/// Every other pairing is `OperatorUndefined`.
pub open spec fn op_result(op: BinaryOperator, l: Type, r: Type) -> Result<
    Type,
    CompileError<Seq<char>>,
> {
    match op {
        BinaryOperator::Add
        | BinaryOperator::Subtract
        | BinaryOperator::Multiply
        | BinaryOperator::Divide
        | BinaryOperator::Modulus => {
            if l == Type::Int && r == Type::Int {
                Ok(Type::Int)
            } else {
                Err(CompileError::OperatorUndefined(op, l, r))
            }
        },
        BinaryOperator::Equal | BinaryOperator::NotEqual => {
            if l == r {
                Ok(Type::Bool)
            } else {
                Err(CompileError::OperatorUndefined(op, l, r))
            }
        },
        BinaryOperator::Less
        | BinaryOperator::Greater
        | BinaryOperator::LessEqual
        | BinaryOperator::GreaterEqual => {
            if l == Type::Int && r == Type::Int {
                Ok(Type::Bool)
            } else {
                Err(CompileError::OperatorUndefined(op, l, r))
            }
        },
        BinaryOperator::LogicalAnd | BinaryOperator::LogicalOr => {
            if l == Type::Bool && r == Type::Bool {
                Ok(Type::Bool)
            } else {
                Err(CompileError::OperatorUndefined(op, l, r))
            }
        },
    }
}

#[via_fn]
proof fn infer_spec_decreases(
    exprs: Seq<Expression>,
    scopes: Seq<ScopeModel>,
    of_node: Seq<Option<usize>>,
    i: int,
) {
    assert(expr_wf(exprs[i], i));
}

/// Model of inferring the type of node `i`.
pub open spec fn infer_spec(
    exprs: Seq<Expression>,
    scopes: Seq<ScopeModel>,
    of_node: Seq<Option<usize>>,
    i: int,
) -> Result<Type, CompileError<Seq<char>>>
    decreases i
        when 0 <= i < exprs.len() && arena_wf(exprs)
        via infer_spec_decreases
{
    match exprs[i] {
        Expression::Read(ReadExpression::Type(t)) => Ok(t),
        Expression::Name(n) => {
            match of_node[i] {
                None => Err(CompileError::MissingScope(i as usize)),
                Some(s) => match lookup_spec(scopes, s as int, n.name@) {
                    Some(t) => Ok(t),
                    None => Err(CompileError::UnboundName(n.name@)),
                },
            }
        },
        Expression::BinaryOperator(b) => {
            match infer_spec(exprs, scopes, of_node, b.lhs as int) {
                Err(e) => Err(e),
                Ok(lt) => match infer_spec(exprs, scopes, of_node, b.rhs as int) {
                    Err(e) => Err(e),
                    Ok(rt) => op_result(b.operator, lt, rt),
                },
            }
        },
        Expression::If(f) => {
            let pr = match spec_branch_value(f.positive) {
                Some(e) => infer_spec(exprs, scopes, of_node, e as int),
                None => Ok(Type::Unit),
            };
            match pr {
                Err(e) => Err(e),
                Ok(pt) => {
                    let nr = match f.negative {
                        None => Ok(Type::Unit),
                        Some(br) => match spec_branch_value(br) {
                            Some(e) => infer_spec(exprs, scopes, of_node, e as int),
                            None => Ok(Type::Unit),
                        },
                    };
                    match nr {
                        Err(e) => Err(e),
                        Ok(nt) => union_of(pt, nt),
                    }
                },
            }
        },
    }
}

/// Model of the type of one `if` arm: the type of the expression that gives
/// the arm its value, or `Unit` for an absent arm or a block without a
/// trailing expression.
pub open spec fn arm_type_spec(
    exprs: Seq<Expression>,
    scopes: Seq<ScopeModel>,
    of_node: Seq<Option<usize>>,
    arm: Option<ExpressionOrBlock>,
) -> Result<Type, CompileError<Seq<char>>> {
    match arm {
        None => Ok(Type::Unit),
        Some(br) => match spec_branch_value(br) {
            Some(e) => infer_spec(exprs, scopes, of_node, e as int),
            None => Ok(Type::Unit),
        },
    }
}

/// Model of the type of an `if` expression: the union of its arm types.
pub open spec fn infer_if_spec(
    exprs: Seq<Expression>,
    scopes: Seq<ScopeModel>,
    of_node: Seq<Option<usize>>,
    f: IfExpression,
) -> Result<Type, CompileError<Seq<char>>> {
    match arm_type_spec(exprs, scopes, of_node, Some(f.positive)) {
        Err(e) => Err(e),
        Ok(pt) => match arm_type_spec(exprs, scopes, of_node, f.negative) {
            Err(e) => Err(e),
            Ok(nt) => union_of(pt, nt),
        },
    }
}

impl Type {
    /// Combine two `if` arm types under the union policy: equal types unite
    /// to themselves, anything else is a `TypeMismatch` naming both.
    pub fn union_with(self, other: Type) -> (r: Result<Type, CompileError<String>>)
        ensures
            type_result_matches(r, union_of(self, other)),
    {
        if self == other {
            Ok(self)
        } else {
            Err(CompileError::TypeMismatch(self, other))
        }
    }
}

fn op_result_exec(op: BinaryOperator, l: Type, r: Type) -> (res: Result<
    Type,
    CompileError<String>,
>)
    ensures
        type_result_matches(res, op_result(op, l, r)),
{
    match op {
        BinaryOperator::Add
        | BinaryOperator::Subtract
        | BinaryOperator::Multiply
        | BinaryOperator::Divide
        | BinaryOperator::Modulus => {
            if l == Type::Int && r == Type::Int {
                Ok(Type::Int)
            } else {
                Err(CompileError::OperatorUndefined(op, l, r))
            }
        },
        BinaryOperator::Equal | BinaryOperator::NotEqual => {
            if l == r {
                Ok(Type::Bool)
            } else {
                Err(CompileError::OperatorUndefined(op, l, r))
            }
        },
        BinaryOperator::Less
        | BinaryOperator::Greater
        | BinaryOperator::LessEqual
        | BinaryOperator::GreaterEqual => {
            if l == Type::Int && r == Type::Int {
                Ok(Type::Bool)
            } else {
                Err(CompileError::OperatorUndefined(op, l, r))
            }
        },
        BinaryOperator::LogicalAnd | BinaryOperator::LogicalOr => {
            if l == Type::Bool && r == Type::Bool {
                Ok(Type::Bool)
            } else {
                Err(CompileError::OperatorUndefined(op, l, r))
            }
        },
    }
}

/// Infer the type of arena node `i`; the result follows `infer_spec`.
pub fn infer_expr(exprs: &Vec<Expression>, nr: &NamesResolved, i: usize) -> (r: Result<
    Type,
    CompileError<String>,
>)
    requires
        (i as int) < exprs@.len(),
        arena_wf(exprs@),
        nr.wf(),
        nr.of_node@.len() == exprs@.len(),
    ensures
        type_result_matches(r, infer_spec(exprs@, nr.scopes_model(), nr.of_node@, i as int)),
    decreases i,
{
    proof {
        assert(expr_wf(exprs@[i as int], i as int));
    }
    match &exprs[i] {
        Expression::Read(ReadExpression::Type(t)) => Ok(*t),
        Expression::Name(n) => {
            match nr.of_node[i] {
                None => Err(CompileError::MissingScope(i)),
                Some(s) => match lookup(&nr.scopes, s, &n.name) {
                    Some(t) => Ok(t),
                    None => Err(CompileError::UnboundName(n.name.clone())),
                },
            }
        },
        Expression::BinaryOperator(b) => {
            let lt = match infer_expr(exprs, nr, b.lhs) {
                Ok(t) => t,
                Err(e) => return Err(e),
            };
            let rt = match infer_expr(exprs, nr, b.rhs) {
                Ok(t) => t,
                Err(e) => return Err(e),
            };
            op_result_exec(b.operator, lt, rt)
        },
        Expression::If(f) => {
            let pt = match branch_value(&f.positive) {
                Some(e) => match infer_expr(exprs, nr, e) {
                    Ok(t) => t,
                    Err(er) => return Err(er),
                },
                None => Type::Unit,
            };
            let nt = match &f.negative {
                None => Type::Unit,
                Some(br) => match branch_value(br) {
                    Some(e) => match infer_expr(exprs, nr, e) {
                        Ok(t) => t,
                        Err(er) => return Err(er),
                    },
                    None => Type::Unit,
                },
            };
            pt.union_with(nt)
        },
    }
}

impl IfExpression {
    /// The type of this `if` expression: the union of its positive and
    /// negative arm types, each `Unit` when absent or without a trailing
    /// expression; the result follows `infer_if_spec`.
    pub fn infer_type(&self, exprs: &Vec<Expression>, nr: &NamesResolved) -> (r: Result<
        Type,
        CompileError<String>,
    >)
        requires
            arena_wf(exprs@),
            branch_wf(self.positive, exprs@.len() as int),
            self.negative is Some ==> branch_wf(self.negative->0, exprs@.len() as int),
            nr.wf(),
            nr.of_node@.len() == exprs@.len(),
        ensures
            type_result_matches(
                r,
                infer_if_spec(exprs@, nr.scopes_model(), nr.of_node@, *self),
            ),
    {
        let pt = match branch_value(&self.positive) {
            Some(e) => match infer_expr(exprs, nr, e) {
                Ok(t) => t,
                Err(er) => return Err(er),
            },
            None => Type::Unit,
        };
        let nt = match &self.negative {
            None => Type::Unit,
            Some(br) => match branch_value(br) {
                Some(e) => match infer_expr(exprs, nr, e) {
                    Ok(t) => t,
                    Err(er) => return Err(er),
                },
                None => Type::Unit,
            },
        };
        pt.union_with(nt)
    }
}

} // verus!
