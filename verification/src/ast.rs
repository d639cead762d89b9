//! The abstract syntax tree consumed by the passes.
//!
//! Expression nodes live in an arena (`Program::exprs`); a node refers to its
//! children by arena index. The arena is topologically ordered: every child
//! of a node has a smaller index than the node itself (`arena_wf`), which is
//! the natural order for a parser that allocates children before parents.
//! A node's index doubles as its identity, so later passes can attach
//! information to nodes without mutating the tree.

use vstd::prelude::*;

verus! {

/// A primitive type of the source language. `Unit` is the type of a block
/// without a trailing expression and of an absent `if` branch.
#[derive(Clone, Copy, Debug, Hash, PartialEq, Eq, Structural)]
pub enum Type {
    Unit,
    Int,
    Bool,
    Str,
}

/// The tag of a binary operator; its meaning per operand type is settled by
/// type inference and code generation.
#[derive(Clone, Copy, Debug, Hash, PartialEq, Eq, Structural)]
pub enum BinaryOperator {
    Add,
    Subtract,
    Multiply,
    Divide,
    Modulus,
    Equal,
    NotEqual,
    Less,
    Greater,
    LessEqual,
    GreaterEqual,
    LogicalAnd,
    LogicalOr,
}

/// Index of an expression node in the `Program` arena.
pub type ExprId = usize;

/// An externally supplied input of the given type.
#[derive(Clone, Debug)]
pub enum ReadExpression {
    Type(Type),
}

/// A reference to a name bound by an enclosing declaration.
#[derive(Clone, Debug)]
pub struct NameExpression {
    pub name: String,
}

/// A declaration: binds `name` of declared type `ty` to the value of the
/// expression `value`, visible to the later statements and the trailing
/// expression of the same block.
#[derive(Clone, Debug)]
pub struct LetStatement {
    pub name: String,
    pub ty: Type,
    pub value: ExprId,
}

/// One statement of a block.
#[derive(Clone, Debug)]
pub enum Statement {
    Let(LetStatement),
    Expression(ExprId),
}

/// An ordered statement sequence with an optional trailing expression whose
/// value is the block's value; without one the block's value is unit.
#[derive(Clone, Debug)]
pub struct Block {
    pub statements: Vec<Statement>,
    pub last_expression: Option<ExprId>,
}

/// An `if` branch: a bare expression or a block.
#[derive(Clone, Debug)]
pub enum ExpressionOrBlock {
    Expression(ExprId),
    Block(Block),
}

/// A conditional with a value: each branch yields the branch's value, and an
/// absent negative branch yields unit.
#[derive(Clone, Debug)]
pub struct IfExpression {
    pub condition: ExprId,
    pub positive: ExpressionOrBlock,
    pub negative: Option<ExpressionOrBlock>,
}

/// An application of a binary operator to two sub-expressions.
#[derive(Clone, Debug)]
pub struct BinaryOperatorExpression {
    pub lhs: ExprId,
    pub operator: BinaryOperator,
    pub rhs: ExprId,
}

/// An expression node of the arena.
#[derive(Clone, Debug)]
pub enum Expression {
    Read(ReadExpression),
    Name(NameExpression),
    If(IfExpression),
    BinaryOperator(BinaryOperatorExpression),
}

/// A whole compilation unit: the node arena and the program body.
#[derive(Clone, Debug)]
pub struct Program {
    pub exprs: Vec<Expression>,
    pub body: Block,
}

/// Every expression id a statement holds lies below `bound`.
pub open spec fn stmt_wf(s: Statement, bound: int) -> bool {
    match s {
        Statement::Let(l) => (l.value as int) < bound,
        Statement::Expression(e) => (e as int) < bound,
    }
}

/// Every expression id a block holds lies below `bound`.
pub open spec fn block_wf(b: Block, bound: int) -> bool {
    &&& forall|j: int|
        0 <= j < b.statements@.len() ==> stmt_wf(#[trigger] b.statements@[j], bound)
    &&& b.last_expression is Some ==> (b.last_expression->0 as int) < bound
}

/// Every expression id a branch holds lies below `bound`.
pub open spec fn branch_wf(br: ExpressionOrBlock, bound: int) -> bool {
    match br {
        ExpressionOrBlock::Expression(e) => (e as int) < bound,
        ExpressionOrBlock::Block(b) => block_wf(b, bound),
    }
}

/// Every child id of a node lies below `bound`.
pub open spec fn expr_wf(e: Expression, bound: int) -> bool {
    match e {
        Expression::Read(_) => true,
        Expression::Name(_) => true,
        Expression::If(f) => {
            &&& (f.condition as int) < bound
            &&& branch_wf(f.positive, bound)
            &&& f.negative is Some ==> branch_wf(f.negative->0, bound)
        },
        Expression::BinaryOperator(b) => (b.lhs as int) < bound && (b.rhs as int) < bound,
    }
}

/// Topological order of the arena: each node's children precede it.
pub open spec fn arena_wf(exprs: Seq<Expression>) -> bool {
    forall|i: int| 0 <= i < exprs.len() ==> expr_wf(#[trigger] exprs[i], i)
}

/// A well-formed program: ordered arena, and a body whose ids are in range.
pub open spec fn program_wf(p: Program) -> bool {
    arena_wf(p.exprs@) && block_wf(p.body, p.exprs@.len() as int)
}

/// The expression that gives a branch its value: the branch itself when it
/// is a bare expression, else the block's trailing expression if any.
pub open spec fn spec_branch_value(br: ExpressionOrBlock) -> Option<ExprId> {
    match br {
        ExpressionOrBlock::Expression(e) => Some(e),
        ExpressionOrBlock::Block(b) => b.last_expression,
    }
}

/// Executable counterpart of `spec_branch_value`.
pub fn branch_value(br: &ExpressionOrBlock) -> (r: Option<ExprId>)
    ensures
        r == spec_branch_value(*br),
{
    match br {
        ExpressionOrBlock::Expression(e) => Some(*e),
        ExpressionOrBlock::Block(b) => b.last_expression,
    }
}

/// Id bounds are monotone in the bound.
pub proof fn lemma_branch_wf_mono(br: ExpressionOrBlock, a: int, b: int)
    requires
        branch_wf(br, a),
        a <= b,
    ensures
        branch_wf(br, b),
{
    match br {
        ExpressionOrBlock::Expression(_) => {},
        ExpressionOrBlock::Block(blk) => {
            assert forall|j: int| 0 <= j < blk.statements@.len() implies stmt_wf(
                #[trigger] blk.statements@[j],
                b,
            ) by {
                assert(stmt_wf(blk.statements@[j], a));
            }
        },
    }
}

} // verus!
