//! Code generation: lowering the expression tree into imperative, C-like
//! statement text.
//!
//! The source language treats `if` (and blocks) as expressions with a
//! value, the target is purely statement-based, so every value-producing
//! construct is linearized: a fresh temporary typed by the construct's
//! inferred type is declared, each branch is emitted as a statement
//! sequence that assigns its value into the temporary, and the temporary's
//! name is the construct's generated value for the surrounding expression.
//! All emission is append-only on one output buffer; a node's statements
//! always precede the first use of its value.
//!
//! `gen_expr_spec` and its companions are the pure model of the pass; the
//! executable functions are proved to follow it, so generation is a
//! function of the program and its resolution alone.

use vstd::prelude::*;
use vstd::string::StringExecFns;

use crate::ast::{
    arena_wf, branch_wf, expr_wf, program_wf, spec_branch_value, stmt_wf, BinaryOperator, Block,
    Expression, ExpressionOrBlock, Program, ReadExpression, Statement, Type,
};
use crate::errors::{err_matches, text_result_matches, CompileError};
use crate::infer::infer_if_spec;
use crate::names::{temp_name, temp_name_text};
use crate::resolve::{resolve_program, resolve_program_spec, NamesResolved};
use crate::scope::ScopeModel;

verus! {

/// The target-text spelling of a type. The unit type is spelled `tuple0`,
/// the target's zero-field value type.
pub open spec fn ctype_text(t: Type) -> Seq<char> {
    match t {
        Type::Unit => seq!['t', 'u', 'p', 'l', 'e', '0'],
        Type::Int => seq!['i', 'n', 't'],
        Type::Bool => seq!['b', 'o', 'o', 'l'],
        Type::Str => seq!['s', 't', 'r'],
    }
}

/// The target-text literal for the unit value.
pub open spec fn unit_value_text() -> Seq<char> {
    seq!['t', 'u', 'p', 'l', 'e', '0', ' ', '{', '}']
}

/// The value placeholder for an externally supplied input of type `t`.
pub open spec fn read_text(t: Type) -> Seq<char> {
    seq!['r', 'e', 'a', 'd', '_'] + ctype_text(t) + seq!['(', ')']
}

/// The target operator token for each operator tag; every tag has one.
pub open spec fn op_token_text(op: BinaryOperator) -> Seq<char> {
    match op {
        BinaryOperator::Add => seq!['+'],
        BinaryOperator::Subtract => seq!['-'],
        BinaryOperator::Multiply => seq!['*'],
        BinaryOperator::Divide => seq!['/'],
        BinaryOperator::Modulus => seq!['%'],
        BinaryOperator::Equal => seq!['=', '='],
        BinaryOperator::NotEqual => seq!['!', '='],
        BinaryOperator::Less => seq!['<'],
        BinaryOperator::Greater => seq!['>'],
        BinaryOperator::LessEqual => seq!['<', '='],
        BinaryOperator::GreaterEqual => seq!['>', '='],
        BinaryOperator::LogicalAnd => seq!['&', '&'],
        BinaryOperator::LogicalOr => seq!['|', '|'],
    }
}

impl Type {
    /// The target-text spelling of this type.
    pub fn as_c_type(&self) -> (r: &'static str)
        ensures
            r@ == ctype_text(*self),
    {
        proof {
            reveal_strlit("tuple0");
            reveal_strlit("int");
            reveal_strlit("bool");
            reveal_strlit("str");
            assert("tuple0"@ =~= ctype_text(Type::Unit));
            assert("int"@ =~= ctype_text(Type::Int));
            assert("bool"@ =~= ctype_text(Type::Bool));
            assert("str"@ =~= ctype_text(Type::Str));
        }
        match self {
            Type::Unit => "tuple0",
            Type::Int => "int",
            Type::Bool => "bool",
            Type::Str => "str",
        }
    }
}

/// The target operator token for `op`.
pub fn op_token(op: BinaryOperator) -> (r: &'static str)
    ensures
        r@ == op_token_text(op),
{
    proof {
        reveal_strlit("+");
        reveal_strlit("-");
        reveal_strlit("*");
        reveal_strlit("/");
        reveal_strlit("%");
        reveal_strlit("==");
        reveal_strlit("!=");
        reveal_strlit("<");
        reveal_strlit(">");
        reveal_strlit("<=");
        reveal_strlit(">=");
        reveal_strlit("&&");
        reveal_strlit("||");
        assert("+"@ =~= op_token_text(BinaryOperator::Add));
        assert("-"@ =~= op_token_text(BinaryOperator::Subtract));
        assert("*"@ =~= op_token_text(BinaryOperator::Multiply));
        assert("/"@ =~= op_token_text(BinaryOperator::Divide));
        assert("%"@ =~= op_token_text(BinaryOperator::Modulus));
        assert("=="@ =~= op_token_text(BinaryOperator::Equal));
        assert("!="@ =~= op_token_text(BinaryOperator::NotEqual));
        assert("<"@ =~= op_token_text(BinaryOperator::Less));
        assert(">"@ =~= op_token_text(BinaryOperator::Greater));
        assert("<="@ =~= op_token_text(BinaryOperator::LessEqual));
        assert(">="@ =~= op_token_text(BinaryOperator::GreaterEqual));
        assert("&&"@ =~= op_token_text(BinaryOperator::LogicalAnd));
        assert("||"@ =~= op_token_text(BinaryOperator::LogicalOr));
    }
    match op {
        BinaryOperator::Add => "+",
        BinaryOperator::Subtract => "-",
        BinaryOperator::Multiply => "*",
        BinaryOperator::Divide => "/",
        BinaryOperator::Modulus => "%",
        BinaryOperator::Equal => "==",
        BinaryOperator::NotEqual => "!=",
        BinaryOperator::Less => "<",
        BinaryOperator::Greater => ">",
        BinaryOperator::LessEqual => "<=",
        BinaryOperator::GreaterEqual => ">=",
        BinaryOperator::LogicalAnd => "&&",
        BinaryOperator::LogicalOr => "||",
    }
}

fn unit_value() -> (r: &'static str)
    ensures
        r@ == unit_value_text(),
{
    proof {
        reveal_strlit("tuple0 {}");
        assert("tuple0 {}"@ =~= unit_value_text());
    }
    "tuple0 {}"
}

fn txt_space() -> (r: &'static str)
    ensures
        r@ == seq![' '],
{
    proof {
        reveal_strlit(" ");
        assert(" "@ =~= seq![' ']);
    }
    " "
}

fn txt_semi_nl() -> (r: &'static str)
    ensures
        r@ == seq![';', '\n'],
{
    proof {
        reveal_strlit(";\n");
        assert(";\n"@ =~= seq![';', '\n']);
    }
    ";\n"
}

fn txt_if_open() -> (r: &'static str)
    ensures
        r@ == seq!['i', 'f', ' ', '('],
{
    proof {
        reveal_strlit("if (");
        assert("if ("@ =~= seq!['i', 'f', ' ', '(']);
    }
    "if ("
}

fn txt_cond_close() -> (r: &'static str)
    ensures
        r@ == seq![')', ' ', '{', '\n'],
{
    proof {
        reveal_strlit(") {\n");
        assert(") {\n"@ =~= seq![')', ' ', '{', '\n']);
    }
    ") {\n"
}

fn txt_else_open() -> (r: &'static str)
    ensures
        r@ == seq!['}', ' ', 'e', 'l', 's', 'e', ' ', '{', '\n'],
{
    proof {
        reveal_strlit("} else {\n");
        assert("} else {\n"@ =~= seq!['}', ' ', 'e', 'l', 's', 'e', ' ', '{', '\n']);
    }
    "} else {\n"
}

fn txt_assign() -> (r: &'static str)
    ensures
        r@ == seq![' ', '=', ' '],
{
    proof {
        reveal_strlit(" = ");
        assert(" = "@ =~= seq![' ', '=', ' ']);
    }
    " = "
}

fn txt_close_if() -> (r: &'static str)
    ensures
        r@ == seq![';', '\n', '}', '\n'],
{
    proof {
        reveal_strlit(";\n}\n");
        assert(";\n}\n"@ =~= seq![';', '\n', '}', '\n']);
    }
    ";\n}\n"
}

fn txt_lparen() -> (r: &'static str)
    ensures
        r@ == seq!['('],
{
    proof {
        reveal_strlit("(");
        assert("("@ =~= seq!['(']);
    }
    "("
}

fn txt_rparen() -> (r: &'static str)
    ensures
        r@ == seq![')'],
{
    proof {
        reveal_strlit(")");
        assert(")"@ =~= seq![')']);
    }
    ")"
}

fn txt_read_prefix() -> (r: &'static str)
    ensures
        r@ == seq!['r', 'e', 'a', 'd', '_'],
{
    proof {
        reveal_strlit("read_");
        assert("read_"@ =~= seq!['r', 'e', 'a', 'd', '_']);
    }
    "read_"
}

fn txt_call_parens() -> (r: &'static str)
    ensures
        r@ == seq!['(', ')'],
{
    proof {
        reveal_strlit("()");
        assert("()"@ =~= seq!['(', ')']);
    }
    "()"
}

/// Pass-lifetime state of code generation: the resolution result
/// (read-only), the counter for fresh temporaries, and the output buffer
/// for the program body.
pub struct CodegenContext {
    pub name_resolution: NamesResolved,
    pub counter: u64,
    pub main: String,
}

impl CodegenContext {
    /// A fresh context over a resolution result: counter at zero, empty
    /// output buffer.
    pub fn new(resolution: NamesResolved) -> (r: CodegenContext)
        ensures
            r.name_resolution == resolution,
            r.counter == 0,
            r.main@ == Seq::<char>::empty(),
    {
        CodegenContext { name_resolution: resolution, counter: 0, main: String::new() }
    }

    /// The scope resolution recorded for the node, `None` where it
    /// recorded nothing.
    pub open spec fn spec_scope(&self, node: usize) -> Option<usize> {
        if (node as int) < self.name_resolution.of_node@.len() {
            self.name_resolution.of_node@[node as int]
        } else {
            None
        }
    }

    /// Executable counterpart of `spec_scope`.
    pub fn scope(&self, node: usize) -> (r: Option<usize>)
        ensures
            r == self.spec_scope(node),
    {
        if node < self.name_resolution.of_node.len() {
            self.name_resolution.of_node[node]
        } else {
            None
        }
    }

    /// Mint the next temporary name and advance the counter.
    fn fresh_name(&mut self) -> (r: String)
        requires
            old(self).counter < u64::MAX,
        ensures
            final(self).counter == old(self).counter + 1,
            final(self).main == old(self).main,
            final(self).name_resolution == old(self).name_resolution,
            r@ == temp_name_text(old(self).counter as nat),
    {
        let n = temp_name(self.counter);
        self.counter = self.counter + 1;
        n
    }
}

/// One step of the generation model: the counter, the output buffer, and
/// the construct's value text or the first failure.
pub type GenOut = (int, Seq<char>, Result<Seq<char>, CompileError<Seq<char>>>);

/// Like `GenOut` for statement sequences, which have no value.
pub type GenStmtsOut = (int, Seq<char>, Result<(), CompileError<Seq<char>>>);

#[via_fn]
proof fn gen_expr_spec_decreases(
    exprs: Seq<Expression>,
    scopes: Seq<ScopeModel>,
    of_node: Seq<Option<usize>>,
    i: int,
    counter: int,
    out: Seq<char>,
) {
    assert(expr_wf(exprs[i], i));
}

/// Model of generating code for node `i`: emitted statements are appended
/// to `out`, and the node's value text is returned.
pub open spec fn gen_expr_spec(
    exprs: Seq<Expression>,
    scopes: Seq<ScopeModel>,
    of_node: Seq<Option<usize>>,
    i: int,
    counter: int,
    out: Seq<char>,
) -> GenOut
    decreases i, 3int, 0int
        when 0 <= i < exprs.len() && arena_wf(exprs)
        via gen_expr_spec_decreases
{
    match exprs[i] {
        Expression::Read(ReadExpression::Type(t)) => (counter, out, Ok(read_text(t))),
        Expression::Name(n) => (counter, out, Ok(n.name@)),
        Expression::BinaryOperator(b) => {
            let (c1, o1, r1) = gen_expr_spec(exprs, scopes, of_node, b.lhs as int, counter, out);
            match r1 {
                Err(e) => (c1, o1, Err(e)),
                Ok(lv) => {
                    let (c2, o2, r2) = gen_expr_spec(exprs, scopes, of_node, b.rhs as int, c1, o1);
                    match r2 {
                        Err(e) => (c2, o2, Err(e)),
                        Ok(rv) => (
                            c2,
                            o2,
                            Ok(
                                seq!['('] + lv + seq![' '] + op_token_text(b.operator) + seq![' ']
                                    + rv + seq![')'],
                            ),
                        ),
                    }
                },
            }
        },
        Expression::If(f) => {
            if counter >= u64::MAX {
                (counter, out, Err(CompileError::TemporariesExhausted))
            } else {
                match infer_if_spec(exprs, scopes, of_node, f) {
                    Err(e) => (counter, out, Err(e)),
                    Ok(ty) => {
                        let tmp = temp_name_text(counter as nat);
                        let c1 = counter + 1;
                        let o1 = out + ctype_text(ty) + seq![' '] + tmp + seq![';', '\n'];
                        let (c2, o2, r2) = gen_expr_spec(
                            exprs,
                            scopes,
                            of_node,
                            f.condition as int,
                            c1,
                            o1,
                        );
                        match r2 {
                            Err(e) => (c2, o2, Err(e)),
                            Ok(cv) => {
                                let o3 = o2 + seq!['i', 'f', ' ', '('] + cv + seq![
                                    ')',
                                    ' ',
                                    '{',
                                    '\n',
                                ];
                                let (c3, o4, r3) = gen_branch_spec(
                                    exprs,
                                    scopes,
                                    of_node,
                                    i,
                                    f.positive,
                                    c2,
                                    o3,
                                );
                                match r3 {
                                    Err(e) => (c3, o4, Err(e)),
                                    Ok(pv) => {
                                        let o5 = o4 + tmp + seq![' ', '=', ' '] + pv + seq![
                                            ';',
                                            '\n',
                                        ] + seq!['}', ' ', 'e', 'l', 's', 'e', ' ', '{', '\n'];
                                        let (c4, o6, r4) = match f.negative {
                                            Some(br) => gen_branch_spec(
                                                exprs,
                                                scopes,
                                                of_node,
                                                i,
                                                br,
                                                c3,
                                                o5,
                                            ),
                                            None => (c3, o5, Ok(unit_value_text())),
                                        };
                                        match r4 {
                                            Err(e) => (c4, o6, Err(e)),
                                            Ok(nv) => (
                                                c4,
                                                o6 + tmp + seq![' ', '=', ' '] + nv + seq![
                                                    ';',
                                                    '\n',
                                                    '}',
                                                    '\n',
                                                ],
                                                Ok(tmp),
                                            ),
                                        }
                                    },
                                }
                            },
                        }
                    },
                }
            }
        },
    }
}

/// Model of generating one `if` branch: its statements are emitted, and the
/// branch's value text is returned — the unit literal for a block without a
/// trailing expression.
pub open spec fn gen_branch_spec(
    exprs: Seq<Expression>,
    scopes: Seq<ScopeModel>,
    of_node: Seq<Option<usize>>,
    bound: int,
    br: ExpressionOrBlock,
    counter: int,
    out: Seq<char>,
) -> GenOut
    decreases bound, 2int, 0int
        when 0 <= bound <= exprs.len() && arena_wf(exprs) && branch_wf(br, bound)
{
    match br {
        ExpressionOrBlock::Expression(e) => gen_expr_spec(
            exprs,
            scopes,
            of_node,
            e as int,
            counter,
            out,
        ),
        ExpressionOrBlock::Block(b) => {
            let (c1, o1, r1) = gen_stmts_spec(
                exprs,
                scopes,
                of_node,
                bound,
                b.statements@,
                0,
                counter,
                out,
            );
            match r1 {
                Err(e) => (c1, o1, Err(e)),
                Ok(_) => match b.last_expression {
                    Some(e) => gen_expr_spec(exprs, scopes, of_node, e as int, c1, o1),
                    None => (c1, o1, Ok(unit_value_text())),
                },
            }
        },
    }
}

/// Model of generating a statement sequence from position `j` on. A `let`
/// emits a typed declaration initialized with its value's text; a bare
/// expression statement emits its value's text as a statement.
pub open spec fn gen_stmts_spec(
    exprs: Seq<Expression>,
    scopes: Seq<ScopeModel>,
    of_node: Seq<Option<usize>>,
    bound: int,
    stmts: Seq<Statement>,
    j: int,
    counter: int,
    out: Seq<char>,
) -> GenStmtsOut
    decreases bound, 1int, stmts.len() - j
        when 0 <= bound <= exprs.len() && arena_wf(exprs) && 0 <= j <= stmts.len() && (forall|
            k: int,
        |
            j <= k < stmts.len() ==> stmt_wf(#[trigger] stmts[k], bound))
{
    if j == stmts.len() {
        (counter, out, Ok(()))
    } else {
        match stmts[j] {
            Statement::Expression(e) => {
                let (c1, o1, r1) = gen_expr_spec(exprs, scopes, of_node, e as int, counter, out);
                match r1 {
                    Err(er) => (c1, o1, Err(er)),
                    Ok(v) => gen_stmts_spec(
                        exprs,
                        scopes,
                        of_node,
                        bound,
                        stmts,
                        j + 1,
                        c1,
                        o1 + v + seq![';', '\n'],
                    ),
                }
            },
            Statement::Let(l) => {
                let (c1, o1, r1) = gen_expr_spec(
                    exprs,
                    scopes,
                    of_node,
                    l.value as int,
                    counter,
                    out,
                );
                match r1 {
                    Err(er) => (c1, o1, Err(er)),
                    Ok(v) => gen_stmts_spec(
                        exprs,
                        scopes,
                        of_node,
                        bound,
                        stmts,
                        j + 1,
                        c1,
                        o1 + ctype_text(l.ty) + seq![' '] + l.name@ + seq![' ', '=', ' '] + v
                            + seq![';', '\n'],
                    ),
                }
            },
        }
    }
}

/// Model of generating a whole program body, starting from an empty buffer
/// and counter zero.
pub open spec fn gen_program_spec(
    p: Program,
    scopes: Seq<ScopeModel>,
    of_node: Seq<Option<usize>>,
) -> Result<Seq<char>, CompileError<Seq<char>>> {
    let (c1, o1, r1) = gen_stmts_spec(
        p.exprs@,
        scopes,
        of_node,
        p.exprs@.len() as int,
        p.body.statements@,
        0,
        0,
        Seq::empty(),
    );
    match r1 {
        Err(e) => Err(e),
        Ok(_) => match p.body.last_expression {
            Some(e) => {
                let (c2, o2, r2) = gen_expr_spec(p.exprs@, scopes, of_node, e as int, c1, o1);
                match r2 {
                    Err(er) => Err(er),
                    Ok(v) => Ok(o2 + v + seq![';', '\n']),
                }
            },
            None => Ok(o1),
        },
    }
}

/// Model of the whole pipeline: resolution first; on its success, code
/// generation (which infers types on demand) over the resolution's output.
/// A failing pass stops the pipeline, so no output text exists on error.
pub open spec fn compile_spec(p: Program) -> Result<Seq<char>, CompileError<Seq<char>>> {
    let (scopes, of_node, r) = resolve_program_spec(p);
    match r {
        Err(e) => Err(e),
        Ok(_) => gen_program_spec(p, scopes, of_node),
    }
}

/// The fresh-name counter never decreases across generating one node, so
/// every temporary minted later in a run carries a strictly larger counter
/// value than any minted earlier.
pub proof fn lemma_gen_expr_counter_monotone(
    exprs: Seq<Expression>,
    scopes: Seq<ScopeModel>,
    of_node: Seq<Option<usize>>,
    i: int,
    counter: int,
    out: Seq<char>,
)
    requires
        0 <= i < exprs.len(),
        arena_wf(exprs),
    ensures
        gen_expr_spec(exprs, scopes, of_node, i, counter, out).0 >= counter,
    decreases i, 3int, 0int,
{
    assert(expr_wf(exprs[i], i));
    match exprs[i] {
        Expression::Read(_) => {},
        Expression::Name(_) => {},
        Expression::BinaryOperator(b) => {
            let (c1, o1, r1) = gen_expr_spec(exprs, scopes, of_node, b.lhs as int, counter, out);
            lemma_gen_expr_counter_monotone(exprs, scopes, of_node, b.lhs as int, counter, out);
            if !(r1 is Err) {
                lemma_gen_expr_counter_monotone(exprs, scopes, of_node, b.rhs as int, c1, o1);
            }
        },
        Expression::If(f) => {
            if counter < u64::MAX {
                match infer_if_spec(exprs, scopes, of_node, f) {
                    Err(_) => {},
                    Ok(ty) => {
                        let tmp = temp_name_text(counter as nat);
                        let c1 = counter + 1;
                        let o1 = out + ctype_text(ty) + seq![' '] + tmp + seq![';', '\n'];
                        let (c2, o2, r2) = gen_expr_spec(
                            exprs,
                            scopes,
                            of_node,
                            f.condition as int,
                            c1,
                            o1,
                        );
                        lemma_gen_expr_counter_monotone(
                            exprs,
                            scopes,
                            of_node,
                            f.condition as int,
                            c1,
                            o1,
                        );
                        if !(r2 is Err) {
                            let cv = r2->Ok_0;
                            let o3 = o2 + seq!['i', 'f', ' ', '('] + cv + seq![')', ' ', '{', '\n'];
                            let (c3, o4, r3) = gen_branch_spec(
                                exprs,
                                scopes,
                                of_node,
                                i,
                                f.positive,
                                c2,
                                o3,
                            );
                            lemma_gen_branch_counter_monotone(
                                exprs,
                                scopes,
                                of_node,
                                i,
                                f.positive,
                                c2,
                                o3,
                            );
                            if !(r3 is Err) {
                                let pv = r3->Ok_0;
                                let o5 = o4 + tmp + seq![' ', '=', ' '] + pv + seq![';', '\n']
                                    + seq!['}', ' ', 'e', 'l', 's', 'e', ' ', '{', '\n'];
                                match f.negative {
                                    Some(br) => {
                                        lemma_gen_branch_counter_monotone(
                                            exprs,
                                            scopes,
                                            of_node,
                                            i,
                                            br,
                                            c3,
                                            o5,
                                        );
                                    },
                                    None => {},
                                }
                            }
                        }
                    },
                }
            }
        },
    }
}

/// Companion of `lemma_gen_expr_counter_monotone` for one branch.
pub proof fn lemma_gen_branch_counter_monotone(
    exprs: Seq<Expression>,
    scopes: Seq<ScopeModel>,
    of_node: Seq<Option<usize>>,
    bound: int,
    br: ExpressionOrBlock,
    counter: int,
    out: Seq<char>,
)
    requires
        0 <= bound <= exprs.len(),
        arena_wf(exprs),
        branch_wf(br, bound),
    ensures
        gen_branch_spec(exprs, scopes, of_node, bound, br, counter, out).0 >= counter,
    decreases bound, 2int, 0int,
{
    match br {
        ExpressionOrBlock::Expression(e) => {
            lemma_gen_expr_counter_monotone(exprs, scopes, of_node, e as int, counter, out);
        },
        ExpressionOrBlock::Block(b) => {
            let (c1, o1, r1) = gen_stmts_spec(
                exprs,
                scopes,
                of_node,
                bound,
                b.statements@,
                0,
                counter,
                out,
            );
            lemma_gen_stmts_counter_monotone(
                exprs,
                scopes,
                of_node,
                bound,
                b.statements@,
                0,
                counter,
                out,
            );
            if !(r1 is Err) {
                match b.last_expression {
                    Some(e) => {
                        lemma_gen_expr_counter_monotone(exprs, scopes, of_node, e as int, c1, o1);
                    },
                    None => {},
                }
            }
        },
    }
}

/// Companion of `lemma_gen_expr_counter_monotone` for statement sequences.
pub proof fn lemma_gen_stmts_counter_monotone(
    exprs: Seq<Expression>,
    scopes: Seq<ScopeModel>,
    of_node: Seq<Option<usize>>,
    bound: int,
    stmts: Seq<Statement>,
    j: int,
    counter: int,
    out: Seq<char>,
)
    requires
        0 <= bound <= exprs.len(),
        arena_wf(exprs),
        0 <= j <= stmts.len(),
        forall|k: int| j <= k < stmts.len() ==> stmt_wf(#[trigger] stmts[k], bound),
    ensures
        gen_stmts_spec(exprs, scopes, of_node, bound, stmts, j, counter, out).0 >= counter,
    decreases bound, 1int, stmts.len() - j,
{
    if j < stmts.len() {
        match stmts[j] {
            Statement::Expression(e) => {
                let (c1, o1, r1) = gen_expr_spec(exprs, scopes, of_node, e as int, counter, out);
                lemma_gen_expr_counter_monotone(exprs, scopes, of_node, e as int, counter, out);
                if !(r1 is Err) {
                    let v = r1->Ok_0;
                    lemma_gen_stmts_counter_monotone(
                        exprs,
                        scopes,
                        of_node,
                        bound,
                        stmts,
                        j + 1,
                        c1,
                        o1 + v + seq![';', '\n'],
                    );
                }
            },
            Statement::Let(l) => {
                let (c1, o1, r1) = gen_expr_spec(exprs, scopes, of_node, l.value as int, counter, out);
                lemma_gen_expr_counter_monotone(exprs, scopes, of_node, l.value as int, counter, out);
                if !(r1 is Err) {
                    let v = r1->Ok_0;
                    lemma_gen_stmts_counter_monotone(
                        exprs,
                        scopes,
                        of_node,
                        bound,
                        stmts,
                        j + 1,
                        c1,
                        o1 + ctype_text(l.ty) + seq![' '] + l.name@ + seq![' ', '=', ' '] + v
                            + seq![';', '\n'],
                    );
                }
            },
        }
    }
}

fn gen_expr(exprs: &Vec<Expression>, ctx: &mut CodegenContext, i: usize) -> (r: Result<
    String,
    CompileError<String>,
>)
    requires
        (i as int) < exprs@.len(),
        arena_wf(exprs@),
        old(ctx).name_resolution.wf(),
        old(ctx).name_resolution.of_node@.len() == exprs@.len(),
    ensures
        ({
            let (c2, o2, rr) = gen_expr_spec(
                exprs@,
                old(ctx).name_resolution.scopes_model(),
                old(ctx).name_resolution.of_node@,
                i as int,
                old(ctx).counter as int,
                old(ctx).main@,
            );
            &&& final(ctx).counter as int == c2
            &&& final(ctx).main@ == o2
            &&& text_result_matches(r, rr)
        }),
        final(ctx).name_resolution == old(ctx).name_resolution,
    decreases i, 3int, 0int,
{
    proof {
        assert(expr_wf(exprs@[i as int], i as int));
    }
    match &exprs[i] {
        Expression::Read(ReadExpression::Type(t)) => {
            let mut v = String::from_str(txt_read_prefix());
            v.append(t.as_c_type());
            v.append(txt_call_parens());
            Ok(v)
        },
        Expression::Name(n) => Ok(n.name.clone()),
        Expression::BinaryOperator(b) => {
            let lv = match gen_expr(exprs, ctx, b.lhs) {
                Ok(v) => v,
                Err(e) => return Err(e),
            };
            let rv = match gen_expr(exprs, ctx, b.rhs) {
                Ok(v) => v,
                Err(e) => return Err(e),
            };
            let mut v = String::from_str(txt_lparen());
            v.append(lv.as_str());
            v.append(txt_space());
            v.append(op_token(b.operator));
            v.append(txt_space());
            v.append(rv.as_str());
            v.append(txt_rparen());
            Ok(v)
        },
        Expression::If(f) => {
            if ctx.counter == u64::MAX {
                return Err(CompileError::TemporariesExhausted);
            }
            proof {
                crate::ast::lemma_branch_wf_mono(f.positive, i as int, exprs@.len() as int);
                if f.negative is Some {
                    crate::ast::lemma_branch_wf_mono(
                        f.negative->0,
                        i as int,
                        exprs@.len() as int,
                    );
                }
            }
            let ty = match f.infer_type(exprs, &ctx.name_resolution) {
                Ok(t) => t,
                Err(e) => return Err(e),
            };
            let tmp = ctx.fresh_name();
            ctx.main.append(ty.as_c_type());
            ctx.main.append(txt_space());
            ctx.main.append(tmp.as_str());
            ctx.main.append(txt_semi_nl());
            let cv = match gen_expr(exprs, ctx, f.condition) {
                Ok(v) => v,
                Err(e) => return Err(e),
            };
            ctx.main.append(txt_if_open());
            ctx.main.append(cv.as_str());
            ctx.main.append(txt_cond_close());
            let pv = match gen_branch(exprs, ctx, Ghost(i as int), &f.positive) {
                Ok(v) => v,
                Err(e) => return Err(e),
            };
            ctx.main.append(tmp.as_str());
            ctx.main.append(txt_assign());
            ctx.main.append(pv.as_str());
            ctx.main.append(txt_semi_nl());
            ctx.main.append(txt_else_open());
            let nv = match &f.negative {
                Some(br) => match gen_branch(exprs, ctx, Ghost(i as int), br) {
                    Ok(v) => v,
                    Err(e) => return Err(e),
                },
                None => String::from_str(unit_value()),
            };
            ctx.main.append(tmp.as_str());
            ctx.main.append(txt_assign());
            ctx.main.append(nv.as_str());
            ctx.main.append(txt_close_if());
            Ok(tmp)
        },
    }
}

fn gen_branch(
    exprs: &Vec<Expression>,
    ctx: &mut CodegenContext,
    bound: Ghost<int>,
    br: &ExpressionOrBlock,
) -> (r: Result<String, CompileError<String>>)
    requires
        0 <= bound@ <= exprs@.len(),
        arena_wf(exprs@),
        branch_wf(*br, bound@),
        old(ctx).name_resolution.wf(),
        old(ctx).name_resolution.of_node@.len() == exprs@.len(),
    ensures
        ({
            let (c2, o2, rr) = gen_branch_spec(
                exprs@,
                old(ctx).name_resolution.scopes_model(),
                old(ctx).name_resolution.of_node@,
                bound@,
                *br,
                old(ctx).counter as int,
                old(ctx).main@,
            );
            &&& final(ctx).counter as int == c2
            &&& final(ctx).main@ == o2
            &&& text_result_matches(r, rr)
        }),
        final(ctx).name_resolution == old(ctx).name_resolution,
    decreases bound@, 2int, 0int,
{
    match br {
        ExpressionOrBlock::Expression(e) => gen_expr(exprs, ctx, *e),
        ExpressionOrBlock::Block(b) => {
            match gen_stmts(exprs, ctx, bound, &b.statements, 0) {
                Ok(_) => {},
                Err(e) => return Err(e),
            }
            match b.last_expression {
                Some(e) => gen_expr(exprs, ctx, e),
                None => Ok(String::from_str(unit_value())),
            }
        },
    }
}

fn gen_stmts(
    exprs: &Vec<Expression>,
    ctx: &mut CodegenContext,
    bound: Ghost<int>,
    stmts: &Vec<Statement>,
    j: usize,
) -> (r: Result<(), CompileError<String>>)
    requires
        0 <= bound@ <= exprs@.len(),
        arena_wf(exprs@),
        (j as int) <= stmts@.len(),
        forall|k: int| j as int <= k < stmts@.len() ==> stmt_wf(#[trigger] stmts@[k], bound@),
        old(ctx).name_resolution.wf(),
        old(ctx).name_resolution.of_node@.len() == exprs@.len(),
    ensures
        ({
            let (c2, o2, rr) = gen_stmts_spec(
                exprs@,
                old(ctx).name_resolution.scopes_model(),
                old(ctx).name_resolution.of_node@,
                bound@,
                stmts@,
                j as int,
                old(ctx).counter as int,
                old(ctx).main@,
            );
            &&& final(ctx).counter as int == c2
            &&& final(ctx).main@ == o2
            &&& (match (r, rr) {
                (Ok(_), Ok(_)) => true,
                (Err(e), Err(ge)) => err_matches(e, ge),
                _ => false,
            })
        }),
        final(ctx).name_resolution == old(ctx).name_resolution,
    decreases bound@, 1int, stmts@.len() - j@,
{
    if j == stmts.len() {
        return Ok(());
    }
    match &stmts[j] {
        Statement::Expression(e) => {
            let v = match gen_expr(exprs, ctx, *e) {
                Ok(v) => v,
                Err(er) => return Err(er),
            };
            ctx.main.append(v.as_str());
            ctx.main.append(txt_semi_nl());
            gen_stmts(exprs, ctx, bound, stmts, j + 1)
        },
        Statement::Let(l) => {
            let v = match gen_expr(exprs, ctx, l.value) {
                Ok(v) => v,
                Err(er) => return Err(er),
            };
            ctx.main.append(l.ty.as_c_type());
            ctx.main.append(txt_space());
            ctx.main.append(l.name.as_str());
            ctx.main.append(txt_assign());
            ctx.main.append(v.as_str());
            ctx.main.append(txt_semi_nl());
            gen_stmts(exprs, ctx, bound, stmts, j + 1)
        },
    }
}

/// Run the whole pipeline on a program: name resolution, then code
/// generation (type inference on demand), stopping at the first failing
/// pass. On success the result is the generated body text; it follows
/// `compile_spec` exactly, so two runs over one program agree byte for
/// byte.
pub fn generate_codes(ast: Program) -> (r: Result<String, CompileError<String>>)
    requires
        program_wf(ast),
    ensures
        text_result_matches(r, compile_spec(ast)),
{
    let nr = match resolve_program(&ast) {
        Ok(nr) => nr,
        Err(e) => return Err(e),
    };
    let mut ctx = CodegenContext::new(nr);
    match gen_stmts(&ast.exprs, &mut ctx, Ghost(ast.exprs@.len() as int), &ast.body.statements, 0) {
        Ok(_) => {},
        Err(e) => return Err(e),
    }
    match ast.body.last_expression {
        Some(e) => {
            let v = match gen_expr(&ast.exprs, &mut ctx, e) {
                Ok(v) => v,
                Err(er) => return Err(er),
            };
            ctx.main.append(v.as_str());
            ctx.main.append(txt_semi_nl());
            Ok(ctx.main)
        },
        None => Ok(ctx.main),
    }
}

} // verus!
