//! Scope construction and name resolution.
//!
//! The pass walks the program once, building the scope arena and recording,
//! for every expression node, the scope that was active there
//! (`NamesResolved::of_node`, keyed by arena index). A block's statements
//! run in the block's scope: a declaration is visible to the later
//! statements and the trailing expression of the same block. An `if` always
//! opens two fresh subscopes, one per branch, even for an absent branch.
//!
//! The pass fails with `UndefinedName` on a name that no enclosing scope
//! binds, and with `DuplicateBinding` on a re-declaration within one scope;
//! it stops at the first failure.
//!
//! `resolve_expr_spec` and its companions are the pure model of the pass;
//! the executable functions are proved to follow it step for step.

use vstd::prelude::*;

use crate::ast::{
    arena_wf, block_wf, branch_wf, expr_wf, program_wf, stmt_wf, Block, Expression,
    ExpressionOrBlock, Program, Statement,
};
use crate::errors::{err_matches, unit_result_matches, CompileError};
use crate::scope::{
    bindings_view, find_local, find_local_from, find_local_in, lookup, lookup_spec, scope_wf,
    scopes_view, scopes_wf, Binding, BindingModel, Scope, ScopeModel,
};

verus! {

/// The result of name resolution: the scope arena, and for each expression
/// node (by arena index) the scope that was active at that node. Later
/// passes hold this read-only.
pub struct NamesResolved {
    pub scopes: Vec<Scope>,
    pub of_node: Vec<Option<usize>>,
}

impl NamesResolved {
    /// Scope parents precede their children, and every recorded scope index
    /// is in range.
    pub open spec fn wf(&self) -> bool {
        &&& scopes_wf(scopes_view(self.scopes@))
        &&& forall|j: int|
            0 <= j < self.of_node@.len() ==> ((#[trigger] self.of_node@[j]) is Some
                ==> (self.of_node@[j]->0 as int) < self.scopes@.len())
    }

    /// The mathematical content of the scope arena.
    pub open spec fn scopes_model(&self) -> Seq<ScopeModel> {
        scopes_view(self.scopes@)
    }
}

/// One step of the resolution model: the scope arena, the node-to-scope
/// record, and success or the first failure.
pub type ResolveOut = (Seq<ScopeModel>, Seq<Option<usize>>, Result<(), CompileError<Seq<char>>>);

#[via_fn]
proof fn resolve_expr_spec_decreases(
    exprs: Seq<Expression>,
    i: int,
    cur: usize,
    scopes: Seq<ScopeModel>,
    of_node: Seq<Option<usize>>,
) {
    assert(expr_wf(exprs[i], i));
}

/// Model of resolving one expression node in scope `cur`.
pub open spec fn resolve_expr_spec(
    exprs: Seq<Expression>,
    i: int,
    cur: usize,
    scopes: Seq<ScopeModel>,
    of_node: Seq<Option<usize>>,
) -> ResolveOut
    decreases i, 3int, 0int
        when 0 <= i < exprs.len() && arena_wf(exprs)
        via resolve_expr_spec_decreases
{
    let of_node1 = of_node.update(i, Some(cur as usize));
    match exprs[i] {
        Expression::Read(_) => (scopes, of_node1, Ok(())),
        Expression::Name(n) => {
            if lookup_spec(scopes, cur as int, n.name@) is Some {
                (scopes, of_node1, Ok(()))
            } else {
                (scopes, of_node1, Err(CompileError::UndefinedName(n.name@)))
            }
        },
        Expression::BinaryOperator(b) => {
            let (s1, o1, r1) = resolve_expr_spec(exprs, b.lhs as int, cur, scopes, of_node1);
            if r1 is Err {
                (s1, o1, r1)
            } else {
                resolve_expr_spec(exprs, b.rhs as int, cur, s1, o1)
            }
        },
        Expression::If(f) => {
            let (s1, o1, r1) = resolve_expr_spec(exprs, f.condition as int, cur, scopes, of_node1);
            if r1 is Err {
                (s1, o1, r1)
            } else {
                let ps = s1.len() as usize;
                let s2 = s1.push(ScopeModel { parent: Some(cur), bindings: Seq::empty() });
                let (s3, o3, r3) = resolve_branch_spec(exprs, i, f.positive, ps, s2, o1);
                if r3 is Err {
                    (s3, o3, r3)
                } else {
                    let ns = s3.len() as usize;
                    let s4 = s3.push(ScopeModel { parent: Some(cur), bindings: Seq::empty() });
                    match f.negative {
                        Some(br) => resolve_branch_spec(exprs, i, br, ns, s4, o3),
                        None => (s4, o3, Ok(())),
                    }
                }
            }
        },
    }
}

/// Model of resolving one `if` branch in its fresh scope `sc`; `bound`
/// bounds the ids the branch holds.
pub open spec fn resolve_branch_spec(
    exprs: Seq<Expression>,
    bound: int,
    br: ExpressionOrBlock,
    sc: usize,
    scopes: Seq<ScopeModel>,
    of_node: Seq<Option<usize>>,
) -> ResolveOut
    decreases bound, 2int, 0int
        when 0 <= bound <= exprs.len() && arena_wf(exprs) && branch_wf(br, bound)
{
    match br {
        ExpressionOrBlock::Expression(e) => resolve_expr_spec(exprs, e as int, sc, scopes, of_node),
        ExpressionOrBlock::Block(b) => {
            let (s1, o1, r1) = resolve_stmts_spec(
                exprs,
                bound,
                b.statements@,
                0,
                sc,
                scopes,
                of_node,
            );
            if r1 is Err {
                (s1, o1, r1)
            } else {
                match b.last_expression {
                    Some(e) => resolve_expr_spec(exprs, e as int, sc, s1, o1),
                    None => (s1, o1, Ok(())),
                }
            }
        },
    }
}

/// Model of resolving a block's statements from position `j` on, in the
/// block's scope `sc`. A `let` resolves its value first (a declaration is
/// not visible to its own initializer), then fails on a duplicate within
/// `sc`, else appends the binding.
pub open spec fn resolve_stmts_spec(
    exprs: Seq<Expression>,
    bound: int,
    stmts: Seq<Statement>,
    j: int,
    sc: usize,
    scopes: Seq<ScopeModel>,
    of_node: Seq<Option<usize>>,
) -> ResolveOut
    decreases bound, 1int, stmts.len() - j
        when 0 <= bound <= exprs.len() && arena_wf(exprs) && 0 <= j <= stmts.len() && (forall|k: int|
            j <= k < stmts.len() ==> stmt_wf(#[trigger] stmts[k], bound))
{
    if j == stmts.len() {
        (scopes, of_node, Ok(()))
    } else {
        match stmts[j] {
            Statement::Expression(e) => {
                let (s1, o1, r1) = resolve_expr_spec(exprs, e as int, sc, scopes, of_node);
                if r1 is Err {
                    (s1, o1, r1)
                } else {
                    resolve_stmts_spec(exprs, bound, stmts, j + 1, sc, s1, o1)
                }
            },
            Statement::Let(l) => {
                let (s1, o1, r1) = resolve_expr_spec(exprs, l.value as int, sc, scopes, of_node);
                if r1 is Err {
                    (s1, o1, r1)
                } else if find_local(s1[sc as int].bindings, l.name@) is Some {
                    (s1, o1, Err(CompileError::DuplicateBinding(l.name@)))
                } else {
                    let s2 = s1.update(
                        sc as int,
                        ScopeModel {
                            parent: s1[sc as int].parent,
                            bindings: s1[sc as int].bindings.push(
                                BindingModel { name: l.name@, ty: l.ty },
                            ),
                        },
                    );
                    resolve_stmts_spec(exprs, bound, stmts, j + 1, sc, s2, o1)
                }
            },
        }
    }
}

/// Model of resolving a whole program: the body's statements and trailing
/// expression run in a fresh root scope.
pub open spec fn resolve_program_spec(p: Program) -> ResolveOut {
    let scopes0 = seq![ScopeModel { parent: None, bindings: Seq::empty() }];
    let of0 = Seq::new(p.exprs@.len(), |k: int| None::<usize>);
    let (s1, o1, r1) = resolve_stmts_spec(
        p.exprs@,
        p.exprs@.len() as int,
        p.body.statements@,
        0,
        0,
        scopes0,
        of0,
    );
    if r1 is Err {
        (s1, o1, r1)
    } else {
        match p.body.last_expression {
            Some(e) => resolve_expr_spec(p.exprs@, e as int, 0, s1, o1),
            None => (s1, o1, Ok(())),
        }
    }
}

/// `s2` grows out of `s1`: old scopes keep their parent and only gain
/// bindings at the end, and new scopes only appear at the end.
pub open spec fn scopes_extend(s2: Seq<ScopeModel>, s1: Seq<ScopeModel>) -> bool {
    &&& s1.len() <= s2.len()
    &&& forall|i: int|
        0 <= i < s1.len() ==> (#[trigger] s2[i]).parent == s1[i].parent
            && s1[i].bindings.is_prefix_of(s2[i].bindings)
}

/// Every recorded scope index is in range, and every recorded `Name` node
/// resolves in its recorded scope.
pub open spec fn names_inv(
    exprs: Seq<Expression>,
    scopes: Seq<ScopeModel>,
    of_node: Seq<Option<usize>>,
) -> bool {
    forall|j: int|
        0 <= j < of_node.len() ==> ((#[trigger] of_node[j]) is Some ==> {
            &&& (of_node[j]->0 as int) < scopes.len()
            &&& match exprs[j] {
                Expression::Name(n) => lookup_spec(
                    scopes,
                    of_node[j]->0 as int,
                    n.name@,
                ) is Some,
                _ => true,
            }
        })
}

proof fn lemma_find_local_from_prefix(
    bs1: Seq<BindingModel>,
    bs2: Seq<BindingModel>,
    name: Seq<char>,
    j: int,
)
    requires
        bs1.is_prefix_of(bs2),
        0 <= j <= bs1.len(),
        find_local_from(bs1, name, j) is Some,
    ensures
        find_local_from(bs2, name, j) == find_local_from(bs1, name, j),
    decreases bs1.len() - j,
{
    assert(bs1 =~= bs2.subrange(0, bs1.len() as int));
    if j < bs1.len() {
        assert(bs1[j] == bs2[j]);
        if !(bs1[j].name == name) {
            lemma_find_local_from_prefix(bs1, bs2, name, j + 1);
        }
    }
}

/// A name that resolves keeps resolving while scopes only grow: new
/// bindings and new scopes can change which binding wins, never make
/// lookup fail.
pub proof fn lemma_lookup_some_preserved(
    scopes1: Seq<ScopeModel>,
    scopes2: Seq<ScopeModel>,
    s: int,
    name: Seq<char>,
)
    requires
        scopes_wf(scopes1),
        scopes_wf(scopes2),
        scopes_extend(scopes2, scopes1),
        0 <= s < scopes1.len(),
        lookup_spec(scopes1, s, name) is Some,
    ensures
        lookup_spec(scopes2, s, name) is Some,
    decreases s,
{
    assert(scope_wf(scopes1, s));
    assert(scope_wf(scopes2, s));
    match find_local(scopes1[s].bindings, name) {
        Some(_) => {
            lemma_find_local_from_prefix(scopes1[s].bindings, scopes2[s].bindings, name, 0);
        },
        None => {
            match scopes1[s].parent {
                Some(p) => {
                    if find_local(scopes2[s].bindings, name) is None {
                        lemma_lookup_some_preserved(scopes1, scopes2, p as int, name);
                    }
                },
                None => {},
            }
        },
    }
}

proof fn lemma_scopes_extend_refl(s: Seq<ScopeModel>)
    ensures
        scopes_extend(s, s),
{
    assert forall|i: int| 0 <= i < s.len() implies (#[trigger] s[i]).parent == s[i].parent && s[
        i
    ].bindings.is_prefix_of(s[i].bindings) by {
        assert(s[i].bindings =~= s[i].bindings.subrange(0, s[i].bindings.len() as int));
    }
}

proof fn lemma_scopes_extend_trans(s3: Seq<ScopeModel>, s2: Seq<ScopeModel>, s1: Seq<ScopeModel>)
    requires
        scopes_extend(s2, s1),
        scopes_extend(s3, s2),
    ensures
        scopes_extend(s3, s1),
{
    assert forall|i: int| 0 <= i < s1.len() implies (#[trigger] s3[i]).parent == s1[i].parent && s1[
        i
    ].bindings.is_prefix_of(s3[i].bindings) by {
        assert(s2[i].parent == s1[i].parent);
        assert(s1[i].bindings =~= s2[i].bindings.subrange(0, s1[i].bindings.len() as int));
        assert(s2[i].bindings =~= s3[i].bindings.subrange(0, s2[i].bindings.len() as int));
        assert(s1[i].bindings =~= s3[i].bindings.subrange(0, s1[i].bindings.len() as int));
    }
}

proof fn lemma_names_inv_extend(
    exprs: Seq<Expression>,
    scopes1: Seq<ScopeModel>,
    scopes2: Seq<ScopeModel>,
    of_node: Seq<Option<usize>>,
)
    requires
        scopes_wf(scopes1),
        scopes_wf(scopes2),
        scopes_extend(scopes2, scopes1),
        names_inv(exprs, scopes1, of_node),
    ensures
        names_inv(exprs, scopes2, of_node),
{
    assert forall|j: int| 0 <= j < of_node.len() && (#[trigger] of_node[j]) is Some implies {
        &&& (of_node[j]->0 as int) < scopes2.len()
        &&& match exprs[j] {
            Expression::Name(n) => lookup_spec(scopes2, of_node[j]->0 as int, n.name@) is Some,
            _ => true,
        }
    } by {
        assert((of_node[j]->0 as int) < scopes1.len());
        match exprs[j] {
            Expression::Name(n) => {
                lemma_lookup_some_preserved(scopes1, scopes2, of_node[j]->0 as int, n.name@);
            },
            _ => {},
        }
    }
}

proof fn lemma_names_inv_set(
    exprs: Seq<Expression>,
    scopes: Seq<ScopeModel>,
    of_node: Seq<Option<usize>>,
    i: int,
    cur: usize,
)
    requires
        names_inv(exprs, scopes, of_node),
        0 <= i < of_node.len(),
        (cur as int) < scopes.len(),
        match exprs[i] {
            Expression::Name(n) => lookup_spec(scopes, cur as int, n.name@) is Some,
            _ => true,
        },
    ensures
        names_inv(exprs, scopes, of_node.update(i, Some(cur))),
{
    let o1 = of_node.update(i, Some(cur));
    assert forall|j: int| 0 <= j < o1.len() && (#[trigger] o1[j]) is Some implies {
        &&& (o1[j]->0 as int) < scopes.len()
        &&& match exprs[j] {
            Expression::Name(n) => lookup_spec(scopes, o1[j]->0 as int, n.name@) is Some,
            _ => true,
        }
    } by {
        if j != i {
            assert(o1[j] == of_node[j]);
            assert(of_node[j] is Some);
        }
    }
}

proof fn lemma_resolve_expr_valid(
    exprs: Seq<Expression>,
    i: int,
    cur: usize,
    scopes: Seq<ScopeModel>,
    of_node: Seq<Option<usize>>,
)
    requires
        0 <= i < exprs.len(),
        arena_wf(exprs),
        scopes_wf(scopes),
        (cur as int) < scopes.len(),
        of_node.len() == exprs.len(),
        names_inv(exprs, scopes, of_node),
    ensures
        ({
            let (s2, o2, r) = resolve_expr_spec(exprs, i, cur, scopes, of_node);
            &&& scopes_wf(s2)
            &&& scopes_extend(s2, scopes)
            &&& o2.len() == of_node.len()
            &&& forall|k: int|
                0 <= k < of_node.len() ==> ((#[trigger] of_node[k]) is Some ==> o2[k] is Some)
            &&& (r is Ok ==> names_inv(exprs, s2, o2) && o2[i] is Some)
        }),
    decreases i, 3int, 0int,
{
    assert(expr_wf(exprs[i], i));
    let o1 = of_node.update(i, Some(cur));
    assert forall|k: int| 0 <= k < of_node.len() && (#[trigger] of_node[k]) is Some implies o1[
        k
    ] is Some by {}
    match exprs[i] {
        Expression::Read(_) => {
            lemma_scopes_extend_refl(scopes);
            lemma_names_inv_set(exprs, scopes, of_node, i, cur);
        },
        Expression::Name(n) => {
            lemma_scopes_extend_refl(scopes);
            if lookup_spec(scopes, cur as int, n.name@) is Some {
                lemma_names_inv_set(exprs, scopes, of_node, i, cur);
            }
        },
        Expression::BinaryOperator(b) => {
            lemma_names_inv_set(exprs, scopes, of_node, i, cur);
            let (s1, oo1, r1) = resolve_expr_spec(exprs, b.lhs as int, cur, scopes, o1);
            lemma_resolve_expr_valid(exprs, b.lhs as int, cur, scopes, o1);
            assert forall|k: int| 0 <= k < of_node.len() && (#[trigger] of_node[k]) is Some implies
                oo1[k] is Some by {
                assert(o1[k] is Some);
            }
            if !(r1 is Err) {
                lemma_resolve_expr_valid(exprs, b.rhs as int, cur, s1, oo1);
                let (s2, o2, r2) = resolve_expr_spec(exprs, b.rhs as int, cur, s1, oo1);
                lemma_scopes_extend_trans(s2, s1, scopes);
                assert forall|k: int|
                    0 <= k < of_node.len() && (#[trigger] of_node[k]) is Some implies o2[
                    k
                ] is Some by {
                    assert(oo1[k] is Some);
                }
                assert(o1[i] is Some);
                assert(oo1[i] is Some);
                assert(o2[i] is Some);
            }
        },
        Expression::If(f) => {
            lemma_names_inv_set(exprs, scopes, of_node, i, cur);
            let (s1, oo1, r1) = resolve_expr_spec(exprs, f.condition as int, cur, scopes, o1);
            lemma_resolve_expr_valid(exprs, f.condition as int, cur, scopes, o1);
            assert forall|k: int| 0 <= k < of_node.len() && (#[trigger] of_node[k]) is Some implies
                oo1[k] is Some by {
                assert(o1[k] is Some);
            }
            if !(r1 is Err) {
                let ps = s1.len() as usize;
                let s2 = s1.push(ScopeModel { parent: Some(cur), bindings: Seq::empty() });
                assert(scopes_wf(s2)) by {
                    assert forall|k: int| 0 <= k < s2.len() implies #[trigger] scope_wf(s2, k) by {
                        if k < s1.len() {
                            assert(scope_wf(s1, k));
                        }
                    }
                }
                assert(scopes_extend(s2, s1)) by {
                    assert forall|k: int| 0 <= k < s1.len() implies (#[trigger] s2[k]).parent == s1[
                        k
                    ].parent && s1[k].bindings.is_prefix_of(s2[k].bindings) by {
                        assert(s1[k].bindings =~= s1[k].bindings.subrange(
                            0,
                            s1[k].bindings.len() as int,
                        ));
                    }
                }
                lemma_names_inv_extend(exprs, s1, s2, oo1);
                lemma_resolve_branch_valid(exprs, i, f.positive, ps, s2, oo1);
                let (s3, o3, r3) = resolve_branch_spec(exprs, i, f.positive, ps, s2, oo1);
                lemma_scopes_extend_trans(s3, s2, s1);
                lemma_scopes_extend_trans(s3, s1, scopes);
                assert forall|k: int|
                    0 <= k < of_node.len() && (#[trigger] of_node[k]) is Some implies o3[
                    k
                ] is Some by {
                    assert(oo1[k] is Some);
                }
                if !(r3 is Err) {
                    let ns = s3.len() as usize;
                    let s4 = s3.push(ScopeModel { parent: Some(cur), bindings: Seq::empty() });
                    assert(scopes_wf(s4)) by {
                        assert forall|k: int| 0 <= k < s4.len() implies #[trigger] scope_wf(
                            s4,
                            k,
                        ) by {
                            if k < s3.len() {
                                assert(scope_wf(s3, k));
                            }
                        }
                    }
                    assert(scopes_extend(s4, s3)) by {
                        assert forall|k: int| 0 <= k < s3.len() implies (#[trigger] s4[
                            k
                        ]).parent == s3[k].parent && s3[k].bindings.is_prefix_of(s4[k].bindings) by {
                            assert(s3[k].bindings =~= s3[k].bindings.subrange(
                                0,
                                s3[k].bindings.len() as int,
                            ));
                        }
                    }
                    lemma_names_inv_extend(exprs, s3, s4, o3);
                    lemma_scopes_extend_trans(s4, s3, scopes);
                    assert(o1[i] is Some);
                    assert(oo1[i] is Some);
                    assert(o3[i] is Some);
                    match f.negative {
                        Some(br) => {
                            lemma_resolve_branch_valid(exprs, i, br, ns, s4, o3);
                            let (s5, o5, r5) = resolve_branch_spec(exprs, i, br, ns, s4, o3);
                            lemma_scopes_extend_trans(s5, s4, scopes);
                            assert forall|k: int|
                                0 <= k < of_node.len() && (#[trigger] of_node[k]) is Some implies
                                o5[k] is Some by {
                                assert(o3[k] is Some);
                            }
                            if !(r5 is Err) {
                                assert(o5[i] is Some);
                            }
                        },
                        None => {},
                    }
                }
            }
        },
    }
}

proof fn lemma_resolve_branch_valid(
    exprs: Seq<Expression>,
    bound: int,
    br: ExpressionOrBlock,
    sc: usize,
    scopes: Seq<ScopeModel>,
    of_node: Seq<Option<usize>>,
)
    requires
        0 <= bound <= exprs.len(),
        arena_wf(exprs),
        branch_wf(br, bound),
        scopes_wf(scopes),
        (sc as int) < scopes.len(),
        of_node.len() == exprs.len(),
        names_inv(exprs, scopes, of_node),
    ensures
        ({
            let (s2, o2, r) = resolve_branch_spec(exprs, bound, br, sc, scopes, of_node);
            &&& scopes_wf(s2)
            &&& scopes_extend(s2, scopes)
            &&& o2.len() == of_node.len()
            &&& forall|k: int|
                0 <= k < of_node.len() ==> ((#[trigger] of_node[k]) is Some ==> o2[k] is Some)
            &&& (r is Ok ==> names_inv(exprs, s2, o2))
        }),
    decreases bound, 2int, 0int,
{
    match br {
        ExpressionOrBlock::Expression(e) => {
            lemma_resolve_expr_valid(exprs, e as int, sc, scopes, of_node);
        },
        ExpressionOrBlock::Block(b) => {
            lemma_resolve_stmts_valid(exprs, bound, b.statements@, 0, sc, scopes, of_node);
            let (s1, o1, r1) = resolve_stmts_spec(
                exprs,
                bound,
                b.statements@,
                0,
                sc,
                scopes,
                of_node,
            );
            if !(r1 is Err) {
                match b.last_expression {
                    Some(e) => {
                        lemma_resolve_expr_valid(exprs, e as int, sc, s1, o1);
                        let (s2, o2, r2) = resolve_expr_spec(exprs, e as int, sc, s1, o1);
                        lemma_scopes_extend_trans(s2, s1, scopes);
                        assert forall|k: int|
                            0 <= k < of_node.len() && (#[trigger] of_node[k]) is Some implies o2[
                            k
                        ] is Some by {
                            assert(o1[k] is Some);
                        }
                    },
                    None => {},
                }
            }
        },
    }
}

proof fn lemma_resolve_stmts_valid(
    exprs: Seq<Expression>,
    bound: int,
    stmts: Seq<Statement>,
    j: int,
    sc: usize,
    scopes: Seq<ScopeModel>,
    of_node: Seq<Option<usize>>,
)
    requires
        0 <= bound <= exprs.len(),
        arena_wf(exprs),
        0 <= j <= stmts.len(),
        forall|k: int| j <= k < stmts.len() ==> stmt_wf(#[trigger] stmts[k], bound),
        scopes_wf(scopes),
        (sc as int) < scopes.len(),
        of_node.len() == exprs.len(),
        names_inv(exprs, scopes, of_node),
    ensures
        ({
            let (s2, o2, r) = resolve_stmts_spec(exprs, bound, stmts, j, sc, scopes, of_node);
            &&& scopes_wf(s2)
            &&& scopes_extend(s2, scopes)
            &&& o2.len() == of_node.len()
            &&& forall|k: int|
                0 <= k < of_node.len() ==> ((#[trigger] of_node[k]) is Some ==> o2[k] is Some)
            &&& (r is Ok ==> names_inv(exprs, s2, o2))
        }),
    decreases bound, 1int, stmts.len() - j,
{
    if j == stmts.len() {
        lemma_scopes_extend_refl(scopes);
    } else {
        match stmts[j] {
            Statement::Expression(e) => {
                lemma_resolve_expr_valid(exprs, e as int, sc, scopes, of_node);
                let (s1, o1, r1) = resolve_expr_spec(exprs, e as int, sc, scopes, of_node);
                if !(r1 is Err) {
                    lemma_resolve_stmts_valid(exprs, bound, stmts, j + 1, sc, s1, o1);
                    let (s2, o2, r2) = resolve_stmts_spec(exprs, bound, stmts, j + 1, sc, s1, o1);
                    lemma_scopes_extend_trans(s2, s1, scopes);
                    assert forall|k: int|
                        0 <= k < of_node.len() && (#[trigger] of_node[k]) is Some implies o2[
                        k
                    ] is Some by {
                        assert(o1[k] is Some);
                    }
                }
            },
            Statement::Let(l) => {
                lemma_resolve_expr_valid(exprs, l.value as int, sc, scopes, of_node);
                let (s1, o1, r1) = resolve_expr_spec(exprs, l.value as int, sc, scopes, of_node);
                if !(r1 is Err) {
                    if !(find_local(s1[sc as int].bindings, l.name@) is Some) {
                        let s2 = s1.update(
                            sc as int,
                            ScopeModel {
                                parent: s1[sc as int].parent,
                                bindings: s1[sc as int].bindings.push(
                                    BindingModel { name: l.name@, ty: l.ty },
                                ),
                            },
                        );
                        assert(scopes_wf(s2)) by {
                            assert forall|k: int| 0 <= k < s2.len() implies #[trigger] scope_wf(
                                s2,
                                k,
                            ) by {
                                assert(scope_wf(s1, k));
                            }
                        }
                        assert(scopes_extend(s2, s1)) by {
                            assert forall|k: int| 0 <= k < s1.len() implies (#[trigger] s2[
                                k
                            ]).parent == s1[k].parent && s1[k].bindings.is_prefix_of(
                                s2[k].bindings,
                            ) by {
                                if k == sc as int {
                                    assert(s1[k].bindings =~= s1[k].bindings.push(
                                        BindingModel { name: l.name@, ty: l.ty },
                                    ).subrange(0, s1[k].bindings.len() as int));
                                } else {
                                    assert(s1[k].bindings =~= s1[k].bindings.subrange(
                                        0,
                                        s1[k].bindings.len() as int,
                                    ));
                                }
                            }
                        }
                        lemma_names_inv_extend(exprs, s1, s2, o1);
                        lemma_resolve_stmts_valid(exprs, bound, stmts, j + 1, sc, s2, o1);
                        let (s3, o3, r3) = resolve_stmts_spec(
                            exprs,
                            bound,
                            stmts,
                            j + 1,
                            sc,
                            s2,
                            o1,
                        );
                        lemma_scopes_extend_trans(s3, s2, s1);
                        lemma_scopes_extend_trans(s3, s1, scopes);
                        assert forall|k: int|
                            0 <= k < of_node.len() && (#[trigger] of_node[k]) is Some implies o3[
                            k
                        ] is Some by {
                            assert(o1[k] is Some);
                        }
                    }
                }
            },
        }
    }
}

/// After a successful resolution of a whole program, every recorded scope
/// index is valid and every recorded `Name` node resolves in the final
/// scope arena — the invariant the later passes rely on.
pub proof fn lemma_resolve_program_valid(p: Program)
    requires
        program_wf(p),
        resolve_program_spec(p).2 is Ok,
    ensures
        scopes_wf(resolve_program_spec(p).0),
        resolve_program_spec(p).1.len() == p.exprs@.len(),
        names_inv(p.exprs@, resolve_program_spec(p).0, resolve_program_spec(p).1),
{
    let scopes0 = seq![ScopeModel { parent: None, bindings: Seq::empty() }];
    let of0 = Seq::new(p.exprs@.len(), |k: int| None::<usize>);
    assert(scopes_wf(scopes0)) by {
        assert forall|k: int| 0 <= k < scopes0.len() implies #[trigger] scope_wf(scopes0, k) by {}
    }
    lemma_resolve_stmts_valid(
        p.exprs@,
        p.exprs@.len() as int,
        p.body.statements@,
        0,
        0,
        scopes0,
        of0,
    );
    let (s1, o1, r1) = resolve_stmts_spec(
        p.exprs@,
        p.exprs@.len() as int,
        p.body.statements@,
        0,
        0,
        scopes0,
        of0,
    );
    if !(r1 is Err) {
        match p.body.last_expression {
            Some(e) => {
                lemma_resolve_expr_valid(p.exprs@, e as int, 0, s1, o1);
            },
            None => {},
        }
    }
}

fn resolve_expr(
    exprs: &Vec<Expression>,
    i: usize,
    cur: usize,
    st: &mut NamesResolved,
) -> (r: Result<(), CompileError<String>>)
    requires
        (i as int) < exprs@.len(),
        arena_wf(exprs@),
        old(st).wf(),
        (cur as int) < old(st).scopes@.len(),
        old(st).of_node@.len() == exprs@.len(),
    ensures
        ({
            let (s2, o2, rr) = resolve_expr_spec(
                exprs@,
                i as int,
                cur,
                old(st).scopes_model(),
                old(st).of_node@,
            );
            &&& final(st).scopes_model() == s2
            &&& final(st).of_node@ == o2
            &&& unit_result_matches(r, rr)
        }),
        final(st).wf(),
        final(st).scopes@.len() >= old(st).scopes@.len(),
        final(st).of_node@.len() == old(st).of_node@.len(),
    decreases i, 3int, 0int,
{
    proof {
        assert(expr_wf(exprs@[i as int], i as int));
    }
    st.of_node[i] = Some(cur);
    match &exprs[i] {
        Expression::Read(_) => Ok(()),
        Expression::Name(n) => {
            match lookup(&st.scopes, cur, &n.name) {
                Some(_) => Ok(()),
                None => Err(CompileError::UndefinedName(n.name.clone())),
            }
        },
        Expression::BinaryOperator(b) => {
            let r1 = resolve_expr(exprs, b.lhs, cur, st);
            if r1.is_err() {
                return r1;
            }
            resolve_expr(exprs, b.rhs, cur, st)
        },
        Expression::If(f) => {
            let r1 = resolve_expr(exprs, f.condition, cur, st);
            if r1.is_err() {
                return r1;
            }
            let ps = st.scopes.len();
            push_scope(st, cur);
            let r2 = resolve_branch(exprs, Ghost(i as int), &f.positive, ps, st);
            if r2.is_err() {
                return r2;
            }
            let ns = st.scopes.len();
            push_scope(st, cur);
            match &f.negative {
                Some(br) => resolve_branch(exprs, Ghost(i as int), br, ns, st),
                None => Ok(()),
            }
        },
    }
}

/// Append a fresh, empty scope whose parent is `cur`.
fn push_scope(st: &mut NamesResolved, cur: usize)
    requires
        old(st).wf(),
        (cur as int) < old(st).scopes@.len(),
    ensures
        final(st).scopes_model() == old(st).scopes_model().push(
            ScopeModel { parent: Some(cur), bindings: Seq::empty() },
        ),
        final(st).of_node == old(st).of_node,
        final(st).wf(),
        final(st).scopes@.len() == old(st).scopes@.len() + 1,
{
    st.scopes.push(Scope { parent: Some(cur), bindings: Vec::new() });
    proof {
        let pre = old(st).scopes_model();
        let post = st.scopes_model();
        assert(post =~~= pre.push(ScopeModel { parent: Some(cur), bindings: Seq::empty() }));
        assert forall|k: int| 0 <= k < post.len() implies #[trigger] scope_wf(post, k) by {
            if k < pre.len() {
                assert(scope_wf(pre, k));
            }
        }
    }
}

fn resolve_branch(
    exprs: &Vec<Expression>,
    bound: Ghost<int>,
    br: &ExpressionOrBlock,
    sc: usize,
    st: &mut NamesResolved,
) -> (r: Result<(), CompileError<String>>)
    requires
        0 <= bound@ <= exprs@.len(),
        arena_wf(exprs@),
        branch_wf(*br, bound@),
        old(st).wf(),
        (sc as int) < old(st).scopes@.len(),
        old(st).of_node@.len() == exprs@.len(),
    ensures
        ({
            let (s2, o2, rr) = resolve_branch_spec(
                exprs@,
                bound@,
                *br,
                sc,
                old(st).scopes_model(),
                old(st).of_node@,
            );
            &&& final(st).scopes_model() == s2
            &&& final(st).of_node@ == o2
            &&& unit_result_matches(r, rr)
        }),
        final(st).wf(),
        final(st).scopes@.len() >= old(st).scopes@.len(),
        final(st).of_node@.len() == old(st).of_node@.len(),
    decreases bound@, 2int, 0int,
{
    match br {
        ExpressionOrBlock::Expression(e) => resolve_expr(exprs, *e, sc, st),
        ExpressionOrBlock::Block(b) => {
            let r1 = resolve_stmts(exprs, bound, &b.statements, 0, sc, st);
            if r1.is_err() {
                return r1;
            }
            match b.last_expression {
                Some(e) => resolve_expr(exprs, e, sc, st),
                None => Ok(()),
            }
        },
    }
}

fn resolve_stmts(
    exprs: &Vec<Expression>,
    bound: Ghost<int>,
    stmts: &Vec<Statement>,
    j: usize,
    sc: usize,
    st: &mut NamesResolved,
) -> (r: Result<(), CompileError<String>>)
    requires
        0 <= bound@ <= exprs@.len(),
        arena_wf(exprs@),
        (j as int) <= stmts@.len(),
        forall|k: int| j as int <= k < stmts@.len() ==> stmt_wf(#[trigger] stmts@[k], bound@),
        old(st).wf(),
        (sc as int) < old(st).scopes@.len(),
        old(st).of_node@.len() == exprs@.len(),
    ensures
        ({
            let (s2, o2, rr) = resolve_stmts_spec(
                exprs@,
                bound@,
                stmts@,
                j as int,
                sc,
                old(st).scopes_model(),
                old(st).of_node@,
            );
            &&& final(st).scopes_model() == s2
            &&& final(st).of_node@ == o2
            &&& unit_result_matches(r, rr)
        }),
        final(st).wf(),
        final(st).scopes@.len() >= old(st).scopes@.len(),
        final(st).of_node@.len() == old(st).of_node@.len(),
    decreases bound@, 1int, stmts@.len() - j@,
{
    if j == stmts.len() {
        return Ok(());
    }
    match &stmts[j] {
        Statement::Expression(e) => {
            let r1 = resolve_expr(exprs, *e, sc, st);
            if r1.is_err() {
                return r1;
            }
            resolve_stmts(exprs, bound, stmts, j + 1, sc, st)
        },
        Statement::Let(l) => {
            let r1 = resolve_expr(exprs, l.value, sc, st);
            if r1.is_err() {
                return r1;
            }
            proof {
                assert(st.scopes_model()[sc as int] == st.scopes@[sc as int]@);
            }
            let dup = find_local_in(&st.scopes[sc].bindings, &l.name, 0);
            if dup.is_some() {
                return Err(CompileError::DuplicateBinding(l.name.clone()));
            }
            push_binding(st, sc, Binding { name: l.name.clone(), ty: l.ty });
            resolve_stmts(exprs, bound, stmts, j + 1, sc, st)
        },
    }
}

/// Append one binding to the bindings of scope `sc`.
fn push_binding(st: &mut NamesResolved, sc: usize, b: Binding)
    requires
        old(st).wf(),
        (sc as int) < old(st).scopes@.len(),
    ensures
        final(st).scopes_model() == old(st).scopes_model().update(
            sc as int,
            ScopeModel {
                parent: old(st).scopes_model()[sc as int].parent,
                bindings: old(st).scopes_model()[sc as int].bindings.push(b@),
            },
        ),
        final(st).of_node == old(st).of_node,
        final(st).wf(),
        final(st).scopes@.len() == old(st).scopes@.len(),
{
    st.scopes[sc].bindings.push(b);
    proof {
        let pre = old(st).scopes_model();
        let post = st.scopes_model();
        assert(post =~~= pre.update(
            sc as int,
            ScopeModel {
                parent: pre[sc as int].parent,
                bindings: pre[sc as int].bindings.push(b@),
            },
        ));
        assert forall|k: int| 0 <= k < post.len() implies #[trigger] scope_wf(post, k) by {
            assert(scope_wf(pre, k));
        }
    }
}

/// Build the scope arena and the node-to-scope record for a whole program,
/// validating that every name resolves; the result follows
/// `resolve_program_spec` exactly.
pub fn resolve_program(p: &Program) -> (r: Result<NamesResolved, CompileError<String>>)
    requires
        program_wf(*p),
    ensures
        ({
            let (s2, o2, rr) = resolve_program_spec(*p);
            match r {
                Ok(nr) => {
                    &&& rr is Ok
                    &&& nr.scopes_model() == s2
                    &&& nr.of_node@ == o2
                    &&& nr.wf()
                    &&& nr.of_node@.len() == p.exprs@.len()
                },
                Err(e) => rr is Err && err_matches(e, rr->Err_0),
            }
        }),
{
    let root = Scope { parent: None, bindings: Vec::new() };
    let mut scopes: Vec<Scope> = Vec::new();
    scopes.push(root);
    let mut of_node: Vec<Option<usize>> = Vec::new();
    let mut k: usize = 0;
    while k < p.exprs.len()
        invariant
            of_node@.len() == k as int,
            k as int <= p.exprs@.len(),
            forall|m: int| 0 <= m < k as int ==> of_node@[m] is None,
        decreases p.exprs@.len() - k@,
    {
        of_node.push(None);
        k = k + 1;
    }
    let mut st = NamesResolved { scopes, of_node };
    proof {
        assert(st.scopes_model() =~~= seq![ScopeModel { parent: None, bindings: Seq::empty() }]);
        assert(st.of_node@ =~= Seq::new(p.exprs@.len(), |m: int| None::<usize>));
        assert(scope_wf(st.scopes_model(), 0));
    }
    let r1 = resolve_stmts(&p.exprs, Ghost(p.exprs@.len() as int), &p.body.statements, 0, 0, &mut st);
    if let Err(e) = r1 {
        return Err(e);
    }
    match p.body.last_expression {
        Some(e) => {
            let r2 = resolve_expr(&p.exprs, e, 0, &mut st);
            if let Err(er) = r2 {
                return Err(er);
            }
            Ok(st)
        },
        None => Ok(st),
    }
}

} // verus!
