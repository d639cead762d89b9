//! General properties of the passes, stated and proved once, for every
//! input the hypotheses admit.

use vstd::prelude::*;

use crate::ast::{arena_wf, expr_wf, program_wf, Expression, IfExpression, Program, Type};
use crate::codegen::compile_spec;
use crate::errors::CompileError;
use crate::infer::{arm_type_spec, infer_if_spec, infer_spec, union_of};
use crate::names::{lemma_temp_names_distinct, temp_name_text};
use crate::resolve::{lemma_resolve_program_valid, names_inv, resolve_program_spec};
use crate::scope::{find_local, lookup_spec, scope_wf, scopes_wf, ScopeModel};

verus! {

/// Unioning a type with itself yields that type.
pub proof fn lemma_union_self(t: Type)
    ensures
        union_of(t, t) is Ok,
        union_of(t, t)->Ok_0 == t,
{
}

/// Unioning two distinct concrete types fails with a type mismatch naming
/// both, in order. In particular `Unit` is not absorbed: an `if` whose
/// negative branch is absent unites the positive arm's type with `Unit`
/// and fails unless that arm is itself of type `Unit`.
pub proof fn lemma_union_mismatch(a: Type, b: Type)
    requires
        a != b,
    ensures
        union_of(a, b) is Err,
        union_of(a, b)->Err_0 == CompileError::<Seq<char>>::TypeMismatch(a, b),
{
}

/// The type of a well-typed `if` expression is exactly the union of its
/// positive-arm and negative-arm types.
pub proof fn lemma_if_type_is_arm_union(
    exprs: Seq<Expression>,
    scopes: Seq<ScopeModel>,
    of_node: Seq<Option<usize>>,
    f: IfExpression,
)
    requires
        arm_type_spec(exprs, scopes, of_node, Some(f.positive)) is Ok,
        arm_type_spec(exprs, scopes, of_node, f.negative) is Ok,
    ensures
        infer_if_spec(exprs, scopes, of_node, f) == union_of(
            arm_type_spec(exprs, scopes, of_node, Some(f.positive))->Ok_0,
            arm_type_spec(exprs, scopes, of_node, f.negative)->Ok_0,
        ),
{
}

/// Inferring an `if` node through the expression-level entry agrees with
/// inferring it through `infer_if_spec`: an `if`'s type is the union of
/// its arm types however the inference is reached.
pub proof fn lemma_infer_if_agrees(
    exprs: Seq<Expression>,
    scopes: Seq<ScopeModel>,
    of_node: Seq<Option<usize>>,
    i: int,
    f: IfExpression,
)
    requires
        arena_wf(exprs),
        0 <= i < exprs.len(),
        exprs[i] == Expression::If(f),
    ensures
        infer_spec(exprs, scopes, of_node, i) == infer_if_spec(exprs, scopes, of_node, f),
{
    assert(expr_wf(exprs[i], i));
}

/// A name bound in the innermost scope resolves to that binding: an inner
/// binding shadows any outer binding of the same name throughout the inner
/// scope's subtree.
pub proof fn lemma_lookup_innermost(
    scopes: Seq<ScopeModel>,
    s: int,
    name: Seq<char>,
    t: Type,
)
    requires
        scopes_wf(scopes),
        0 <= s < scopes.len(),
        find_local(scopes[s].bindings, name) == Some(t),
    ensures
        lookup_spec(scopes, s, name) == Some(t),
{
    assert(scope_wf(scopes, s));
}

/// A name not bound in a scope resolves exactly as in the enclosing scope:
/// lookup walks from the innermost scope outward, and only the root scope
/// can fail. Shadowing therefore ends where the shadowing scope ends.
pub proof fn lemma_lookup_defers_outward(scopes: Seq<ScopeModel>, s: int, name: Seq<char>)
    requires
        scopes_wf(scopes),
        0 <= s < scopes.len(),
        find_local(scopes[s].bindings, name) is None,
    ensures
        scopes[s].parent is Some ==> lookup_spec(scopes, s, name) == lookup_spec(
            scopes,
            scopes[s].parent->0 as int,
            name,
        ),
        scopes[s].parent is None ==> lookup_spec(scopes, s, name) is None,
{
    assert(scope_wf(scopes, s));
}

/// After a successful resolution, every `Name` node with a recorded scope
/// resolves by walking from that scope outward, so type inference on it
/// succeeds — it can encounter neither a missing-scope nor an unbound-name
/// defect on a program that resolution accepted.
pub proof fn lemma_resolution_validates_names(p: Program)
    requires
        program_wf(p),
        resolve_program_spec(p).2 is Ok,
    ensures
        ({
            let (scopes, of_node, r) = resolve_program_spec(p);
            forall|j: int|
                0 <= j < of_node.len() && (#[trigger] of_node[j]) is Some && p.exprs@[j] is Name
                    ==> infer_spec(p.exprs@, scopes, of_node, j) is Ok
        }),
{
    lemma_resolve_program_valid(p);
    let (scopes, of_node, r) = resolve_program_spec(p);
    assert(names_inv(p.exprs@, scopes, of_node));
    assert forall|j: int|
        0 <= j < of_node.len() && (#[trigger] of_node[j]) is Some && p.exprs@[j] is Name implies
        infer_spec(p.exprs@, scopes, of_node, j) is Ok by {
        assert((of_node[j]->0 as int) < scopes.len());
        match p.exprs@[j] {
            Expression::Name(n) => {
                assert(lookup_spec(scopes, of_node[j]->0 as int, n.name@) is Some);
            },
            _ => {},
        }
    }
}

/// Temporaries minted for distinct counter values have distinct names.
/// Within one code-generation run a temporary is minted at the counter's
/// current value, after which the counter strictly increases and, per
/// `codegen::lemma_gen_expr_counter_monotone`, never comes back down; so
/// the names generated across a run are pairwise distinct, however deeply
/// the constructs nest.
pub proof fn lemma_fresh_names_pairwise_distinct(a: nat, b: nat)
    requires
        a != b,
    ensures
        temp_name_text(a) != temp_name_text(b),
{
    lemma_temp_names_distinct(a, b);
}

/// Code generation is a function of the program alone: it re-reads only
/// the resolution result computed from the program, and its output is
/// `compile_spec`, so two runs over the same program agree byte for byte —
/// including the numeric suffixes of the generated temporary names, since
/// every run counts from zero.
pub proof fn lemma_codegen_deterministic(
    p: Program,
    r1: Result<Seq<char>, CompileError<Seq<char>>>,
    r2: Result<Seq<char>, CompileError<Seq<char>>>,
)
    requires
        r1 == compile_spec(p),
        r2 == compile_spec(p),
    ensures
        r1 == r2,
{
}

} // verus!
