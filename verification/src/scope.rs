//! Lexical scopes.
//!
//! Scopes live in an arena (`NamesResolved::scopes` in `resolve`); parent
//! links are indices into the same arena, so the scope tree has no cycles by
//! construction (`scopes_wf`: a parent precedes its children). Lookup walks
//! from a scope outward along parent links; the first scope that binds the
//! name wins, so an inner binding shadows an outer one of the same name.

use vstd::prelude::*;

use crate::ast::Type;

verus! {

/// One name bound in a scope, with the declared type of its binding.
#[derive(Clone, Debug)]
pub struct Binding {
    pub name: String,
    pub ty: Type,
}

/// A lexical scope: its own bindings, in declaration order, and the index of
/// the enclosing scope (`None` for the root scope of a program).
#[derive(Clone, Debug)]
pub struct Scope {
    pub parent: Option<usize>,
    pub bindings: Vec<Binding>,
}

/// Mathematical content of a `Binding`.
#[verifier::ext_equal]
pub struct BindingModel {
    pub name: Seq<char>,
    pub ty: Type,
}

/// Mathematical content of a `Scope`.
#[verifier::ext_equal]
pub struct ScopeModel {
    pub parent: Option<usize>,
    pub bindings: Seq<BindingModel>,
}

impl View for Binding {
    type V = BindingModel;

    open spec fn view(&self) -> BindingModel {
        BindingModel { name: self.name@, ty: self.ty }
    }
}

/// The models of a sequence of bindings.
pub open spec fn bindings_view(bs: Seq<Binding>) -> Seq<BindingModel> {
    bs.map_values(|b: Binding| b@)
}

impl View for Scope {
    type V = ScopeModel;

    open spec fn view(&self) -> ScopeModel {
        ScopeModel { parent: self.parent, bindings: bindings_view(self.bindings@) }
    }
}

/// The models of a sequence of scopes.
pub open spec fn scopes_view(ss: Seq<Scope>) -> Seq<ScopeModel> {
    ss.map_values(|s: Scope| s@)
}

/// A scope's parent precedes it in the arena.
pub open spec fn scope_wf(scopes: Seq<ScopeModel>, i: int) -> bool {
    scopes[i].parent is Some ==> (scopes[i].parent->0 as int) < i
}

/// Every scope of the arena satisfies `scope_wf`.
pub open spec fn scopes_wf(scopes: Seq<ScopeModel>) -> bool {
    forall|i: int| 0 <= i < scopes.len() ==> #[trigger] scope_wf(scopes, i)
}

/// The binding of `name` among a scope's own bindings from position `j` on:
/// the earliest declaration wins.
pub open spec fn find_local_from(bs: Seq<BindingModel>, name: Seq<char>, j: int) -> Option<Type>
    decreases bs.len() - j
        when 0 <= j <= bs.len()
{
    if j == bs.len() {
        None
    } else if bs[j].name == name {
        Some(bs[j].ty)
    } else {
        find_local_from(bs, name, j + 1)
    }
}

/// The binding of `name` among a scope's own bindings, if any.
pub open spec fn find_local(bs: Seq<BindingModel>, name: Seq<char>) -> Option<Type> {
    find_local_from(bs, name, 0)
}

#[via_fn]
proof fn lookup_spec_decreases(scopes: Seq<ScopeModel>, s: int, name: Seq<char>) {
    assert(scope_wf(scopes, s));
}

/// Name lookup: the innermost scope `s` first, then outward along parent
/// links; the first scope that binds `name` gives the answer.
pub open spec fn lookup_spec(scopes: Seq<ScopeModel>, s: int, name: Seq<char>) -> Option<Type>
    decreases s
        when 0 <= s < scopes.len() && scopes_wf(scopes)
        via lookup_spec_decreases
{
    match find_local(scopes[s].bindings, name) {
        Some(t) => Some(t),
        None => match scopes[s].parent {
            Some(p) => lookup_spec(scopes, p as int, name),
            None => None,
        },
    }
}

pub(crate) fn find_local_in(bindings: &Vec<Binding>, name: &String, j: usize) -> (r: Option<Type>)
    requires
        j <= bindings@.len(),
    ensures
        r == find_local_from(bindings_view(bindings@), name@, j as int),
    decreases bindings@.len() - j@,
{
    if j == bindings.len() {
        None
    } else if bindings[j].name == *name {
        assert(bindings_view(bindings@)[j as int] == bindings@[j as int]@);
        Some(bindings[j].ty)
    } else {
        assert(bindings_view(bindings@)[j as int] == bindings@[j as int]@);
        find_local_in(bindings, name, j + 1)
    }
}

/// Resolve `name` starting at scope `s`, walking outward.
pub fn lookup(scopes: &Vec<Scope>, s: usize, name: &String) -> (r: Option<Type>)
    requires
        (s as int) < scopes@.len(),
        scopes_wf(scopes_view(scopes@)),
    ensures
        r == lookup_spec(scopes_view(scopes@), s as int, name@),
    decreases s,
{
    proof {
        assert(scopes_view(scopes@)[s as int] == scopes@[s as int]@);
        assert(scope_wf(scopes_view(scopes@), s as int));
    }
    let local = find_local_in(&scopes[s].bindings, name, 0);
    match local {
        Some(t) => Some(t),
        None => {
            match scopes[s].parent {
                Some(p) => lookup(scopes, p, name),
                None => None,
            }
        },
    }
}

} // verus!
