//! Substitutions: maps from variable ids to terms.
//!
//! A substitution is a vector indexed by variable id; `None` marks an unbound
//! variable. Along one proof branch a substitution only grows, and every bound
//! term is kept fully resolved: it mentions no variable that is itself bound.
//! Binding a variable therefore rewrites the terms already stored, so that a
//! single pass of `apply` yields a term's value under the substitution.

use vstd::prelude::*;

use crate::ir::Clause;
use crate::ir::DomainGoal;
use crate::ir::Goal;
use crate::ir::List;
use crate::ir::TraitRef;
use crate::ir::Ty;
use crate::ir::clone_ty;

verus! {

/// The binding of a variable, `None` when the id is out of range.
pub open spec fn subst_get(s: Seq<Option<Ty>>, v: usize) -> Option<Ty> {
    if v < s.len() {
        s[v as int]
    } else {
        None
    }
}

/// Whether a term mentions no variable that the substitution binds.
pub open spec fn ty_resolved(s: Seq<Option<Ty>>, t: Ty) -> bool
    decreases t,
{
    match t {
        Ty::Var(v) => subst_get(s, v) is None,
        Ty::Bound(_) => true,
        Ty::App { ctor: _, args } => ty_list_resolved(s, *args),
    }
}

/// Whether every term of a list is resolved.
pub open spec fn ty_list_resolved(s: Seq<Option<Ty>>, l: List<Ty>) -> bool
    decreases l,
{
    match l {
        List::Nil => true,
        List::Cons(t, rest) => ty_resolved(s, t) && ty_list_resolved(s, *rest),
    }
}

/// Well-formedness of a substitution: every bound term is closed and fully
/// resolved. Constructors establish it and every binding step preserves it.
pub open spec fn subst_wf(s: Seq<Option<Ty>>) -> bool {
    forall|v: int|
        0 <= v < s.len() ==> ((#[trigger] s[v]) matches Some(t) ==> crate::ir::ty_closed(t)
            && ty_resolved(s, t))
}

/// A term's value under a substitution, in one pass: a bound variable is
/// replaced by its (already resolved) term, everything else is kept.
pub open spec fn sp_apply(s: Seq<Option<Ty>>, t: Ty) -> Ty
    decreases t,
{
    match t {
        Ty::Var(v) => match subst_get(s, v) {
            Some(u) => u,
            None => Ty::Var(v),
        },
        Ty::Bound(b) => Ty::Bound(b),
        Ty::App { ctor, args } => Ty::App { ctor, args: Box::new(sp_apply_list(s, *args)) },
    }
}

/// `sp_apply` over a list of terms.
pub open spec fn sp_apply_list(s: Seq<Option<Ty>>, l: List<Ty>) -> List<Ty>
    decreases l,
{
    match l {
        List::Nil => List::Nil,
        List::Cons(t, rest) => List::Cons(sp_apply(s, t), Box::new(sp_apply_list(s, *rest))),
    }
}

/// `sp_apply` over an interface reference.
pub open spec fn sp_apply_trait_ref(s: Seq<Option<Ty>>, tr: TraitRef) -> TraitRef {
    TraitRef { trait_id: tr.trait_id, args: sp_apply_list(s, tr.args) }
}

/// `sp_apply` over a domain goal.
pub open spec fn sp_apply_domain_goal(s: Seq<Option<Ty>>, d: DomainGoal) -> DomainGoal {
    match d {
        DomainGoal::Implemented(tr) => DomainGoal::Implemented(sp_apply_trait_ref(s, tr)),
        DomainGoal::WellFormed(tr) => DomainGoal::WellFormed(sp_apply_trait_ref(s, tr)),
        DomainGoal::TermsEq { a, b } => DomainGoal::TermsEq {
            a: sp_apply(s, a),
            b: sp_apply(s, b),
        },
    }
}

/// Replacement of one atom in a term: of `Var(id)` when `bound` is false, of
/// `Bound(id)` when `bound` is true.
pub open spec fn sp_replace(t: Ty, bound: bool, id: usize, rep: Ty) -> Ty
    decreases t,
{
    match t {
        Ty::Var(v) => if !bound && v == id {
            rep
        } else {
            Ty::Var(v)
        },
        Ty::Bound(b) => if bound && b == id {
            rep
        } else {
            Ty::Bound(b)
        },
        Ty::App { ctor, args } => Ty::App {
            ctor,
            args: Box::new(sp_replace_list(*args, bound, id, rep)),
        },
    }
}

/// `sp_replace` over a list of terms.
pub open spec fn sp_replace_list(l: List<Ty>, bound: bool, id: usize, rep: Ty) -> List<Ty>
    decreases l,
{
    match l {
        List::Nil => List::Nil,
        List::Cons(t, rest) => List::Cons(
            sp_replace(t, bound, id, rep),
            Box::new(sp_replace_list(*rest, bound, id, rep)),
        ),
    }
}

/// `sp_replace` over an interface reference.
pub open spec fn sp_replace_trait_ref(tr: TraitRef, bound: bool, id: usize, rep: Ty) -> TraitRef {
    TraitRef { trait_id: tr.trait_id, args: sp_replace_list(tr.args, bound, id, rep) }
}

/// `sp_replace` over a domain goal.
pub open spec fn sp_replace_domain_goal(d: DomainGoal, bound: bool, id: usize, rep: Ty) -> DomainGoal {
    match d {
        DomainGoal::Implemented(tr) => DomainGoal::Implemented(
            sp_replace_trait_ref(tr, bound, id, rep),
        ),
        DomainGoal::WellFormed(tr) => DomainGoal::WellFormed(
            sp_replace_trait_ref(tr, bound, id, rep),
        ),
        DomainGoal::TermsEq { a, b } => DomainGoal::TermsEq {
            a: sp_replace(a, bound, id, rep),
            b: sp_replace(b, bound, id, rep),
        },
    }
}

/// `sp_replace` over a list of domain goals.
pub open spec fn sp_replace_domain_goal_list(
    l: List<DomainGoal>,
    bound: bool,
    id: usize,
    rep: Ty,
) -> List<DomainGoal>
    decreases l,
{
    match l {
        List::Nil => List::Nil,
        List::Cons(d, rest) => List::Cons(
            sp_replace_domain_goal(d, bound, id, rep),
            Box::new(sp_replace_domain_goal_list(*rest, bound, id, rep)),
        ),
    }
}

/// `sp_replace` over a clause. Binders are assumed not to shadow the replaced
/// atom; well-formed input has no shadowing.
pub open spec fn sp_replace_clause(c: Clause, bound: bool, id: usize, rep: Ty) -> Clause {
    Clause {
        binders: c.binders,
        head: sp_replace_domain_goal(c.head, bound, id, rep),
        conditions: sp_replace_domain_goal_list(c.conditions, bound, id, rep),
    }
}

/// `sp_replace` over a list of clauses.
pub open spec fn sp_replace_clause_list(
    l: List<Clause>,
    bound: bool,
    id: usize,
    rep: Ty,
) -> List<Clause>
    decreases l,
{
    match l {
        List::Nil => List::Nil,
        List::Cons(c, rest) => List::Cons(
            sp_replace_clause(c, bound, id, rep),
            Box::new(sp_replace_clause_list(*rest, bound, id, rep)),
        ),
    }
}

/// Replacement of the quantified variable `Bound(id)` throughout a goal.
pub open spec fn sp_replace_goal(g: Goal, id: usize, rep: Ty) -> Goal
    decreases g,
{
    match g {
        Goal::Domain(d) => Goal::Domain(sp_replace_domain_goal(d, true, id, rep)),
        Goal::And(a, b) => Goal::And(
            Box::new(sp_replace_goal(*a, id, rep)),
            Box::new(sp_replace_goal(*b, id, rep)),
        ),
        Goal::Implies(cs, b) => Goal::Implies(
            sp_replace_clause_list(cs, true, id, rep),
            Box::new(sp_replace_goal(*b, id, rep)),
        ),
        Goal::ForAll(v, b) => Goal::ForAll(v, Box::new(sp_replace_goal(*b, id, rep))),
        Goal::Exists(v, b) => Goal::Exists(v, Box::new(sp_replace_goal(*b, id, rep))),
    }
}

/// Whether the variable `x` occurs in a term.
pub open spec fn ty_occurs(x: usize, t: Ty) -> bool
    decreases t,
{
    match t {
        Ty::Var(v) => v == x,
        Ty::Bound(_) => false,
        Ty::App { ctor: _, args } => ty_list_occurs(x, *args),
    }
}

/// Whether the variable `x` occurs in a list of terms.
pub open spec fn ty_list_occurs(x: usize, l: List<Ty>) -> bool
    decreases l,
{
    match l {
        List::Nil => false,
        List::Cons(t, rest) => ty_occurs(x, t) || ty_list_occurs(x, *rest),
    }
}

/// The substitution after binding `x` to `t`: every term already stored has
/// `Var(x)` rewritten to `t`, and slot `x` becomes `Some(t)`. Out-of-range ids
/// leave the length unchanged.
pub open spec fn sp_bind(s: Seq<Option<Ty>>, x: usize, t: Ty) -> Seq<Option<Ty>> {
    Seq::new(
        s.len(),
        |i: int|
            if i == x {
                Some(t)
            } else {
                match s[i] {
                    Some(u) => Some(sp_replace(u, false, x, t)),
                    None => None,
                }
            },
    )
}

/// A resolved term is untouched by `apply`.
pub proof fn lemma_resolved_apply_id(s: Seq<Option<Ty>>, t: Ty)
    requires
        ty_resolved(s, t),
    ensures
        sp_apply(s, t) == t,
    decreases t,
{
    match t {
        Ty::Var(_) => {},
        Ty::Bound(_) => {},
        Ty::App { ctor: _, args } => {
            lemma_resolved_apply_id_list(s, *args);
        },
    }
}

/// A resolved term list is untouched by `apply`.
pub proof fn lemma_resolved_apply_id_list(s: Seq<Option<Ty>>, l: List<Ty>)
    requires
        ty_list_resolved(s, l),
    ensures
        sp_apply_list(s, l) == l,
    decreases l,
{
    match l {
        List::Nil => {},
        List::Cons(t, rest) => {
            lemma_resolved_apply_id(s, t);
            lemma_resolved_apply_id_list(s, *rest);
        },
    }
}

/// Under a well-formed substitution, applied terms are resolved.
pub proof fn lemma_apply_resolved(s: Seq<Option<Ty>>, t: Ty)
    requires
        subst_wf(s),
    ensures
        ty_resolved(s, sp_apply(s, t)),
    decreases t,
{
    match t {
        Ty::Var(_) => {},
        Ty::Bound(_) => {},
        Ty::App { ctor: _, args } => {
            lemma_apply_resolved_list(s, *args);
        },
    }
}

/// Under a well-formed substitution, applied term lists are resolved.
pub proof fn lemma_apply_resolved_list(s: Seq<Option<Ty>>, l: List<Ty>)
    requires
        subst_wf(s),
    ensures
        ty_list_resolved(s, sp_apply_list(s, l)),
    decreases l,
{
    match l {
        List::Nil => {},
        List::Cons(t, rest) => {
            lemma_apply_resolved(s, t);
            lemma_apply_resolved_list(s, *rest);
        },
    }
}

/// Under a well-formed substitution, `apply` keeps closed terms closed.
pub proof fn lemma_apply_closed(s: Seq<Option<Ty>>, t: Ty)
    requires
        subst_wf(s),
        crate::ir::ty_closed(t),
    ensures
        crate::ir::ty_closed(sp_apply(s, t)),
    decreases t,
{
    match t {
        Ty::Var(_) => {},
        Ty::Bound(_) => {},
        Ty::App { ctor: _, args } => {
            lemma_apply_closed_list(s, *args);
        },
    }
}

/// Under a well-formed substitution, `apply` keeps closed term lists closed.
pub proof fn lemma_apply_closed_list(s: Seq<Option<Ty>>, l: List<Ty>)
    requires
        subst_wf(s),
        crate::ir::ty_list_closed(l),
    ensures
        crate::ir::ty_list_closed(sp_apply_list(s, l)),
    decreases l,
{
    match l {
        List::Nil => {},
        List::Cons(t, rest) => {
            lemma_apply_closed(s, t);
            lemma_apply_closed_list(s, *rest);
        },
    }
}

/// Executable `apply` over a term.
pub fn apply(s: &Vec<Option<Ty>>, t: &Ty) -> (r: Ty)
    ensures
        r == sp_apply(s@, *t),
    decreases *t,
{
    match t {
        Ty::Var(v) => {
            if *v < s.len() {
                match &s[*v] {
                    Some(u) => clone_ty(u),
                    None => Ty::Var(*v),
                }
            } else {
                Ty::Var(*v)
            }
        },
        Ty::Bound(b) => Ty::Bound(*b),
        Ty::App { ctor, args } => Ty::App { ctor: *ctor, args: Box::new(apply_list(s, args)) },
    }
}

/// Executable `apply` over a term list.
pub fn apply_list(s: &Vec<Option<Ty>>, l: &List<Ty>) -> (r: List<Ty>)
    ensures
        r == sp_apply_list(s@, *l),
    decreases *l,
{
    match l {
        List::Nil => List::Nil,
        List::Cons(t, rest) => List::Cons(apply(s, t), Box::new(apply_list(s, rest))),
    }
}

/// Executable `apply` over an interface reference.
pub fn apply_trait_ref(s: &Vec<Option<Ty>>, tr: &TraitRef) -> (r: TraitRef)
    ensures
        r == sp_apply_trait_ref(s@, *tr),
{
    TraitRef { trait_id: tr.trait_id, args: apply_list(s, &tr.args) }
}

/// Executable `apply` over a domain goal.
pub fn apply_domain_goal(s: &Vec<Option<Ty>>, d: &DomainGoal) -> (r: DomainGoal)
    ensures
        r == sp_apply_domain_goal(s@, *d),
{
    match d {
        DomainGoal::Implemented(tr) => DomainGoal::Implemented(apply_trait_ref(s, tr)),
        DomainGoal::WellFormed(tr) => DomainGoal::WellFormed(apply_trait_ref(s, tr)),
        DomainGoal::TermsEq { a, b } => DomainGoal::TermsEq { a: apply(s, a), b: apply(s, b) },
    }
}

/// Executable replacement over a term.
pub fn replace(t: &Ty, bound: bool, id: usize, rep: &Ty) -> (r: Ty)
    ensures
        r == sp_replace(*t, bound, id, *rep),
    decreases *t,
{
    match t {
        Ty::Var(v) => {
            if !bound && *v == id {
                clone_ty(rep)
            } else {
                Ty::Var(*v)
            }
        },
        Ty::Bound(b) => {
            if bound && *b == id {
                clone_ty(rep)
            } else {
                Ty::Bound(*b)
            }
        },
        Ty::App { ctor, args } => Ty::App {
            ctor: *ctor,
            args: Box::new(replace_list(args, bound, id, rep)),
        },
    }
}

/// Executable replacement over a term list.
pub fn replace_list(l: &List<Ty>, bound: bool, id: usize, rep: &Ty) -> (r: List<Ty>)
    ensures
        r == sp_replace_list(*l, bound, id, *rep),
    decreases *l,
{
    match l {
        List::Nil => List::Nil,
        List::Cons(t, rest) => List::Cons(
            replace(t, bound, id, rep),
            Box::new(replace_list(rest, bound, id, rep)),
        ),
    }
}

/// Executable replacement over an interface reference.
pub fn replace_trait_ref(tr: &TraitRef, bound: bool, id: usize, rep: &Ty) -> (r: TraitRef)
    ensures
        r == sp_replace_trait_ref(*tr, bound, id, *rep),
{
    TraitRef { trait_id: tr.trait_id, args: replace_list(&tr.args, bound, id, rep) }
}

/// Executable replacement over a domain goal.
pub fn replace_domain_goal(d: &DomainGoal, bound: bool, id: usize, rep: &Ty) -> (r: DomainGoal)
    ensures
        r == sp_replace_domain_goal(*d, bound, id, *rep),
{
    match d {
        DomainGoal::Implemented(tr) => DomainGoal::Implemented(replace_trait_ref(tr, bound, id, rep)),
        DomainGoal::WellFormed(tr) => DomainGoal::WellFormed(replace_trait_ref(tr, bound, id, rep)),
        DomainGoal::TermsEq { a, b } => DomainGoal::TermsEq {
            a: replace(a, bound, id, rep),
            b: replace(b, bound, id, rep),
        },
    }
}

/// Executable replacement over a list of domain goals.
pub fn replace_domain_goal_list(
    l: &List<DomainGoal>,
    bound: bool,
    id: usize,
    rep: &Ty,
) -> (r: List<DomainGoal>)
    ensures
        r == sp_replace_domain_goal_list(*l, bound, id, *rep),
    decreases *l,
{
    match l {
        List::Nil => List::Nil,
        List::Cons(d, rest) => List::Cons(
            replace_domain_goal(d, bound, id, rep),
            Box::new(replace_domain_goal_list(rest, bound, id, rep)),
        ),
    }
}

/// Executable replacement over a clause.
pub fn replace_clause(c: &Clause, bound: bool, id: usize, rep: &Ty) -> (r: Clause)
    ensures
        r == sp_replace_clause(*c, bound, id, *rep),
{
    Clause {
        binders: crate::ir::clone_usize_list(&c.binders),
        head: replace_domain_goal(&c.head, bound, id, rep),
        conditions: replace_domain_goal_list(&c.conditions, bound, id, rep),
    }
}

/// Executable replacement over a list of clauses.
pub fn replace_clause_list(l: &List<Clause>, bound: bool, id: usize, rep: &Ty) -> (r: List<Clause>)
    ensures
        r == sp_replace_clause_list(*l, bound, id, *rep),
    decreases *l,
{
    match l {
        List::Nil => List::Nil,
        List::Cons(c, rest) => List::Cons(
            replace_clause(c, bound, id, rep),
            Box::new(replace_clause_list(rest, bound, id, rep)),
        ),
    }
}

/// Executable replacement of a quantified variable throughout a goal.
pub fn replace_goal(g: &Goal, id: usize, rep: &Ty) -> (r: Goal)
    ensures
        r == sp_replace_goal(*g, id, *rep),
    decreases *g,
{
    match g {
        Goal::Domain(d) => Goal::Domain(replace_domain_goal(d, true, id, rep)),
        Goal::And(a, b) => Goal::And(
            Box::new(replace_goal(a, id, rep)),
            Box::new(replace_goal(b, id, rep)),
        ),
        Goal::Implies(cs, b) => Goal::Implies(
            replace_clause_list(cs, true, id, rep),
            Box::new(replace_goal(b, id, rep)),
        ),
        Goal::ForAll(v, b) => Goal::ForAll(*v, Box::new(replace_goal(b, id, rep))),
        Goal::Exists(v, b) => Goal::Exists(*v, Box::new(replace_goal(b, id, rep))),
    }
}

/// Executable occurs check.
pub fn occurs(x: usize, t: &Ty) -> (r: bool)
    ensures
        r == ty_occurs(x, *t),
    decreases *t,
{
    match t {
        Ty::Var(v) => *v == x,
        Ty::Bound(_) => false,
        Ty::App { ctor: _, args } => occurs_list(x, args),
    }
}

/// Executable occurs check over a term list.
pub fn occurs_list(x: usize, l: &List<Ty>) -> (r: bool)
    ensures
        r == ty_list_occurs(x, *l),
    decreases *l,
{
    match l {
        List::Nil => false,
        List::Cons(t, rest) => occurs(x, t) || occurs_list(x, rest),
    }
}

/// Executable binding step: rewrites the stored terms and fills slot `x`.
pub fn bind(s: Vec<Option<Ty>>, x: usize, t: Ty) -> (r: Vec<Option<Ty>>)
    ensures
        r@ == sp_bind(s@, x, t),
{
    let mut out: Vec<Option<Ty>> = Vec::new();
    let mut i: usize = 0;
    while i < s.len()
        invariant
            i <= s.len(),
            out@ =~= sp_bind(s@, x, t).subrange(0, i as int),
        decreases s.len() - i,
    {
        if i == x {
            out.push(Some(clone_ty(&t)));
        } else {
            match &s[i] {
                Some(u) => out.push(Some(replace(u, false, x, &t))),
                None => out.push(None),
            }
        }
        proof {
            assert(out@ =~= sp_bind(s@, x, t).subrange(0, i + 1 as int));
        }
        i = i + 1;
    }
    proof {
        assert(out@ =~= sp_bind(s@, x, t));
    }
    out
}

} // verus!
