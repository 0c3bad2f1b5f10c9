//! The program: interface and implementation declarations, and the clauses
//! they induce. Also the well-formedness checks that guard the solver's
//! entry: a malformed program or goal is the engine's one fatal error class.

use vstd::prelude::*;

use crate::ir::Clause;
use crate::ir::DomainGoal;
use crate::ir::Environment;
use crate::ir::Goal;
use crate::ir::List;
use crate::ir::PLACEHOLDER_BASE;
use crate::ir::TraitRef;
use crate::ir::Ty;
use crate::ir::clone_domain_goal;
use crate::ir::clone_domain_goal_list;
use crate::ir::clone_trait_ref;
use crate::ir::clone_usize_list;
use crate::ir::list_append;
use crate::ir::sp_list_append;

verus! {

/// An interface declaration: its id, its generic parameters (the first is the
/// self type), and the obligations its header imposes on them.
pub struct TraitDecl {
    pub trait_id: u64,
    pub binders: List<usize>,
    pub where_clauses: List<DomainGoal>,
}

/// An implementation declaration: its generic parameters, the interface
/// reference it establishes, and the conditions under which it applies.
pub struct ImplDecl {
    pub binders: List<usize>,
    pub trait_ref: TraitRef,
    pub where_clauses: List<DomainGoal>,
}

/// An immutable program of declarations; read-only input of a query.
pub struct Program {
    pub traits: List<TraitDecl>,
    pub impls: List<ImplDecl>,
}

/// The generic parameters of a declaration as terms.
pub open spec fn sp_binder_args(l: List<usize>) -> List<Ty>
    decreases l,
{
    match l {
        List::Nil => List::Nil,
        List::Cons(v, rest) => List::Cons(Ty::Bound(v), Box::new(sp_binder_args(*rest))),
    }
}

/// The clause an implementation induces: its interface reference holds when
/// its conditions do.
pub open spec fn sp_impl_clause(i: ImplDecl) -> Clause {
    Clause {
        binders: i.binders,
        head: DomainGoal::Implemented(i.trait_ref),
        conditions: i.where_clauses,
    }
}

/// The clauses of all implementations, in declaration order.
pub open spec fn sp_impl_clauses(l: List<ImplDecl>) -> List<Clause>
    decreases l,
{
    match l {
        List::Nil => List::Nil,
        List::Cons(i, rest) => List::Cons(sp_impl_clause(i), Box::new(sp_impl_clauses(*rest))),
    }
}

/// The elaborated superclass clauses of one interface: each obligation of its
/// header follows from the interface holding.
pub open spec fn sp_trait_clauses_one(t: TraitDecl, wcs: List<DomainGoal>) -> List<Clause>
    decreases wcs,
{
    match wcs {
        List::Nil => List::Nil,
        List::Cons(w, rest) => List::Cons(
            Clause {
                binders: t.binders,
                head: w,
                conditions: List::Cons(
                    DomainGoal::Implemented(
                        TraitRef { trait_id: t.trait_id, args: sp_binder_args(t.binders) },
                    ),
                    Box::new(List::Nil),
                ),
            },
            Box::new(sp_trait_clauses_one(t, *rest)),
        ),
    }
}

/// The elaborated clauses of all interfaces, in declaration order.
pub open spec fn sp_trait_clauses(l: List<TraitDecl>) -> List<Clause>
    decreases l,
{
    match l {
        List::Nil => List::Nil,
        List::Cons(t, rest) => sp_list_append(
            sp_trait_clauses_one(t, t.where_clauses),
            sp_trait_clauses(*rest),
        ),
    }
}

/// All clauses a program induces: implementations first, then the elaborated
/// interface obligations.
pub open spec fn sp_program_env(p: Program) -> List<Clause> {
    sp_list_append(sp_impl_clauses(p.impls), sp_trait_clauses(p.traits))
}

/// Executable generic parameters as terms.
pub fn binder_args(l: &List<usize>) -> (r: List<Ty>)
    ensures
        r == sp_binder_args(*l),
    decreases *l,
{
    match l {
        List::Nil => List::Nil,
        List::Cons(v, rest) => List::Cons(Ty::Bound(*v), Box::new(binder_args(rest))),
    }
}

/// Executable clauses of the implementations.
pub fn impl_clauses(l: &List<ImplDecl>) -> (r: List<Clause>)
    ensures
        r == sp_impl_clauses(*l),
    decreases *l,
{
    match l {
        List::Nil => List::Nil,
        List::Cons(i, rest) => List::Cons(
            Clause {
                binders: clone_usize_list(&i.binders),
                head: DomainGoal::Implemented(clone_trait_ref(&i.trait_ref)),
                conditions: clone_domain_goal_list(&i.where_clauses),
            },
            Box::new(impl_clauses(rest)),
        ),
    }
}

/// Executable elaborated clauses of one interface.
pub fn trait_clauses_one(t: &TraitDecl, wcs: &List<DomainGoal>) -> (r: List<Clause>)
    ensures
        r == sp_trait_clauses_one(*t, *wcs),
    decreases *wcs,
{
    match wcs {
        List::Nil => List::Nil,
        List::Cons(w, rest) => List::Cons(
            Clause {
                binders: clone_usize_list(&t.binders),
                head: clone_domain_goal(w),
                conditions: List::Cons(
                    DomainGoal::Implemented(
                        TraitRef { trait_id: t.trait_id, args: binder_args(&t.binders) },
                    ),
                    Box::new(List::Nil),
                ),
            },
            Box::new(trait_clauses_one(t, rest)),
        ),
    }
}

/// Executable elaborated clauses of the interfaces.
pub fn trait_clauses(l: &List<TraitDecl>) -> (r: List<Clause>)
    ensures
        r == sp_trait_clauses(*l),
    decreases *l,
{
    match l {
        List::Nil => List::Nil,
        List::Cons(t, rest) => list_append(trait_clauses_one(t, &t.where_clauses), trait_clauses(rest)),
    }
}

impl Program {
    /// The environment a query starts from: every clause the program induces.
    pub fn environment(&self) -> (r: Environment)
        ensures
            r.clauses == sp_program_env(*self),
    {
        Environment { clauses: list_append(impl_clauses(&self.impls), trait_clauses(&self.traits)) }
    }
}

/// Whether a binder id is in scope.
pub open spec fn sp_scope_contains(scope: List<usize>, v: usize) -> bool
    decreases scope,
{
    match scope {
        List::Nil => false,
        List::Cons(w, rest) => w == v || sp_scope_contains(*rest, v),
    }
}

/// Well-formedness of a term: every `Bound` is in scope, and `Var` only where
/// free variables are allowed — in goals, but not in program clauses. Program
/// constructor ids stay below the placeholder range the engine mints from; a
/// goal may carry placeholders, since peeling puts them there.
pub open spec fn sp_ty_wf(t: Ty, scope: List<usize>, allow_var: bool) -> bool
    decreases t,
{
    match t {
        Ty::Var(_) => allow_var,
        Ty::Bound(b) => sp_scope_contains(scope, b),
        Ty::App { ctor, args } => (allow_var || ctor < PLACEHOLDER_BASE) && sp_ty_list_wf(
            *args,
            scope,
            allow_var,
        ),
    }
}

/// Well-formedness of a term list.
pub open spec fn sp_ty_list_wf(l: List<Ty>, scope: List<usize>, allow_var: bool) -> bool
    decreases l,
{
    match l {
        List::Nil => true,
        List::Cons(t, rest) => sp_ty_wf(t, scope, allow_var) && sp_ty_list_wf(*rest, scope, allow_var),
    }
}

/// Well-formedness of a domain goal.
pub open spec fn sp_dg_wf(d: DomainGoal, scope: List<usize>, allow_var: bool) -> bool {
    match d {
        DomainGoal::Implemented(tr) => sp_ty_list_wf(tr.args, scope, allow_var),
        DomainGoal::WellFormed(tr) => sp_ty_list_wf(tr.args, scope, allow_var),
        DomainGoal::TermsEq { a, b } => sp_ty_wf(a, scope, allow_var) && sp_ty_wf(
            b,
            scope,
            allow_var,
        ),
    }
}

/// Well-formedness of a list of domain goals.
pub open spec fn sp_dg_list_wf(l: List<DomainGoal>, scope: List<usize>, allow_var: bool) -> bool
    decreases l,
{
    match l {
        List::Nil => true,
        List::Cons(d, rest) => sp_dg_wf(d, scope, allow_var) && sp_dg_list_wf(
            *rest,
            scope,
            allow_var,
        ),
    }
}

/// Binders must be distinct among themselves and must not shadow the scope.
pub open spec fn sp_binders_ok(bs: List<usize>, scope: List<usize>) -> bool
    decreases bs,
{
    match bs {
        List::Nil => true,
        List::Cons(v, rest) => !sp_scope_contains(scope, v) && sp_binders_ok(
            *rest,
            List::Cons(v, Box::new(scope)),
        ),
    }
}

/// The scope extended by a binder list.
pub open spec fn sp_scope_extend(bs: List<usize>, scope: List<usize>) -> List<usize>
    decreases bs,
{
    match bs {
        List::Nil => scope,
        List::Cons(v, rest) => sp_scope_extend(*rest, List::Cons(v, Box::new(scope))),
    }
}

/// Well-formedness of a clause under a scope.
pub open spec fn sp_clause_wf(c: Clause, scope: List<usize>, allow_var: bool) -> bool {
    &&& sp_binders_ok(c.binders, scope)
    &&& sp_dg_wf(c.head, sp_scope_extend(c.binders, scope), allow_var)
    &&& sp_dg_list_wf(c.conditions, sp_scope_extend(c.binders, scope), allow_var)
}

/// Well-formedness of a clause list under a scope.
pub open spec fn sp_clause_list_wf(l: List<Clause>, scope: List<usize>, allow_var: bool) -> bool
    decreases l,
{
    match l {
        List::Nil => true,
        List::Cons(c, rest) => sp_clause_wf(c, scope, allow_var) && sp_clause_list_wf(
            *rest,
            scope,
            allow_var,
        ),
    }
}

/// Well-formedness of a goal: scoping of bound variables, no shadowing, and
/// free variables only in goal position (hypothetical clauses may carry them
/// too, since they come from the goal).
pub open spec fn sp_goal_wf(g: Goal, scope: List<usize>) -> bool
    decreases g,
{
    match g {
        Goal::Domain(d) => sp_dg_wf(d, scope, true),
        Goal::And(a, b) => sp_goal_wf(*a, scope) && sp_goal_wf(*b, scope),
        Goal::Implies(cs, b) => sp_clause_list_wf(cs, scope, true) && sp_goal_wf(*b, scope),
        Goal::ForAll(v, b) => !sp_scope_contains(scope, v) && sp_goal_wf(
            *b,
            List::Cons(v, Box::new(scope)),
        ),
        Goal::Exists(v, b) => !sp_scope_contains(scope, v) && sp_goal_wf(
            *b,
            List::Cons(v, Box::new(scope)),
        ),
    }
}

/// Well-formedness of a starting environment: its clauses are closed (free
/// variables belong to goals, not to program clauses).
pub open spec fn sp_env_wf(env: List<Clause>) -> bool {
    sp_clause_list_wf(env, List::Nil, false)
}

/// Free variables allowed is the weaker demand: program-shaped terms are also
/// goal-shaped.
pub proof fn lemma_wf_allow_var_ty(t: Ty, scope: List<usize>)
    requires
        sp_ty_wf(t, scope, false),
    ensures
        sp_ty_wf(t, scope, true),
    decreases t,
{
    match t {
        Ty::Var(_) => {},
        Ty::Bound(_) => {},
        Ty::App { ctor: _, args } => {
            lemma_wf_allow_var_ty_list(*args, scope);
        },
    }
}

/// List form of `lemma_wf_allow_var_ty`.
pub proof fn lemma_wf_allow_var_ty_list(l: List<Ty>, scope: List<usize>)
    requires
        sp_ty_list_wf(l, scope, false),
    ensures
        sp_ty_list_wf(l, scope, true),
    decreases l,
{
    match l {
        List::Nil => {},
        List::Cons(t, rest) => {
            lemma_wf_allow_var_ty(t, scope);
            lemma_wf_allow_var_ty_list(*rest, scope);
        },
    }
}

/// Domain-goal form of `lemma_wf_allow_var_ty`.
pub proof fn lemma_wf_allow_var_dg(d: DomainGoal, scope: List<usize>)
    requires
        sp_dg_wf(d, scope, false),
    ensures
        sp_dg_wf(d, scope, true),
{
    match d {
        DomainGoal::Implemented(tr) => {
            lemma_wf_allow_var_ty_list(tr.args, scope);
        },
        DomainGoal::WellFormed(tr) => {
            lemma_wf_allow_var_ty_list(tr.args, scope);
        },
        DomainGoal::TermsEq { a, b } => {
            lemma_wf_allow_var_ty(a, scope);
            lemma_wf_allow_var_ty(b, scope);
        },
    }
}

/// Domain-goal-list form of `lemma_wf_allow_var_ty`.
pub proof fn lemma_wf_allow_var_dg_list(l: List<DomainGoal>, scope: List<usize>)
    requires
        sp_dg_list_wf(l, scope, false),
    ensures
        sp_dg_list_wf(l, scope, true),
    decreases l,
{
    match l {
        List::Nil => {},
        List::Cons(d, rest) => {
            lemma_wf_allow_var_dg(d, scope);
            lemma_wf_allow_var_dg_list(*rest, scope);
        },
    }
}

/// Clause-list form of `lemma_wf_allow_var_ty`.
pub proof fn lemma_wf_allow_var_clause_list(l: List<Clause>, scope: List<usize>)
    requires
        sp_clause_list_wf(l, scope, false),
    ensures
        sp_clause_list_wf(l, scope, true),
    decreases l,
{
    match l {
        List::Nil => {},
        List::Cons(c, rest) => {
            lemma_wf_allow_var_dg(c.head, sp_scope_extend(c.binders, scope));
            lemma_wf_allow_var_dg_list(c.conditions, sp_scope_extend(c.binders, scope));
            lemma_wf_allow_var_clause_list(*rest, scope);
        },
    }
}

/// A closed term is well formed in any scope where free variables are
/// allowed.
pub proof fn lemma_closed_wf_ty(t: Ty, scope: List<usize>)
    requires
        crate::ir::ty_closed(t),
    ensures
        sp_ty_wf(t, scope, true),
    decreases t,
{
    match t {
        Ty::Var(_) => {},
        Ty::Bound(_) => {},
        Ty::App { ctor: _, args } => {
            lemma_closed_wf_ty_list(*args, scope);
        },
    }
}

/// List form of `lemma_closed_wf_ty`.
pub proof fn lemma_closed_wf_ty_list(l: List<Ty>, scope: List<usize>)
    requires
        crate::ir::ty_list_closed(l),
    ensures
        sp_ty_list_wf(l, scope, true),
    decreases l,
{
    match l {
        List::Nil => {},
        List::Cons(t, rest) => {
            lemma_closed_wf_ty(t, scope);
            lemma_closed_wf_ty_list(*rest, scope);
        },
    }
}

/// Domain-goal form of `lemma_closed_wf_ty`.
pub proof fn lemma_closed_wf_dg(d: DomainGoal, scope: List<usize>)
    requires
        crate::ir::dg_closed(d),
    ensures
        sp_dg_wf(d, scope, true),
{
    match d {
        DomainGoal::Implemented(tr) => {
            lemma_closed_wf_ty_list(tr.args, scope);
        },
        DomainGoal::WellFormed(tr) => {
            lemma_closed_wf_ty_list(tr.args, scope);
        },
        DomainGoal::TermsEq { a, b } => {
            lemma_closed_wf_ty(a, scope);
            lemma_closed_wf_ty(b, scope);
        },
    }
}

/// A domain goal well formed under the empty scope is closed, and the
/// converse holds too.
pub proof fn lemma_wf_nil_closed_ty(t: Ty)
    ensures
        sp_ty_wf(t, List::Nil, true) ==> crate::ir::ty_closed(t),
    decreases t,
{
    match t {
        Ty::Var(_) => {},
        Ty::Bound(_) => {},
        Ty::App { ctor: _, args } => {
            lemma_wf_nil_closed_ty_list(*args);
        },
    }
}

/// List form of `lemma_wf_nil_closed_ty`.
pub proof fn lemma_wf_nil_closed_ty_list(l: List<Ty>)
    ensures
        sp_ty_list_wf(l, List::Nil, true) ==> crate::ir::ty_list_closed(l),
    decreases l,
{
    match l {
        List::Nil => {},
        List::Cons(t, rest) => {
            lemma_wf_nil_closed_ty(t);
            lemma_wf_nil_closed_ty_list(*rest);
        },
    }
}

/// Domain-goal form of `lemma_wf_nil_closed_ty`.
pub proof fn lemma_wf_nil_closed_dg(d: DomainGoal)
    ensures
        sp_dg_wf(d, List::Nil, true) ==> crate::ir::dg_closed(d),
{
    match d {
        DomainGoal::Implemented(tr) => {
            lemma_wf_nil_closed_ty_list(tr.args);
        },
        DomainGoal::WellFormed(tr) => {
            lemma_wf_nil_closed_ty_list(tr.args);
        },
        DomainGoal::TermsEq { a, b } => {
            lemma_wf_nil_closed_ty(a);
            lemma_wf_nil_closed_ty(b);
        },
    }
}

/// Domain-goal-list form of `lemma_wf_nil_closed_ty`.
pub proof fn lemma_wf_nil_closed_dg_list(l: List<DomainGoal>)
    ensures
        sp_dg_list_wf(l, List::Nil, true) ==> crate::ir::dg_list_closed(l),
    decreases l,
{
    match l {
        List::Nil => {},
        List::Cons(d, rest) => {
            lemma_wf_nil_closed_dg(d);
            lemma_wf_nil_closed_dg_list(*rest);
        },
    }
}

/// Membership in an extended scope: either among the binders or in the base.
pub proof fn lemma_scope_extend_contains(bs: List<usize>, sc: List<usize>, b: usize)
    ensures
        sp_scope_contains(sp_scope_extend(bs, sc), b) == (sp_scope_contains(bs, b)
            || sp_scope_contains(sc, b)),
    decreases bs,
{
    match bs {
        List::Nil => {},
        List::Cons(v, rest) => {
            lemma_scope_extend_contains(*rest, List::Cons(v, Box::new(sc)), b);
        },
    }
}

/// Replacing a scoped variable with a closed term moves well-formedness to
/// any scope that keeps the other names.
pub proof fn lemma_replace_scope_ty(t: Ty, scope1: List<usize>, scope2: List<usize>, v: usize, rep: Ty)
    requires
        sp_ty_wf(t, scope1, true),
        crate::ir::ty_closed(rep),
        forall|b: usize| b != v && #[trigger] sp_scope_contains(scope1, b) ==> sp_scope_contains(
            scope2,
            b,
        ),
    ensures
        sp_ty_wf(crate::subst::sp_replace(t, true, v, rep), scope2, true),
    decreases t,
{
    match t {
        Ty::Var(_) => {},
        Ty::Bound(b) => {
            if b == v {
                lemma_closed_wf_ty(rep, scope2);
            }
        },
        Ty::App { ctor: _, args } => {
            lemma_replace_scope_ty_list(*args, scope1, scope2, v, rep);
        },
    }
}

/// List form of `lemma_replace_scope_ty`.
pub proof fn lemma_replace_scope_ty_list(
    l: List<Ty>,
    scope1: List<usize>,
    scope2: List<usize>,
    v: usize,
    rep: Ty,
)
    requires
        sp_ty_list_wf(l, scope1, true),
        crate::ir::ty_closed(rep),
        forall|b: usize| b != v && #[trigger] sp_scope_contains(scope1, b) ==> sp_scope_contains(
            scope2,
            b,
        ),
    ensures
        sp_ty_list_wf(crate::subst::sp_replace_list(l, true, v, rep), scope2, true),
    decreases l,
{
    match l {
        List::Nil => {},
        List::Cons(t, rest) => {
            lemma_replace_scope_ty(t, scope1, scope2, v, rep);
            lemma_replace_scope_ty_list(*rest, scope1, scope2, v, rep);
        },
    }
}

/// Domain-goal form of `lemma_replace_scope_ty`.
pub proof fn lemma_replace_scope_dg(
    d: DomainGoal,
    scope1: List<usize>,
    scope2: List<usize>,
    v: usize,
    rep: Ty,
)
    requires
        sp_dg_wf(d, scope1, true),
        crate::ir::ty_closed(rep),
        forall|b: usize| b != v && #[trigger] sp_scope_contains(scope1, b) ==> sp_scope_contains(
            scope2,
            b,
        ),
    ensures
        sp_dg_wf(crate::subst::sp_replace_domain_goal(d, true, v, rep), scope2, true),
{
    match d {
        DomainGoal::Implemented(tr) => {
            lemma_replace_scope_ty_list(tr.args, scope1, scope2, v, rep);
        },
        DomainGoal::WellFormed(tr) => {
            lemma_replace_scope_ty_list(tr.args, scope1, scope2, v, rep);
        },
        DomainGoal::TermsEq { a, b } => {
            lemma_replace_scope_ty(a, scope1, scope2, v, rep);
            lemma_replace_scope_ty(b, scope1, scope2, v, rep);
        },
    }
}

/// Domain-goal-list form of `lemma_replace_scope_ty`.
pub proof fn lemma_replace_scope_dg_list(
    l: List<DomainGoal>,
    scope1: List<usize>,
    scope2: List<usize>,
    v: usize,
    rep: Ty,
)
    requires
        sp_dg_list_wf(l, scope1, true),
        crate::ir::ty_closed(rep),
        forall|b: usize| b != v && #[trigger] sp_scope_contains(scope1, b) ==> sp_scope_contains(
            scope2,
            b,
        ),
    ensures
        sp_dg_list_wf(crate::subst::sp_replace_domain_goal_list(l, true, v, rep), scope2, true),
    decreases l,
{
    match l {
        List::Nil => {},
        List::Cons(d, rest) => {
            lemma_replace_scope_dg(d, scope1, scope2, v, rep);
            lemma_replace_scope_dg_list(*rest, scope1, scope2, v, rep);
        },
    }
}

/// Appending clause lists preserves well-formedness.
pub proof fn lemma_append_clause_list_wf(a: List<Clause>, b: List<Clause>, scope: List<usize>, allow_var: bool)
    requires
        sp_clause_list_wf(a, scope, allow_var),
        sp_clause_list_wf(b, scope, allow_var),
    ensures
        sp_clause_list_wf(crate::ir::sp_list_append(a, b), scope, allow_var),
    decreases a,
{
    match a {
        List::Nil => {},
        List::Cons(_, rest) => {
            lemma_append_clause_list_wf(*rest, b, scope, allow_var);
        },
    }
}

/// Executable scope membership.
pub fn scope_contains(scope: &List<usize>, v: usize) -> (r: bool)
    ensures
        r == sp_scope_contains(*scope, v),
    decreases *scope,
{
    match scope {
        List::Nil => false,
        List::Cons(w, rest) => *w == v || scope_contains(rest, v),
    }
}

/// Executable term well-formedness.
pub fn ty_wf(t: &Ty, scope: &List<usize>, allow_var: bool) -> (r: bool)
    ensures
        r == sp_ty_wf(*t, *scope, allow_var),
    decreases *t,
{
    match t {
        Ty::Var(_) => allow_var,
        Ty::Bound(b) => scope_contains(scope, *b),
        Ty::App { ctor, args } => (allow_var || *ctor < PLACEHOLDER_BASE) && ty_list_wf(
            args,
            scope,
            allow_var,
        ),
    }
}

/// Executable term-list well-formedness.
pub fn ty_list_wf(l: &List<Ty>, scope: &List<usize>, allow_var: bool) -> (r: bool)
    ensures
        r == sp_ty_list_wf(*l, *scope, allow_var),
    decreases *l,
{
    match l {
        List::Nil => true,
        List::Cons(t, rest) => ty_wf(t, scope, allow_var) && ty_list_wf(rest, scope, allow_var),
    }
}

/// Executable domain-goal well-formedness.
pub fn dg_wf(d: &DomainGoal, scope: &List<usize>, allow_var: bool) -> (r: bool)
    ensures
        r == sp_dg_wf(*d, *scope, allow_var),
{
    match d {
        DomainGoal::Implemented(tr) => ty_list_wf(&tr.args, scope, allow_var),
        DomainGoal::WellFormed(tr) => ty_list_wf(&tr.args, scope, allow_var),
        DomainGoal::TermsEq { a, b } => ty_wf(a, scope, allow_var) && ty_wf(b, scope, allow_var),
    }
}

/// Executable domain-goal-list well-formedness.
pub fn dg_list_wf(l: &List<DomainGoal>, scope: &List<usize>, allow_var: bool) -> (r: bool)
    ensures
        r == sp_dg_list_wf(*l, *scope, allow_var),
    decreases *l,
{
    match l {
        List::Nil => true,
        List::Cons(d, rest) => dg_wf(d, scope, allow_var) && dg_list_wf(rest, scope, allow_var),
    }
}

/// Executable binder check.
pub fn binders_ok(bs: &List<usize>, scope: List<usize>) -> (r: bool)
    ensures
        r == sp_binders_ok(*bs, scope),
    decreases *bs,
{
    match bs {
        List::Nil => true,
        List::Cons(v, rest) => !scope_contains(&scope, *v) && binders_ok(
            rest,
            List::Cons(*v, Box::new(scope)),
        ),
    }
}

/// Executable scope extension.
pub fn scope_extend(bs: &List<usize>, scope: List<usize>) -> (r: List<usize>)
    ensures
        r == sp_scope_extend(*bs, scope),
    decreases *bs,
{
    match bs {
        List::Nil => scope,
        List::Cons(v, rest) => scope_extend(rest, List::Cons(*v, Box::new(scope))),
    }
}

/// Executable clause well-formedness.
pub fn clause_wf(c: &Clause, scope: &List<usize>, allow_var: bool) -> (r: bool)
    ensures
        r == sp_clause_wf(*c, *scope, allow_var),
{
    if !binders_ok(&c.binders, clone_usize_list(scope)) {
        return false;
    }
    let scope2 = scope_extend(&c.binders, clone_usize_list(scope));
    dg_wf(&c.head, &scope2, allow_var) && dg_list_wf(&c.conditions, &scope2, allow_var)
}

/// Executable clause-list well-formedness.
pub fn clause_list_wf(l: &List<Clause>, scope: &List<usize>, allow_var: bool) -> (r: bool)
    ensures
        r == sp_clause_list_wf(*l, *scope, allow_var),
    decreases *l,
{
    match l {
        List::Nil => true,
        List::Cons(c, rest) => clause_wf(c, scope, allow_var) && clause_list_wf(
            rest,
            scope,
            allow_var,
        ),
    }
}

/// Executable goal well-formedness.
pub fn goal_wf(g: &Goal, scope: &List<usize>) -> (r: bool)
    ensures
        r == sp_goal_wf(*g, *scope),
    decreases *g,
{
    match g {
        Goal::Domain(d) => dg_wf(d, scope, true),
        Goal::And(a, b) => goal_wf(a, scope) && goal_wf(b, scope),
        Goal::Implies(cs, b) => clause_list_wf(cs, scope, true) && goal_wf(b, scope),
        Goal::ForAll(v, b) => {
            if scope_contains(scope, *v) {
                false
            } else {
                let scope2 = List::Cons(*v, Box::new(clone_usize_list(scope)));
                goal_wf(b, &scope2)
            }
        },
        Goal::Exists(v, b) => {
            if scope_contains(scope, *v) {
                false
            } else {
                let scope2 = List::Cons(*v, Box::new(clone_usize_list(scope)));
                goal_wf(b, &scope2)
            }
        },
    }
}

/// Executable well-formedness of a starting environment.
pub fn env_wf(env: &List<Clause>) -> (r: bool)
    ensures
        r == sp_env_wf(*env),
{
    clause_list_wf(env, &List::Nil, false)
}

} // verus!
