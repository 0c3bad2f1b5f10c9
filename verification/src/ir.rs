//! The term, goal and clause model of the engine.
//!
//! Terms, goals and clauses are built over cons lists rather than vectors so
//! that the same datatypes serve both the executable search and the
//! mathematical specification functions that the contracts are stated over.

use vstd::prelude::*;

verus! {

/// A cons list. The in-memory representation of every sequence that sits
/// inside a term, goal or clause.
pub enum List<T> {
    Nil,
    Cons(T, Box<List<T>>),
}

/// Type constructors whose id is at or above this value are placeholders:
/// fresh constants minted when a universally quantified goal is instantiated.
/// A well-formed program uses only constructor ids below it.
pub const PLACEHOLDER_BASE: u64 = 0x1_0000_0000;

/// The number of placeholders one query may mint before it is reported as
/// exceeding its bounds.
pub const PLACEHOLDER_LIMIT: usize = 0xFFFF_FFFF;

/// A type term.
///
/// `Var` is a free (existential) variable, an index into the substitution of
/// the proof branch that owns it. `Bound` is a variable still under a binder
/// (a clause's generic parameter, or the variable of a quantified goal) and is
/// replaced when the binder is instantiated. `App` applies a type constructor
/// to arguments; a projection such as an associated type is represented as an
/// application of its own constructor.
pub enum Ty {
    Var(usize),
    Bound(usize),
    App { ctor: u64, args: Box<List<Ty>> },
}

/// A reference to an interface applied to arguments; by convention the first
/// argument is the self type.
pub struct TraitRef {
    pub trait_id: u64,
    pub args: List<Ty>,
}

/// An atomic goal: an interface bound holds, an interface bound is
/// well-formed, or two terms (for instance an associated-type projection and
/// its value) are equal.
pub enum DomainGoal {
    Implemented(TraitRef),
    WellFormed(TraitRef),
    TermsEq { a: Ty, b: Ty },
}

/// A program clause `head :- conditions`, universally quantified over the
/// `Bound` variables listed in `binders`. Each use instantiates the binders
/// with fresh variables.
pub struct Clause {
    pub binders: List<usize>,
    pub head: DomainGoal,
    pub conditions: List<DomainGoal>,
}

/// A goal to prove. `Implies` extends the environment with hypothetical
/// clauses; `ForAll` and `Exists` bind the `Bound` variable given by their
/// first field inside their body.
pub enum Goal {
    Domain(DomainGoal),
    And(Box<Goal>, Box<Goal>),
    Implies(List<Clause>, Box<Goal>),
    ForAll(usize, Box<Goal>),
    Exists(usize, Box<Goal>),
}

/// The ordered set of clauses visible at a proof step: the program's clauses,
/// extended (never mutated) by hypothetical clauses from implication goals.
pub struct Environment {
    pub clauses: List<Clause>,
}

/// The classification of a proof search's result. `Floundered` is the
/// distinguished outcome of a goal the strategy could not resolve for want of
/// instantiation — not a subtype of `NoSolution`, though the reporter renders
/// a floundered subtree as no solution at the boundary.
#[derive(Clone, Copy)]
pub enum Outcome {
    Unique,
    Ambiguous,
    NoSolution,
    Floundered,
    Overflow,
}

/// A solution reported to the caller. A unique proof carries the substitution
/// it constructed and any residual obligations it could not discharge inline;
/// with this crate's occurs-checking unifier no residual obligations arise,
/// so the list is always empty here, and an ambiguous solution carries no
/// refining guidance.
pub enum Solution {
    Unique { subst: List<Option<Ty>>, constraints: List<DomainGoal> },
    Ambiguous,
}

/// The only conditions that escape a query: a search bound was exceeded, or
/// the input was malformed (the one fatal class).
#[derive(Clone, Copy)]
pub enum SolveError {
    Overflow,
    Malformed,
}

/// The caller-supplied choice of proof-search strategy and its bound.
#[derive(Clone, Copy)]
pub enum SolverChoice {
    Recursive { overflow_depth: usize, caching_enabled: bool },
    SLG { max_size: usize },
}

/// The number of elements of a list.
pub open spec fn list_len<T>(l: List<T>) -> nat
    decreases l,
{
    match l {
        List::Nil => 0,
        List::Cons(_, rest) => 1 + list_len(*rest),
    }
}

/// One list followed by another.
pub open spec fn sp_list_append<T>(a: List<T>, b: List<T>) -> List<T>
    decreases a,
{
    match a {
        List::Nil => b,
        List::Cons(h, rest) => List::Cons(h, Box::new(sp_list_append(*rest, b))),
    }
}

/// The number of term nodes, the measure of every structural recursion over
/// terms.
pub open spec fn ty_size(t: Ty) -> nat
    decreases t,
{
    match t {
        Ty::Var(_) => 1,
        Ty::Bound(_) => 1,
        Ty::App { ctor: _, args } => 1 + ty_list_size(*args),
    }
}

/// The total node count of a list of terms.
pub open spec fn ty_list_size(l: List<Ty>) -> nat
    decreases l,
{
    match l {
        List::Nil => 0,
        List::Cons(t, rest) => 1 + ty_size(t) + ty_list_size(*rest),
    }
}

/// The number of goal nodes; the structural measure of the proof search.
pub open spec fn goal_size(g: Goal) -> nat
    decreases g,
{
    match g {
        Goal::Domain(_) => 1,
        Goal::And(a, b) => 1 + goal_size(*a) + goal_size(*b),
        Goal::Implies(_, b) => 1 + goal_size(*b),
        Goal::ForAll(_, b) => 1 + goal_size(*b),
        Goal::Exists(_, b) => 1 + goal_size(*b),
    }
}

/// Whether a term contains no `Bound` variable.
pub open spec fn ty_closed(t: Ty) -> bool
    decreases t,
{
    match t {
        Ty::Var(_) => true,
        Ty::Bound(_) => false,
        Ty::App { ctor: _, args } => ty_list_closed(*args),
    }
}

/// Whether every term of a list is closed.
pub open spec fn ty_list_closed(l: List<Ty>) -> bool
    decreases l,
{
    match l {
        List::Nil => true,
        List::Cons(t, rest) => ty_closed(t) && ty_list_closed(*rest),
    }
}

/// Whether a domain goal contains no `Bound` variable.
pub open spec fn dg_closed(d: DomainGoal) -> bool {
    match d {
        DomainGoal::Implemented(tr) => ty_list_closed(tr.args),
        DomainGoal::WellFormed(tr) => ty_list_closed(tr.args),
        DomainGoal::TermsEq { a, b } => ty_closed(a) && ty_closed(b),
    }
}

/// Whether every domain goal of a list is closed.
pub open spec fn dg_list_closed(l: List<DomainGoal>) -> bool
    decreases l,
{
    match l {
        List::Nil => true,
        List::Cons(d, rest) => dg_closed(d) && dg_list_closed(*rest),
    }
}

/// The exact number of elements of a list, when it fits the machine;
/// saturating at `usize::MAX` otherwise.
pub open spec fn sp_list_len_cap<T>(l: List<T>) -> usize
    decreases l,
{
    match l {
        List::Nil => 0,
        List::Cons(_, rest) => {
            let n = sp_list_len_cap(*rest);
            if n < usize::MAX {
                (n + 1) as usize
            } else {
                usize::MAX
            }
        },
    }
}

impl<T> List<T> {
    /// The length of the list, saturating at `usize::MAX`.
    pub fn len_cap(&self) -> (r: usize)
        ensures
            r == sp_list_len_cap(*self),
        decreases *self,
    {
        match self {
            List::Nil => 0,
            List::Cons(_, rest) => {
                let n: usize = rest.len_cap();
                if n < usize::MAX {
                    n + 1
                } else {
                    usize::MAX
                }
            },
        }
    }
}

/// One list followed by another, consuming both.
pub fn list_append<T>(a: List<T>, b: List<T>) -> (r: List<T>)
    ensures
        r == sp_list_append(a, b),
    decreases a,
{
    match a {
        List::Nil => b,
        List::Cons(h, rest) => List::Cons(h, Box::new(list_append(*rest, b))),
    }
}

/// Structural equality of terms.
pub fn eq_ty(a: &Ty, b: &Ty) -> (r: bool)
    ensures
        r == (*a == *b),
    decreases *a,
{
    match (a, b) {
        (Ty::Var(x), Ty::Var(y)) => *x == *y,
        (Ty::Bound(x), Ty::Bound(y)) => *x == *y,
        (Ty::App { ctor: c1, args: a1 }, Ty::App { ctor: c2, args: a2 }) => *c1 == *c2
            && eq_ty_list(a1, a2),
        _ => false,
    }
}

/// Structural equality of term lists.
pub fn eq_ty_list(a: &List<Ty>, b: &List<Ty>) -> (r: bool)
    ensures
        r == (*a == *b),
    decreases *a,
{
    match (a, b) {
        (List::Nil, List::Nil) => true,
        (List::Cons(x, xs), List::Cons(y, ys)) => eq_ty(x, y) && eq_ty_list(xs, ys),
        _ => false,
    }
}

/// Structural equality of interface references.
pub fn eq_trait_ref(a: &TraitRef, b: &TraitRef) -> (r: bool)
    ensures
        r == (*a == *b),
{
    a.trait_id == b.trait_id && eq_ty_list(&a.args, &b.args)
}

/// Structural equality of domain goals.
pub fn eq_domain_goal(a: &DomainGoal, b: &DomainGoal) -> (r: bool)
    ensures
        r == (*a == *b),
{
    match (a, b) {
        (DomainGoal::Implemented(t1), DomainGoal::Implemented(t2)) => eq_trait_ref(t1, t2),
        (DomainGoal::WellFormed(t1), DomainGoal::WellFormed(t2)) => eq_trait_ref(t1, t2),
        (DomainGoal::TermsEq { a: a1, b: b1 }, DomainGoal::TermsEq { a: a2, b: b2 }) => eq_ty(
            a1,
            a2,
        ) && eq_ty(b1, b2),
        _ => false,
    }
}

/// Structural equality of domain-goal lists.
pub fn eq_domain_goal_list(a: &List<DomainGoal>, b: &List<DomainGoal>) -> (r: bool)
    ensures
        r == (*a == *b),
    decreases *a,
{
    match (a, b) {
        (List::Nil, List::Nil) => true,
        (List::Cons(x, xs), List::Cons(y, ys)) => eq_domain_goal(x, y) && eq_domain_goal_list(
            xs,
            ys,
        ),
        _ => false,
    }
}

/// Structural equality of binder lists.
pub fn eq_usize_list(a: &List<usize>, b: &List<usize>) -> (r: bool)
    ensures
        r == (*a == *b),
    decreases *a,
{
    match (a, b) {
        (List::Nil, List::Nil) => true,
        (List::Cons(x, xs), List::Cons(y, ys)) => *x == *y && eq_usize_list(xs, ys),
        _ => false,
    }
}

/// Structural equality of clauses.
pub fn eq_clause(a: &Clause, b: &Clause) -> (r: bool)
    ensures
        r == (*a == *b),
{
    eq_usize_list(&a.binders, &b.binders) && eq_domain_goal(&a.head, &b.head)
        && eq_domain_goal_list(&a.conditions, &b.conditions)
}

/// Structural equality of clause lists.
pub fn eq_clause_list(a: &List<Clause>, b: &List<Clause>) -> (r: bool)
    ensures
        r == (*a == *b),
    decreases *a,
{
    match (a, b) {
        (List::Nil, List::Nil) => true,
        (List::Cons(x, xs), List::Cons(y, ys)) => eq_clause(x, y) && eq_clause_list(xs, ys),
        _ => false,
    }
}

/// Structural equality of goals.
pub fn eq_goal(a: &Goal, b: &Goal) -> (r: bool)
    ensures
        r == (*a == *b),
    decreases *a,
{
    match (a, b) {
        (Goal::Domain(d1), Goal::Domain(d2)) => eq_domain_goal(d1, d2),
        (Goal::And(a1, b1), Goal::And(a2, b2)) => eq_goal(a1, a2) && eq_goal(b1, b2),
        (Goal::Implies(c1, b1), Goal::Implies(c2, b2)) => eq_clause_list(c1, c2) && eq_goal(
            b1,
            b2,
        ),
        (Goal::ForAll(v1, b1), Goal::ForAll(v2, b2)) => *v1 == *v2 && eq_goal(b1, b2),
        (Goal::Exists(v1, b1), Goal::Exists(v2, b2)) => *v1 == *v2 && eq_goal(b1, b2),
        _ => false,
    }
}

/// A fresh copy of a term.
pub fn clone_ty(t: &Ty) -> (r: Ty)
    ensures
        r == *t,
    decreases *t,
{
    match t {
        Ty::Var(v) => Ty::Var(*v),
        Ty::Bound(b) => Ty::Bound(*b),
        Ty::App { ctor, args } => Ty::App { ctor: *ctor, args: Box::new(clone_ty_list(args)) },
    }
}

/// A fresh copy of a term list.
pub fn clone_ty_list(l: &List<Ty>) -> (r: List<Ty>)
    ensures
        r == *l,
    decreases *l,
{
    match l {
        List::Nil => List::Nil,
        List::Cons(t, rest) => List::Cons(clone_ty(t), Box::new(clone_ty_list(rest))),
    }
}

/// A fresh copy of an interface reference.
pub fn clone_trait_ref(t: &TraitRef) -> (r: TraitRef)
    ensures
        r == *t,
{
    TraitRef { trait_id: t.trait_id, args: clone_ty_list(&t.args) }
}

/// A fresh copy of a domain goal.
pub fn clone_domain_goal(d: &DomainGoal) -> (r: DomainGoal)
    ensures
        r == *d,
{
    match d {
        DomainGoal::Implemented(tr) => DomainGoal::Implemented(clone_trait_ref(tr)),
        DomainGoal::WellFormed(tr) => DomainGoal::WellFormed(clone_trait_ref(tr)),
        DomainGoal::TermsEq { a, b } => DomainGoal::TermsEq { a: clone_ty(a), b: clone_ty(b) },
    }
}

/// A fresh copy of a domain-goal list.
pub fn clone_domain_goal_list(l: &List<DomainGoal>) -> (r: List<DomainGoal>)
    ensures
        r == *l,
    decreases *l,
{
    match l {
        List::Nil => List::Nil,
        List::Cons(d, rest) => List::Cons(clone_domain_goal(d), Box::new(clone_domain_goal_list(rest))),
    }
}

/// A fresh copy of a binder list.
pub fn clone_usize_list(l: &List<usize>) -> (r: List<usize>)
    ensures
        r == *l,
    decreases *l,
{
    match l {
        List::Nil => List::Nil,
        List::Cons(v, rest) => List::Cons(*v, Box::new(clone_usize_list(rest))),
    }
}

/// A fresh copy of a clause.
pub fn clone_clause(c: &Clause) -> (r: Clause)
    ensures
        r == *c,
{
    Clause {
        binders: clone_usize_list(&c.binders),
        head: clone_domain_goal(&c.head),
        conditions: clone_domain_goal_list(&c.conditions),
    }
}

/// A fresh copy of a clause list.
pub fn clone_clause_list(l: &List<Clause>) -> (r: List<Clause>)
    ensures
        r == *l,
    decreases *l,
{
    match l {
        List::Nil => List::Nil,
        List::Cons(c, rest) => List::Cons(clone_clause(c), Box::new(clone_clause_list(rest))),
    }
}

/// A fresh copy of a substitution.
pub fn clone_subst(s: &Vec<Option<Ty>>) -> (r: Vec<Option<Ty>>)
    ensures
        r@ == s@,
{
    let mut out: Vec<Option<Ty>> = Vec::new();
    let mut i: usize = 0;
    while i < s.len()
        invariant
            i <= s.len(),
            out@ =~= s@.subrange(0, i as int),
        decreases s.len() - i,
    {
        match &s[i] {
            Some(t) => out.push(Some(clone_ty(t))),
            None => out.push(None),
        }
        i = i + 1;
    }
    proof {
        assert(out@ =~= s@);
    }
    out
}

} // verus!
