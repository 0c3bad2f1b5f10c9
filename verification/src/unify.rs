//! Unification of terms under a substitution.
//!
//! Unification walks two terms structurally: matching constructors unify
//! argument-wise, a variable resolves to its bound term, and an unbound
//! variable is bound — unless the binding would make the variable contain
//! itself, in which case there is no unifier. "No unifier" is an expected,
//! branch-pruning outcome of proof search, not an error.
//!
//! The recursion is budgeted by a fuel that the entry points compute from the
//! sizes of the two terms; under a well-formed substitution the budget is
//! never the reason a unifier is missed (`lemma_unify_complete`).
//!
//! A deliberate deviation: terms here are finite trees, so this unifier runs
//! a full occurs check and returns "no unifier" for any self-referential
//! binding — including the regular (cyclic-but-guarded) bindings that an
//! engine over rational term graphs would admit and flag to its caller as
//! residual well-formedness subgoals. Such goals fail here instead of
//! producing residual obligations, which is also why a unique solution never
//! carries residual constraints.

use vstd::prelude::*;

use crate::ir::DomainGoal;
use crate::ir::List;
use crate::ir::Ty;
use crate::ir::clone_ty;
use crate::ir::ty_closed;
use crate::ir::ty_list_closed;
use crate::ir::ty_list_size;
use crate::ir::ty_size;
use crate::subst::apply;
use crate::subst::bind;
use crate::subst::occurs;
use crate::subst::sp_apply;
use crate::subst::sp_apply_list;
use crate::subst::sp_bind;
use crate::subst::subst_get;
use crate::subst::subst_wf;
use crate::subst::ty_list_resolved;
use crate::subst::ty_occurs;
use crate::subst::ty_resolved;

verus! {

/// The sum of two counters, saturating at `usize::MAX`.
pub open spec fn sp_add_cap(a: usize, b: usize) -> usize {
    if a + b > usize::MAX {
        usize::MAX
    } else {
        (a + b) as usize
    }
}

/// The size of a term, saturating at `usize::MAX`.
pub open spec fn sp_ty_size_cap(t: Ty) -> usize
    decreases t,
{
    match t {
        Ty::Var(_) => 1,
        Ty::Bound(_) => 1,
        Ty::App { ctor: _, args } => sp_add_cap(1, sp_ty_list_size_cap(*args)),
    }
}

/// The size of a term list, saturating at `usize::MAX`.
pub open spec fn sp_ty_list_size_cap(l: List<Ty>) -> usize
    decreases l,
{
    match l {
        List::Nil => 0,
        List::Cons(t, rest) => sp_add_cap(
            1,
            sp_add_cap(sp_ty_size_cap(t), sp_ty_list_size_cap(*rest)),
        ),
    }
}

/// The view of an optional substitution.
pub open spec fn opt_view(r: Option<Vec<Option<Ty>>>) -> Option<Seq<Option<Ty>>> {
    match r {
        None => None,
        Some(v) => Some(v@),
    }
}

/// One unification step on a pair of terms, budgeted by `fuel`.
pub open spec fn sp_unify_step(fuel: nat, s: Seq<Option<Ty>>, a: Ty, b: Ty) -> Option<
    Seq<Option<Ty>>,
>
    decreases fuel, ty_size(a) + ty_size(b), 0nat,
{
    match (a, b) {
        (Ty::Bound(_), _) => None,
        (_, Ty::Bound(_)) => None,
        (Ty::Var(x), Ty::Var(y)) => match (subst_get(s, x), subst_get(s, y)) {
            (Some(u), _) => if fuel == 0 {
                None
            } else {
                sp_unify_step((fuel - 1) as nat, s, u, Ty::Var(y))
            },
            (None, Some(w)) => if fuel == 0 {
                None
            } else {
                sp_unify_step((fuel - 1) as nat, s, Ty::Var(x), w)
            },
            (None, None) => if x == y {
                Some(s)
            } else {
                Some(sp_bind(s, x, Ty::Var(y)))
            },
        },
        (Ty::Var(x), Ty::App { ctor, args }) => match subst_get(s, x) {
            Some(u) => if fuel == 0 {
                None
            } else {
                sp_unify_step((fuel - 1) as nat, s, u, Ty::App { ctor, args })
            },
            None => {
                let t = sp_apply(s, Ty::App { ctor, args });
                if ty_occurs(x, t) {
                    None
                } else {
                    Some(sp_bind(s, x, t))
                }
            },
        },
        (Ty::App { ctor, args }, Ty::Var(y)) => match subst_get(s, y) {
            Some(w) => if fuel == 0 {
                None
            } else {
                sp_unify_step((fuel - 1) as nat, s, Ty::App { ctor, args }, w)
            },
            None => {
                let t = sp_apply(s, Ty::App { ctor, args });
                if ty_occurs(y, t) {
                    None
                } else {
                    Some(sp_bind(s, y, t))
                }
            },
        },
        (Ty::App { ctor: c1, args: a1 }, Ty::App { ctor: c2, args: a2 }) => if c1 == c2 {
            sp_unify_list(fuel, s, *a1, *a2)
        } else {
            None
        },
    }
}

/// Argument-wise unification of two term lists, threading the substitution.
pub open spec fn sp_unify_list(fuel: nat, s: Seq<Option<Ty>>, xs: List<Ty>, ys: List<Ty>) -> Option<
    Seq<Option<Ty>>,
>
    decreases fuel, ty_list_size(xs) + ty_list_size(ys), 1nat,
{
    match (xs, ys) {
        (List::Nil, List::Nil) => Some(s),
        (List::Cons(x, xt), List::Cons(y, yt)) => match sp_unify_step(fuel, s, x, y) {
            None => None,
            Some(s1) => sp_unify_list(fuel, s1, *xt, *yt),
        },
        _ => None,
    }
}

/// The fuel budget for unifying two terms.
pub open spec fn unify_fuel(a: Ty, b: Ty) -> usize {
    sp_add_cap(sp_ty_size_cap(a), sp_ty_size_cap(b))
}

/// The unifier of two terms under a substitution, or `None`.
pub open spec fn sp_unify(s: Seq<Option<Ty>>, a: Ty, b: Ty) -> Option<Seq<Option<Ty>>> {
    sp_unify_step(unify_fuel(a, b) as nat, s, a, b)
}

/// The unifier of two argument lists under a substitution, or `None`.
pub open spec fn sp_unify_args(s: Seq<Option<Ty>>, xs: List<Ty>, ys: List<Ty>) -> Option<
    Seq<Option<Ty>>,
> {
    sp_unify_list(
        sp_add_cap(sp_ty_list_size_cap(xs), sp_ty_list_size_cap(ys)) as nat,
        s,
        xs,
        ys,
    )
}

/// The unifier of two domain goals: same shape, argument-wise on the terms.
pub open spec fn sp_unify_domain_goal(s: Seq<Option<Ty>>, d1: DomainGoal, d2: DomainGoal) -> Option<
    Seq<Option<Ty>>,
> {
    match (d1, d2) {
        (DomainGoal::Implemented(t1), DomainGoal::Implemented(t2)) => if t1.trait_id
            == t2.trait_id {
            sp_unify_args(s, t1.args, t2.args)
        } else {
            None
        },
        (DomainGoal::WellFormed(t1), DomainGoal::WellFormed(t2)) => if t1.trait_id == t2.trait_id {
            sp_unify_args(s, t1.args, t2.args)
        } else {
            None
        },
        (DomainGoal::TermsEq { a: a1, b: b1 }, DomainGoal::TermsEq { a: a2, b: b2 }) => match
            sp_unify(s, a1, a2) {
            None => None,
            Some(s1) => sp_unify(s1, b1, b2),
        },
        _ => None,
    }
}

/// Saturating add.
pub fn add_cap(a: usize, b: usize) -> (r: usize)
    ensures
        r == sp_add_cap(a, b),
{
    if a > usize::MAX - b {
        usize::MAX
    } else {
        a + b
    }
}

/// Executable saturating term size.
pub fn ty_size_cap(t: &Ty) -> (r: usize)
    ensures
        r == sp_ty_size_cap(*t),
    decreases *t,
{
    match t {
        Ty::Var(_) => 1,
        Ty::Bound(_) => 1,
        Ty::App { ctor: _, args } => {
            let n: usize = ty_list_size_cap(args);
            add_cap(1, n)
        },
    }
}

/// Executable saturating term-list size.
pub fn ty_list_size_cap(l: &List<Ty>) -> (r: usize)
    ensures
        r == sp_ty_list_size_cap(*l),
    decreases *l,
{
    match l {
        List::Nil => 0,
        List::Cons(t, rest) => {
            let a: usize = ty_size_cap(t);
            let b: usize = ty_list_size_cap(rest);
            add_cap(1, add_cap(a, b))
        },
    }
}

/// Executable unification step.
pub fn unify_step(fuel: usize, s: Vec<Option<Ty>>, a: &Ty, b: &Ty) -> (r: Option<Vec<Option<Ty>>>)
    ensures
        opt_view(r) == sp_unify_step(fuel as nat, s@, *a, *b),
    decreases fuel, ty_size(*a) + ty_size(*b), 0nat,
{
    match (a, b) {
        (Ty::Bound(_), _) => None,
        (_, Ty::Bound(_)) => None,
        (Ty::Var(x), Ty::Var(y)) => {
            let xv: Option<Ty> = if *x < s.len() {
                match &s[*x] {
                    Some(u) => Some(clone_ty(u)),
                    None => None,
                }
            } else {
                None
            };
            proof {
                assert(xv == subst_get(s@, *x));
            }
            match xv {
                Some(u) => {
                    if fuel == 0 {
                        None
                    } else {
                        unify_step(fuel - 1, s, &u, b)
                    }
                },
                None => {
                    let yv: Option<Ty> = if *y < s.len() {
                        match &s[*y] {
                            Some(w) => Some(clone_ty(w)),
                            None => None,
                        }
                    } else {
                        None
                    };
                    proof {
                        assert(yv == subst_get(s@, *y));
                    }
                    match yv {
                        Some(w) => {
                            if fuel == 0 {
                                None
                            } else {
                                unify_step(fuel - 1, s, a, &w)
                            }
                        },
                        None => {
                            if *x == *y {
                                Some(s)
                            } else {
                                Some(bind(s, *x, Ty::Var(*y)))
                            }
                        },
                    }
                },
            }
        },
        (Ty::Var(x), Ty::App { ctor: _, args: _ }) => {
            let xv: Option<Ty> = if *x < s.len() {
                match &s[*x] {
                    Some(u) => Some(clone_ty(u)),
                    None => None,
                }
            } else {
                None
            };
            proof {
                assert(xv == subst_get(s@, *x));
            }
            match xv {
                Some(u) => {
                    if fuel == 0 {
                        None
                    } else {
                        unify_step(fuel - 1, s, &u, b)
                    }
                },
                None => {
                    let t: Ty = apply(&s, b);
                    if occurs(*x, &t) {
                        None
                    } else {
                        Some(bind(s, *x, t))
                    }
                },
            }
        },
        (Ty::App { ctor: _, args: _ }, Ty::Var(y)) => {
            let yv: Option<Ty> = if *y < s.len() {
                match &s[*y] {
                    Some(w) => Some(clone_ty(w)),
                    None => None,
                }
            } else {
                None
            };
            proof {
                assert(yv == subst_get(s@, *y));
            }
            match yv {
                Some(w) => {
                    if fuel == 0 {
                        None
                    } else {
                        unify_step(fuel - 1, s, a, &w)
                    }
                },
                None => {
                    let t: Ty = apply(&s, a);
                    if occurs(*y, &t) {
                        None
                    } else {
                        Some(bind(s, *y, t))
                    }
                },
            }
        },
        (Ty::App { ctor: c1, args: a1 }, Ty::App { ctor: c2, args: a2 }) => {
            if *c1 == *c2 {
                unify_list(fuel, s, a1, a2)
            } else {
                None
            }
        },
    }
}

/// Executable argument-wise unification of term lists.
pub fn unify_list(fuel: usize, s: Vec<Option<Ty>>, xs: &List<Ty>, ys: &List<Ty>) -> (r: Option<
    Vec<Option<Ty>>,
>)
    ensures
        opt_view(r) == sp_unify_list(fuel as nat, s@, *xs, *ys),
    decreases fuel, ty_list_size(*xs) + ty_list_size(*ys), 1nat,
{
    match (xs, ys) {
        (List::Nil, List::Nil) => Some(s),
        (List::Cons(x, xt), List::Cons(y, yt)) => match unify_step(fuel, s, x, y) {
            None => None,
            Some(s1) => unify_list(fuel, s1, xt, yt),
        },
        _ => None,
    }
}

/// Executable unification of two terms; the entry point of the unifier.
pub fn unify(s: Vec<Option<Ty>>, a: &Ty, b: &Ty) -> (r: Option<Vec<Option<Ty>>>)
    ensures
        opt_view(r) == sp_unify(s@, *a, *b),
{
    let fa: usize = ty_size_cap(a);
    let fb: usize = ty_size_cap(b);
    unify_step(add_cap(fa, fb), s, a, b)
}

/// Executable unification of two argument lists.
pub fn unify_args(s: Vec<Option<Ty>>, xs: &List<Ty>, ys: &List<Ty>) -> (r: Option<Vec<Option<Ty>>>)
    ensures
        opt_view(r) == sp_unify_args(s@, *xs, *ys),
{
    let fa: usize = ty_list_size_cap(xs);
    let fb: usize = ty_list_size_cap(ys);
    unify_list(add_cap(fa, fb), s, xs, ys)
}

/// Executable unification of two domain goals.
pub fn unify_domain_goal(s: Vec<Option<Ty>>, d1: &DomainGoal, d2: &DomainGoal) -> (r: Option<
    Vec<Option<Ty>>,
>)
    ensures
        opt_view(r) == sp_unify_domain_goal(s@, *d1, *d2),
{
    match (d1, d2) {
        (DomainGoal::Implemented(t1), DomainGoal::Implemented(t2)) => {
            if t1.trait_id == t2.trait_id {
                unify_args(s, &t1.args, &t2.args)
            } else {
                None
            }
        },
        (DomainGoal::WellFormed(t1), DomainGoal::WellFormed(t2)) => {
            if t1.trait_id == t2.trait_id {
                unify_args(s, &t1.args, &t2.args)
            } else {
                None
            }
        },
        (DomainGoal::TermsEq { a: a1, b: b1 }, DomainGoal::TermsEq { a: a2, b: b2 }) => {
            match unify(s, a1, a2) {
                None => None,
                Some(s1) => unify(s1, b1, b2),
            }
        },
        _ => None,
    }
}

/// A term equal to its own application is resolved.
pub proof fn lemma_apply_fixed_resolved(s: Seq<Option<Ty>>, t: Ty)
    requires
        subst_wf(s),
        sp_apply(s, t) == t,
    ensures
        ty_resolved(s, t),
    decreases t,
{
    match t {
        Ty::Var(v) => {
            if let Some(u) = subst_get(s, v) {
                assert(u == Ty::Var(v));
                assert(ty_resolved(s, u));
            }
        },
        Ty::Bound(_) => {},
        Ty::App { ctor: _, args } => {
            lemma_apply_fixed_resolved_list(s, *args);
        },
    }
}

/// A term list equal to its own application is resolved.
pub proof fn lemma_apply_fixed_resolved_list(s: Seq<Option<Ty>>, l: List<Ty>)
    requires
        subst_wf(s),
        sp_apply_list(s, l) == l,
    ensures
        ty_list_resolved(s, l),
    decreases l,
{
    match l {
        List::Nil => {},
        List::Cons(t, rest) => {
            lemma_apply_fixed_resolved(s, t);
            lemma_apply_fixed_resolved_list(s, *rest);
        },
    }
}

/// Unifying a resolved closed term with itself changes nothing, whatever the
/// fuel.
pub proof fn lemma_unify_refl(fuel: nat, s: Seq<Option<Ty>>, t: Ty)
    requires
        ty_resolved(s, t),
        ty_closed(t),
    ensures
        sp_unify_step(fuel, s, t, t) == Some(s),
    decreases t,
{
    match t {
        Ty::Var(_) => {},
        Ty::Bound(_) => {},
        Ty::App { ctor: _, args } => {
            lemma_unify_refl_list(fuel, s, *args);
        },
    }
}

/// Argument-wise reflexive unification of a resolved closed list.
pub proof fn lemma_unify_refl_list(fuel: nat, s: Seq<Option<Ty>>, l: List<Ty>)
    requires
        ty_list_resolved(s, l),
        ty_list_closed(l),
    ensures
        sp_unify_list(fuel, s, l, l) == Some(s),
    decreases l,
{
    match l {
        List::Nil => {},
        List::Cons(t, rest) => {
            lemma_unify_refl(fuel, s, t);
            lemma_unify_refl_list(fuel, s, *rest);
        },
    }
}

/// Completeness on already-equal terms: when the two terms have the same
/// value under a well-formed substitution, and the first is that value,
/// unification succeeds and adds nothing — given fuel at least the size of
/// the second term.
pub proof fn lemma_unify_complete(fuel: nat, s: Seq<Option<Ty>>, a: Ty, b: Ty)
    requires
        subst_wf(s),
        ty_closed(a),
        ty_closed(b),
        sp_apply(s, a) == a,
        sp_apply(s, a) == sp_apply(s, b),
        fuel >= ty_size(b),
    ensures
        sp_unify_step(fuel, s, a, b) == Some(s),
    decreases ty_size(b),
{
    lemma_apply_fixed_resolved(s, a);
    match b {
        Ty::Bound(_) => {},
        Ty::Var(y) => {
            match subst_get(s, y) {
                Some(w) => {
                    assert(sp_apply(s, b) == w);
                    assert(a == w);
                    match a {
                        Ty::Var(x) => {
                            assert(subst_get(s, x) is None);
                            lemma_unify_refl((fuel - 1) as nat, s, a);
                        },
                        Ty::Bound(_) => {},
                        Ty::App { ctor: _, args: _ } => {
                            lemma_unify_refl((fuel - 1) as nat, s, a);
                        },
                    }
                },
                None => {
                    assert(sp_apply(s, b) == Ty::Var(y));
                    assert(a == Ty::Var(y));
                },
            }
        },
        Ty::App { ctor: cb, args: ab } => {
            assert(sp_apply(s, b) == Ty::App { ctor: cb, args: Box::new(sp_apply_list(s, *ab)) });
            match a {
                Ty::Var(x) => {
                    assert(false);
                },
                Ty::Bound(_) => {},
                Ty::App { ctor: ca, args: aa } => {
                    assert(ca == cb);
                    assert(*aa == sp_apply_list(s, *ab));
                    assert(sp_apply_list(s, *aa) == *aa);
                    lemma_unify_complete_list(fuel, s, *aa, *ab);
                },
            }
        },
    }
}

/// Argument-wise form of `lemma_unify_complete`.
pub proof fn lemma_unify_complete_list(fuel: nat, s: Seq<Option<Ty>>, xs: List<Ty>, ys: List<Ty>)
    requires
        subst_wf(s),
        ty_list_closed(xs),
        ty_list_closed(ys),
        sp_apply_list(s, xs) == xs,
        sp_apply_list(s, xs) == sp_apply_list(s, ys),
        fuel >= ty_list_size(ys),
    ensures
        sp_unify_list(fuel, s, xs, ys) == Some(s),
    decreases ty_list_size(ys),
{
    match ys {
        List::Nil => {
            assert(sp_apply_list(s, ys) == List::<Ty>::Nil);
        },
        List::Cons(y, yt) => {
            match xs {
                List::Nil => {
                    assert(false);
                },
                List::Cons(x, xt) => {
                    assert(x == sp_apply(s, y));
                    assert(sp_apply(s, x) == x);
                    lemma_unify_complete(fuel, s, x, y);
                    lemma_unify_complete_list(fuel, s, *xt, *yt);
                },
            }
        },
    }
}

/// A term resolved before a binding, and free of the bound variable, is still
/// resolved after it.
pub proof fn lemma_resolved_after_bind(s: Seq<Option<Ty>>, x: usize, t: Ty, w: Ty)
    requires
        ty_resolved(s, w),
        !ty_occurs(x, w),
    ensures
        ty_resolved(sp_bind(s, x, t), w),
    decreases w,
{
    match w {
        Ty::Var(_) => {},
        Ty::Bound(_) => {},
        Ty::App { ctor: _, args } => {
            lemma_resolved_after_bind_list(s, x, t, *args);
        },
    }
}

/// List form of `lemma_resolved_after_bind`.
pub proof fn lemma_resolved_after_bind_list(s: Seq<Option<Ty>>, x: usize, t: Ty, l: List<Ty>)
    requires
        ty_list_resolved(s, l),
        !crate::subst::ty_list_occurs(x, l),
    ensures
        ty_list_resolved(sp_bind(s, x, t), l),
    decreases l,
{
    match l {
        List::Nil => {},
        List::Cons(w, rest) => {
            lemma_resolved_after_bind(s, x, t, w);
            lemma_resolved_after_bind_list(s, x, t, *rest);
        },
    }
}

/// Rewriting a stored term through a binding keeps it closed and resolved.
pub proof fn lemma_replace_bind_term(s: Seq<Option<Ty>>, x: usize, t: Ty, u: Ty)
    requires
        ty_closed(u),
        ty_resolved(s, u),
        ty_closed(t),
        ty_resolved(s, t),
        !ty_occurs(x, t),
    ensures
        ty_closed(crate::subst::sp_replace(u, false, x, t)),
        ty_resolved(sp_bind(s, x, t), crate::subst::sp_replace(u, false, x, t)),
    decreases u,
{
    match u {
        Ty::Var(v) => {
            if v == x {
                lemma_resolved_after_bind(s, x, t, t);
            }
        },
        Ty::Bound(_) => {},
        Ty::App { ctor: _, args } => {
            lemma_replace_bind_term_list(s, x, t, *args);
        },
    }
}

/// List form of `lemma_replace_bind_term`.
pub proof fn lemma_replace_bind_term_list(s: Seq<Option<Ty>>, x: usize, t: Ty, l: List<Ty>)
    requires
        ty_list_closed(l),
        ty_list_resolved(s, l),
        ty_closed(t),
        ty_resolved(s, t),
        !ty_occurs(x, t),
    ensures
        ty_list_closed(crate::subst::sp_replace_list(l, false, x, t)),
        ty_list_resolved(sp_bind(s, x, t), crate::subst::sp_replace_list(l, false, x, t)),
    decreases l,
{
    match l {
        List::Nil => {},
        List::Cons(u, rest) => {
            lemma_replace_bind_term(s, x, t, u);
            lemma_replace_bind_term_list(s, x, t, *rest);
        },
    }
}

/// Binding a variable to a closed, resolved term that does not contain it
/// keeps the substitution well-formed.
pub proof fn lemma_bind_wf(s: Seq<Option<Ty>>, x: usize, t: Ty)
    requires
        subst_wf(s),
        ty_closed(t),
        ty_resolved(s, t),
        !ty_occurs(x, t),
    ensures
        subst_wf(sp_bind(s, x, t)),
        sp_bind(s, x, t).len() == s.len(),
{
    let s2 = sp_bind(s, x, t);
    assert forall|v: int|
        0 <= v < s2.len() implies ((#[trigger] s2[v]) matches Some(u) ==> ty_closed(u)
        && ty_resolved(s2, u)) by {
        if v == x {
            lemma_resolved_after_bind(s, x, t, t);
        } else {
            if let Some(u) = s[v] {
                lemma_replace_bind_term(s, x, t, u);
            }
        }
    }
}

/// Unification keeps a well-formed substitution well-formed, and never
/// changes its length.
pub proof fn lemma_unify_wf(fuel: nat, s: Seq<Option<Ty>>, a: Ty, b: Ty)
    requires
        subst_wf(s),
        ty_closed(a),
        ty_closed(b),
    ensures
        sp_unify_step(fuel, s, a, b) matches Some(s2) ==> subst_wf(s2) && s2.len() == s.len(),
    decreases fuel, ty_size(a) + ty_size(b), 0nat,
{
    match (a, b) {
        (Ty::Bound(_), _) => {},
        (_, Ty::Bound(_)) => {},
        (Ty::Var(x), Ty::Var(y)) => {
            match (subst_get(s, x), subst_get(s, y)) {
                (Some(u), _) => {
                    if fuel > 0 {
                        lemma_unify_wf((fuel - 1) as nat, s, u, b);
                    }
                },
                (None, Some(w)) => {
                    if fuel > 0 {
                        lemma_unify_wf((fuel - 1) as nat, s, a, w);
                    }
                },
                (None, None) => {
                    if x != y {
                        lemma_bind_wf(s, x, Ty::Var(y));
                    }
                },
            }
        },
        (Ty::Var(x), Ty::App { ctor, args }) => {
            match subst_get(s, x) {
                Some(u) => {
                    if fuel > 0 {
                        lemma_unify_wf((fuel - 1) as nat, s, u, b);
                    }
                },
                None => {
                    let t = sp_apply(s, b);
                    crate::subst::lemma_apply_closed(s, b);
                    crate::subst::lemma_apply_resolved(s, b);
                    if !ty_occurs(x, t) {
                        lemma_bind_wf(s, x, t);
                    }
                },
            }
        },
        (Ty::App { ctor, args }, Ty::Var(y)) => {
            match subst_get(s, y) {
                Some(w) => {
                    if fuel > 0 {
                        lemma_unify_wf((fuel - 1) as nat, s, a, w);
                    }
                },
                None => {
                    let t = sp_apply(s, a);
                    crate::subst::lemma_apply_closed(s, a);
                    crate::subst::lemma_apply_resolved(s, a);
                    if !ty_occurs(y, t) {
                        lemma_bind_wf(s, y, t);
                    }
                },
            }
        },
        (Ty::App { ctor: c1, args: a1 }, Ty::App { ctor: c2, args: a2 }) => {
            if c1 == c2 {
                lemma_unify_list_wf(fuel, s, *a1, *a2);
            }
        },
    }
}

/// List form of `lemma_unify_wf`.
pub proof fn lemma_unify_list_wf(fuel: nat, s: Seq<Option<Ty>>, xs: List<Ty>, ys: List<Ty>)
    requires
        subst_wf(s),
        ty_list_closed(xs),
        ty_list_closed(ys),
    ensures
        sp_unify_list(fuel, s, xs, ys) matches Some(s2) ==> subst_wf(s2) && s2.len() == s.len(),
    decreases fuel, ty_list_size(xs) + ty_list_size(ys), 1nat,
{
    match (xs, ys) {
        (List::Cons(x, xt), List::Cons(y, yt)) => {
            lemma_unify_wf(fuel, s, x, y);
            if let Some(s1) = sp_unify_step(fuel, s, x, y) {
                lemma_unify_list_wf(fuel, s1, *xt, *yt);
            }
        },
        _ => {},
    }
}

/// The saturating size is the size, up to the machine cap.
pub proof fn lemma_size_cap_exact(t: Ty)
    ensures
        ty_size(t) <= usize::MAX ==> sp_ty_size_cap(t) == ty_size(t),
        ty_size(t) > usize::MAX ==> sp_ty_size_cap(t) == usize::MAX,
    decreases t,
{
    match t {
        Ty::Var(_) => {},
        Ty::Bound(_) => {},
        Ty::App { ctor: _, args } => {
            lemma_size_cap_exact_list(*args);
        },
    }
}

/// The saturating list size is the list size, up to the machine cap.
pub proof fn lemma_size_cap_exact_list(l: List<Ty>)
    ensures
        ty_list_size(l) <= usize::MAX ==> sp_ty_list_size_cap(l) == ty_list_size(l),
        ty_list_size(l) > usize::MAX ==> sp_ty_list_size_cap(l) == usize::MAX,
    decreases l,
{
    match l {
        List::Nil => {},
        List::Cons(t, rest) => {
            lemma_size_cap_exact(t);
            lemma_size_cap_exact_list(*rest);
        },
    }
}

} // verus!
