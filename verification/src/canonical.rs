//! Canonicalization: renaming the free variables of a goal by first
//! occurrence in a fixed traversal, so that alpha-equivalent goals share one
//! key. The canonical form is the key of the recursive solver's answer cache,
//! of its in-flight goal stack, and of the tabling solver's tables.

use vstd::prelude::*;

use crate::ir::Clause;
use crate::ir::DomainGoal;
use crate::ir::Goal;
use crate::ir::List;
use crate::ir::TraitRef;
use crate::ir::Ty;
use crate::ir::ty_list_size;
use crate::ir::ty_size;

verus! {

/// The first position of `v` in the renaming map, if any.
pub open spec fn sp_index_of(m: Seq<usize>, v: usize) -> Option<int>
    decreases m.len(),
{
    if m.len() == 0 {
        None
    } else if m[0] == v {
        Some(0)
    } else {
        match sp_index_of(m.drop_first(), v) {
            None => None,
            Some(i) => Some(i + 1),
        }
    }
}

/// The identity renaming map of length `n`.
pub open spec fn idseq(n: nat) -> Seq<usize> {
    Seq::new(n, |i: int| i as usize)
}

/// Canonical renaming of a term under a map of the original ids seen so far,
/// in first-occurrence order.
pub open spec fn sp_canon_ty(t: Ty, m: Seq<usize>) -> (Ty, Seq<usize>)
    decreases t,
{
    match t {
        Ty::Var(v) => match sp_index_of(m, v) {
            Some(i) => (Ty::Var(i as usize), m),
            None => (Ty::Var(m.len() as usize), m.push(v)),
        },
        Ty::Bound(b) => (Ty::Bound(b), m),
        Ty::App { ctor, args } => {
            let (args1, m1) = sp_canon_ty_list(*args, m);
            (Ty::App { ctor, args: Box::new(args1) }, m1)
        },
    }
}

/// Canonical renaming threaded through a term list.
pub open spec fn sp_canon_ty_list(l: List<Ty>, m: Seq<usize>) -> (List<Ty>, Seq<usize>)
    decreases l,
{
    match l {
        List::Nil => (List::Nil, m),
        List::Cons(t, rest) => {
            let (t1, m1) = sp_canon_ty(t, m);
            let (rest1, m2) = sp_canon_ty_list(*rest, m1);
            (List::Cons(t1, Box::new(rest1)), m2)
        },
    }
}

/// Canonical renaming of an interface reference.
pub open spec fn sp_canon_trait_ref(tr: TraitRef, m: Seq<usize>) -> (TraitRef, Seq<usize>) {
    let (args1, m1) = sp_canon_ty_list(tr.args, m);
    (TraitRef { trait_id: tr.trait_id, args: args1 }, m1)
}

/// Canonical renaming of a domain goal.
pub open spec fn sp_canon_domain_goal(d: DomainGoal, m: Seq<usize>) -> (DomainGoal, Seq<usize>) {
    match d {
        DomainGoal::Implemented(tr) => {
            let (tr1, m1) = sp_canon_trait_ref(tr, m);
            (DomainGoal::Implemented(tr1), m1)
        },
        DomainGoal::WellFormed(tr) => {
            let (tr1, m1) = sp_canon_trait_ref(tr, m);
            (DomainGoal::WellFormed(tr1), m1)
        },
        DomainGoal::TermsEq { a, b } => {
            let (a1, m1) = sp_canon_ty(a, m);
            let (b1, m2) = sp_canon_ty(b, m1);
            (DomainGoal::TermsEq { a: a1, b: b1 }, m2)
        },
    }
}

/// Canonical renaming threaded through a list of domain goals.
pub open spec fn sp_canon_domain_goal_list(l: List<DomainGoal>, m: Seq<usize>) -> (
    List<DomainGoal>,
    Seq<usize>,
)
    decreases l,
{
    match l {
        List::Nil => (List::Nil, m),
        List::Cons(d, rest) => {
            let (d1, m1) = sp_canon_domain_goal(d, m);
            let (rest1, m2) = sp_canon_domain_goal_list(*rest, m1);
            (List::Cons(d1, Box::new(rest1)), m2)
        },
    }
}

/// Canonical renaming of a clause; the clause's own binders are not free
/// variables and stay as they are.
pub open spec fn sp_canon_clause(c: Clause, m: Seq<usize>) -> (Clause, Seq<usize>) {
    let (h1, m1) = sp_canon_domain_goal(c.head, m);
    let (cs1, m2) = sp_canon_domain_goal_list(c.conditions, m1);
    (Clause { binders: c.binders, head: h1, conditions: cs1 }, m2)
}

/// Canonical renaming threaded through a list of clauses.
pub open spec fn sp_canon_clause_list(l: List<Clause>, m: Seq<usize>) -> (List<Clause>, Seq<usize>)
    decreases l,
{
    match l {
        List::Nil => (List::Nil, m),
        List::Cons(c, rest) => {
            let (c1, m1) = sp_canon_clause(c, m);
            let (rest1, m2) = sp_canon_clause_list(*rest, m1);
            (List::Cons(c1, Box::new(rest1)), m2)
        },
    }
}

/// Canonical renaming of a goal. With the empty map this is canonicalization:
/// the goal's free variables become `0, 1, 2, ...` in first-occurrence order.
pub open spec fn sp_canon_goal(g: Goal, m: Seq<usize>) -> (Goal, Seq<usize>)
    decreases g,
{
    match g {
        Goal::Domain(d) => {
            let (d1, m1) = sp_canon_domain_goal(d, m);
            (Goal::Domain(d1), m1)
        },
        Goal::And(a, b) => {
            let (a1, m1) = sp_canon_goal(*a, m);
            let (b1, m2) = sp_canon_goal(*b, m1);
            (Goal::And(Box::new(a1), Box::new(b1)), m2)
        },
        Goal::Implies(cs, b) => {
            let (cs1, m1) = sp_canon_clause_list(cs, m);
            let (b1, m2) = sp_canon_goal(*b, m1);
            (Goal::Implies(cs1, Box::new(b1)), m2)
        },
        Goal::ForAll(v, b) => {
            let (b1, m1) = sp_canon_goal(*b, m);
            (Goal::ForAll(v, Box::new(b1)), m1)
        },
        Goal::Exists(v, b) => {
            let (b1, m1) = sp_canon_goal(*b, m);
            (Goal::Exists(v, Box::new(b1)), m1)
        },
    }
}

/// The number of term nodes in a domain goal.
pub open spec fn dg_tm_size(d: DomainGoal) -> nat {
    match d {
        DomainGoal::Implemented(tr) => ty_list_size(tr.args),
        DomainGoal::WellFormed(tr) => ty_list_size(tr.args),
        DomainGoal::TermsEq { a, b } => ty_size(a) + ty_size(b),
    }
}

/// The number of term nodes in a list of domain goals.
pub open spec fn dg_list_tm_size(l: List<DomainGoal>) -> nat
    decreases l,
{
    match l {
        List::Nil => 0,
        List::Cons(d, rest) => dg_tm_size(d) + dg_list_tm_size(*rest),
    }
}

/// The number of term nodes in a clause.
pub open spec fn clause_tm_size(c: Clause) -> nat {
    dg_tm_size(c.head) + dg_list_tm_size(c.conditions)
}

/// The number of term nodes in a list of clauses.
pub open spec fn clause_list_tm_size(l: List<Clause>) -> nat
    decreases l,
{
    match l {
        List::Nil => 0,
        List::Cons(c, rest) => clause_tm_size(c) + clause_list_tm_size(*rest),
    }
}

/// The number of term nodes in a goal; it bounds how many fresh canonical
/// names canonicalization can mint.
pub open spec fn goal_tm_size(g: Goal) -> nat
    decreases g,
{
    match g {
        Goal::Domain(d) => dg_tm_size(d),
        Goal::And(a, b) => goal_tm_size(*a) + goal_tm_size(*b),
        Goal::Implies(cs, b) => clause_list_tm_size(cs) + goal_tm_size(*b),
        Goal::ForAll(_, b) => goal_tm_size(*b),
        Goal::Exists(_, b) => goal_tm_size(*b),
    }
}

/// What `sp_index_of` returns: the first position holding `v`, if any.
pub proof fn lemma_index_of_props(m: Seq<usize>, v: usize)
    ensures
        match sp_index_of(m, v) {
            None => forall|j: int| 0 <= j < m.len() ==> m[j] != v,
            Some(i) => 0 <= i < m.len() && m[i] == v && (forall|j: int| 0 <= j < i ==> m[j] != v),
        },
    decreases m.len(),
{
    if m.len() == 0 {
    } else if m[0] == v {
    } else {
        let rest = m.drop_first();
        lemma_index_of_props(rest, v);
        assert(forall|j: int| 0 <= j < rest.len() ==> rest[j] == m[j + 1]);
        match sp_index_of(rest, v) {
            None => {
                assert forall|j: int| 0 <= j < m.len() implies m[j] != v by {
                    if j > 0 {
                        assert(m[j] == rest[j - 1]);
                    }
                }
            },
            Some(i) => {
                assert(m[i + 1] == rest[i]);
                assert forall|j: int| 0 <= j < i + 1 implies m[j] != v by {
                    if j > 0 {
                        assert(m[j] == rest[j - 1]);
                    }
                }
            },
        }
    }
}

/// On the identity map, a name below the length finds itself.
pub proof fn lemma_index_of_idseq(n: nat, w: usize)
    requires
        n <= usize::MAX,
    ensures
        (w as nat) < n ==> sp_index_of(idseq(n), w) == Some(w as int),
        (w as nat) >= n ==> sp_index_of(idseq(n), w) is None,
{
    lemma_index_of_props(idseq(n), w);
    if (w as nat) < n {
        match sp_index_of(idseq(n), w) {
            None => {
                assert(idseq(n)[w as int] == w);
                assert(false);
            },
            Some(i) => {
                assert(idseq(n)[i] == (i as usize));
                assert(i == w as int);
            },
        }
    }
}

/// Canonicalizing a canonical term with the identity map is a no-op, and
/// extends the identity map exactly as far as the first pass extended its
/// map.
pub proof fn lemma_canon_idem_ty(t: Ty, m: Seq<usize>)
    requires
        m.len() + ty_size(t) <= usize::MAX,
    ensures
        ({
            let (t1, m1) = sp_canon_ty(t, m);
            m.len() <= m1.len() <= m.len() + ty_size(t) && sp_canon_ty(t1, idseq(m.len())) == (
                t1,
                idseq(m1.len()),
            )
        }),
    decreases t,
{
    let (t1, m1) = sp_canon_ty(t, m);
    match t {
        Ty::Var(v) => {
            lemma_index_of_props(m, v);
            match sp_index_of(m, v) {
                Some(i) => {
                    lemma_index_of_idseq(m.len(), i as usize);
                },
                None => {
                    lemma_index_of_idseq(m.len(), m.len() as usize);
                    assert(idseq(m.len()).push(m.len() as usize) =~= idseq(m.len() + 1));
                },
            }
        },
        Ty::Bound(_) => {},
        Ty::App { ctor: _, args } => {
            lemma_canon_idem_ty_list(*args, m);
        },
    }
}

/// List form of `lemma_canon_idem_ty`.
pub proof fn lemma_canon_idem_ty_list(l: List<Ty>, m: Seq<usize>)
    requires
        m.len() + ty_list_size(l) <= usize::MAX,
    ensures
        ({
            let (l1, m1) = sp_canon_ty_list(l, m);
            m.len() <= m1.len() <= m.len() + ty_list_size(l) && sp_canon_ty_list(
                l1,
                idseq(m.len()),
            ) == (l1, idseq(m1.len()))
        }),
    decreases l,
{
    match l {
        List::Nil => {},
        List::Cons(t, rest) => {
            let (t1, m1) = sp_canon_ty(t, m);
            lemma_canon_idem_ty(t, m);
            lemma_canon_idem_ty_list(*rest, m1);
        },
    }
}

/// Interface-reference form of `lemma_canon_idem_ty`.
pub proof fn lemma_canon_idem_trait_ref(tr: TraitRef, m: Seq<usize>)
    requires
        m.len() + ty_list_size(tr.args) <= usize::MAX,
    ensures
        ({
            let (tr1, m1) = sp_canon_trait_ref(tr, m);
            m.len() <= m1.len() <= m.len() + ty_list_size(tr.args) && sp_canon_trait_ref(
                tr1,
                idseq(m.len()),
            ) == (tr1, idseq(m1.len()))
        }),
{
    lemma_canon_idem_ty_list(tr.args, m);
}

/// Domain-goal form of `lemma_canon_idem_ty`.
pub proof fn lemma_canon_idem_domain_goal(d: DomainGoal, m: Seq<usize>)
    requires
        m.len() + dg_tm_size(d) <= usize::MAX,
    ensures
        ({
            let (d1, m1) = sp_canon_domain_goal(d, m);
            m.len() <= m1.len() <= m.len() + dg_tm_size(d) && sp_canon_domain_goal(
                d1,
                idseq(m.len()),
            ) == (d1, idseq(m1.len()))
        }),
{
    match d {
        DomainGoal::Implemented(tr) => {
            lemma_canon_idem_trait_ref(tr, m);
        },
        DomainGoal::WellFormed(tr) => {
            lemma_canon_idem_trait_ref(tr, m);
        },
        DomainGoal::TermsEq { a, b } => {
            let (a1, m1) = sp_canon_ty(a, m);
            lemma_canon_idem_ty(a, m);
            lemma_canon_idem_ty(b, m1);
        },
    }
}

/// Domain-goal-list form of `lemma_canon_idem_ty`.
pub proof fn lemma_canon_idem_domain_goal_list(l: List<DomainGoal>, m: Seq<usize>)
    requires
        m.len() + dg_list_tm_size(l) <= usize::MAX,
    ensures
        ({
            let (l1, m1) = sp_canon_domain_goal_list(l, m);
            m.len() <= m1.len() <= m.len() + dg_list_tm_size(l) && sp_canon_domain_goal_list(
                l1,
                idseq(m.len()),
            ) == (l1, idseq(m1.len()))
        }),
    decreases l,
{
    match l {
        List::Nil => {},
        List::Cons(d, rest) => {
            let (d1, m1) = sp_canon_domain_goal(d, m);
            lemma_canon_idem_domain_goal(d, m);
            lemma_canon_idem_domain_goal_list(*rest, m1);
        },
    }
}

/// Clause form of `lemma_canon_idem_ty`.
pub proof fn lemma_canon_idem_clause(c: Clause, m: Seq<usize>)
    requires
        m.len() + clause_tm_size(c) <= usize::MAX,
    ensures
        ({
            let (c1, m1) = sp_canon_clause(c, m);
            m.len() <= m1.len() <= m.len() + clause_tm_size(c) && sp_canon_clause(
                c1,
                idseq(m.len()),
            ) == (c1, idseq(m1.len()))
        }),
{
    let (h1, m1) = sp_canon_domain_goal(c.head, m);
    lemma_canon_idem_domain_goal(c.head, m);
    lemma_canon_idem_domain_goal_list(c.conditions, m1);
}

/// Clause-list form of `lemma_canon_idem_ty`.
pub proof fn lemma_canon_idem_clause_list(l: List<Clause>, m: Seq<usize>)
    requires
        m.len() + clause_list_tm_size(l) <= usize::MAX,
    ensures
        ({
            let (l1, m1) = sp_canon_clause_list(l, m);
            m.len() <= m1.len() <= m.len() + clause_list_tm_size(l) && sp_canon_clause_list(
                l1,
                idseq(m.len()),
            ) == (l1, idseq(m1.len()))
        }),
    decreases l,
{
    match l {
        List::Nil => {},
        List::Cons(c, rest) => {
            let (c1, m1) = sp_canon_clause(c, m);
            lemma_canon_idem_clause(c, m);
            lemma_canon_idem_clause_list(*rest, m1);
        },
    }
}

/// Canonicalizing a canonical goal is a no-op: the generalized induction
/// behind the public idempotence law.
pub proof fn lemma_canon_idem_goal(g: Goal, m: Seq<usize>)
    requires
        m.len() + goal_tm_size(g) <= usize::MAX,
    ensures
        ({
            let (g1, m1) = sp_canon_goal(g, m);
            m.len() <= m1.len() <= m.len() + goal_tm_size(g) && sp_canon_goal(
                g1,
                idseq(m.len()),
            ) == (g1, idseq(m1.len()))
        }),
    decreases g,
{
    match g {
        Goal::Domain(d) => {
            lemma_canon_idem_domain_goal(d, m);
        },
        Goal::And(a, b) => {
            let (a1, m1) = sp_canon_goal(*a, m);
            lemma_canon_idem_goal(*a, m);
            lemma_canon_idem_goal(*b, m1);
        },
        Goal::Implies(cs, b) => {
            let (cs1, m1) = sp_canon_clause_list(cs, m);
            lemma_canon_idem_clause_list(cs, m);
            lemma_canon_idem_goal(*b, m1);
        },
        Goal::ForAll(_, b) => {
            lemma_canon_idem_goal(*b, m);
        },
        Goal::Exists(_, b) => {
            lemma_canon_idem_goal(*b, m);
        },
    }
}

/// Renaming of the free variables of a term by an arbitrary function.
pub open spec fn sp_rename_ty(t: Ty, rho: spec_fn(usize) -> usize) -> Ty
    decreases t,
{
    match t {
        Ty::Var(v) => Ty::Var(rho(v)),
        Ty::Bound(b) => Ty::Bound(b),
        Ty::App { ctor, args } => Ty::App { ctor, args: Box::new(sp_rename_ty_list(*args, rho)) },
    }
}

/// Renaming over a term list.
pub open spec fn sp_rename_ty_list(l: List<Ty>, rho: spec_fn(usize) -> usize) -> List<Ty>
    decreases l,
{
    match l {
        List::Nil => List::Nil,
        List::Cons(t, rest) => List::Cons(
            sp_rename_ty(t, rho),
            Box::new(sp_rename_ty_list(*rest, rho)),
        ),
    }
}

/// Renaming over an interface reference.
pub open spec fn sp_rename_trait_ref(tr: TraitRef, rho: spec_fn(usize) -> usize) -> TraitRef {
    TraitRef { trait_id: tr.trait_id, args: sp_rename_ty_list(tr.args, rho) }
}

/// Renaming over a domain goal.
pub open spec fn sp_rename_domain_goal(d: DomainGoal, rho: spec_fn(usize) -> usize) -> DomainGoal {
    match d {
        DomainGoal::Implemented(tr) => DomainGoal::Implemented(sp_rename_trait_ref(tr, rho)),
        DomainGoal::WellFormed(tr) => DomainGoal::WellFormed(sp_rename_trait_ref(tr, rho)),
        DomainGoal::TermsEq { a, b } => DomainGoal::TermsEq {
            a: sp_rename_ty(a, rho),
            b: sp_rename_ty(b, rho),
        },
    }
}

/// Renaming over a list of domain goals.
pub open spec fn sp_rename_domain_goal_list(
    l: List<DomainGoal>,
    rho: spec_fn(usize) -> usize,
) -> List<DomainGoal>
    decreases l,
{
    match l {
        List::Nil => List::Nil,
        List::Cons(d, rest) => List::Cons(
            sp_rename_domain_goal(d, rho),
            Box::new(sp_rename_domain_goal_list(*rest, rho)),
        ),
    }
}

/// Renaming over a clause.
pub open spec fn sp_rename_clause(c: Clause, rho: spec_fn(usize) -> usize) -> Clause {
    Clause {
        binders: c.binders,
        head: sp_rename_domain_goal(c.head, rho),
        conditions: sp_rename_domain_goal_list(c.conditions, rho),
    }
}

/// Renaming over a list of clauses.
pub open spec fn sp_rename_clause_list(l: List<Clause>, rho: spec_fn(usize) -> usize) -> List<
    Clause,
>
    decreases l,
{
    match l {
        List::Nil => List::Nil,
        List::Cons(c, rest) => List::Cons(
            sp_rename_clause(c, rho),
            Box::new(sp_rename_clause_list(*rest, rho)),
        ),
    }
}

/// Renaming over a goal: two goals are alpha-equivalent when one is the other
/// under an injective renaming of its free variables.
pub open spec fn sp_rename_goal(g: Goal, rho: spec_fn(usize) -> usize) -> Goal
    decreases g,
{
    match g {
        Goal::Domain(d) => Goal::Domain(sp_rename_domain_goal(d, rho)),
        Goal::And(a, b) => Goal::And(
            Box::new(sp_rename_goal(*a, rho)),
            Box::new(sp_rename_goal(*b, rho)),
        ),
        Goal::Implies(cs, b) => Goal::Implies(
            sp_rename_clause_list(cs, rho),
            Box::new(sp_rename_goal(*b, rho)),
        ),
        Goal::ForAll(v, b) => Goal::ForAll(v, Box::new(sp_rename_goal(*b, rho))),
        Goal::Exists(v, b) => Goal::Exists(v, Box::new(sp_rename_goal(*b, rho))),
    }
}

/// Injectivity of a renaming.
pub open spec fn sp_injective(rho: spec_fn(usize) -> usize) -> bool {
    forall|x: usize, y: usize| #![trigger rho(x), rho(y)] rho(x) == rho(y) ==> x == y
}

/// Two renaming maps in pointwise image relation.
pub open spec fn map_image(m2: Seq<usize>, m: Seq<usize>, rho: spec_fn(usize) -> usize) -> bool {
    m2.len() == m.len() && forall|i: int| 0 <= i < m.len() ==> m2[i] == rho(#[trigger] m[i])
}

/// An injective renaming moves a name's first position along with the name.
pub proof fn lemma_index_of_rename(m: Seq<usize>, m2: Seq<usize>, rho: spec_fn(usize) -> usize, v: usize)
    requires
        sp_injective(rho),
        map_image(m2, m, rho),
    ensures
        sp_index_of(m2, rho(v)) == sp_index_of(m, v),
{
    lemma_index_of_props(m, v);
    lemma_index_of_props(m2, rho(v));
    match sp_index_of(m, v) {
        None => {
            if let Some(k) = sp_index_of(m2, rho(v)) {
                assert(m2[k] == rho(m[k]));
                assert(m[k] == v);
                assert(false);
            }
        },
        Some(i) => {
            assert(m2[i] == rho(m[i]));
            match sp_index_of(m2, rho(v)) {
                None => {
                    assert(false);
                },
                Some(k) => {
                    assert(m2[k] == rho(m[k]));
                    assert(m[k] == v);
                    if k < i {
                        assert(false);
                    }
                    if i < k {
                        assert(m2[i] != rho(v));
                        assert(false);
                    }
                },
            }
        },
    }
}

/// Canonicalization is invariant under injective renaming: the term level.
pub proof fn lemma_canon_alpha_ty(t: Ty, m: Seq<usize>, m2: Seq<usize>, rho: spec_fn(usize) -> usize)
    requires
        sp_injective(rho),
        map_image(m2, m, rho),
    ensures
        ({
            let (t1, r1) = sp_canon_ty(t, m);
            let (t2, r2) = sp_canon_ty(sp_rename_ty(t, rho), m2);
            t2 == t1 && map_image(r2, r1, rho)
        }),
    decreases t,
{
    match t {
        Ty::Var(v) => {
            lemma_index_of_rename(m, m2, rho, v);
            if sp_index_of(m, v) is None {
                assert(m2.push(rho(v)) =~= m2.push(rho(v)));
            }
        },
        Ty::Bound(_) => {},
        Ty::App { ctor: _, args } => {
            lemma_canon_alpha_ty_list(*args, m, m2, rho);
        },
    }
}

/// List form of `lemma_canon_alpha_ty`.
pub proof fn lemma_canon_alpha_ty_list(
    l: List<Ty>,
    m: Seq<usize>,
    m2: Seq<usize>,
    rho: spec_fn(usize) -> usize,
)
    requires
        sp_injective(rho),
        map_image(m2, m, rho),
    ensures
        ({
            let (l1, r1) = sp_canon_ty_list(l, m);
            let (l2, r2) = sp_canon_ty_list(sp_rename_ty_list(l, rho), m2);
            l2 == l1 && map_image(r2, r1, rho)
        }),
    decreases l,
{
    match l {
        List::Nil => {},
        List::Cons(t, rest) => {
            let (t1, r1) = sp_canon_ty(t, m);
            let (t2, r2) = sp_canon_ty(sp_rename_ty(t, rho), m2);
            lemma_canon_alpha_ty(t, m, m2, rho);
            lemma_canon_alpha_ty_list(*rest, r1, r2, rho);
        },
    }
}

/// Domain-goal form of `lemma_canon_alpha_ty`.
pub proof fn lemma_canon_alpha_domain_goal(
    d: DomainGoal,
    m: Seq<usize>,
    m2: Seq<usize>,
    rho: spec_fn(usize) -> usize,
)
    requires
        sp_injective(rho),
        map_image(m2, m, rho),
    ensures
        ({
            let (d1, r1) = sp_canon_domain_goal(d, m);
            let (d2, r2) = sp_canon_domain_goal(sp_rename_domain_goal(d, rho), m2);
            d2 == d1 && map_image(r2, r1, rho)
        }),
{
    match d {
        DomainGoal::Implemented(tr) => {
            lemma_canon_alpha_ty_list(tr.args, m, m2, rho);
        },
        DomainGoal::WellFormed(tr) => {
            lemma_canon_alpha_ty_list(tr.args, m, m2, rho);
        },
        DomainGoal::TermsEq { a, b } => {
            let (a1, r1) = sp_canon_ty(a, m);
            let (a2, r2) = sp_canon_ty(sp_rename_ty(a, rho), m2);
            lemma_canon_alpha_ty(a, m, m2, rho);
            lemma_canon_alpha_ty(b, r1, r2, rho);
        },
    }
}

/// Domain-goal-list form of `lemma_canon_alpha_ty`.
pub proof fn lemma_canon_alpha_domain_goal_list(
    l: List<DomainGoal>,
    m: Seq<usize>,
    m2: Seq<usize>,
    rho: spec_fn(usize) -> usize,
)
    requires
        sp_injective(rho),
        map_image(m2, m, rho),
    ensures
        ({
            let (l1, r1) = sp_canon_domain_goal_list(l, m);
            let (l2, r2) = sp_canon_domain_goal_list(sp_rename_domain_goal_list(l, rho), m2);
            l2 == l1 && map_image(r2, r1, rho)
        }),
    decreases l,
{
    match l {
        List::Nil => {},
        List::Cons(d, rest) => {
            let (d1, r1) = sp_canon_domain_goal(d, m);
            let (d2, r2) = sp_canon_domain_goal(sp_rename_domain_goal(d, rho), m2);
            lemma_canon_alpha_domain_goal(d, m, m2, rho);
            lemma_canon_alpha_domain_goal_list(*rest, r1, r2, rho);
        },
    }
}

/// Clause form of `lemma_canon_alpha_ty`.
pub proof fn lemma_canon_alpha_clause(
    c: Clause,
    m: Seq<usize>,
    m2: Seq<usize>,
    rho: spec_fn(usize) -> usize,
)
    requires
        sp_injective(rho),
        map_image(m2, m, rho),
    ensures
        ({
            let (c1, r1) = sp_canon_clause(c, m);
            let (c2, r2) = sp_canon_clause(sp_rename_clause(c, rho), m2);
            c2 == c1 && map_image(r2, r1, rho)
        }),
{
    let (h1, r1) = sp_canon_domain_goal(c.head, m);
    let (h2, r2) = sp_canon_domain_goal(sp_rename_domain_goal(c.head, rho), m2);
    lemma_canon_alpha_domain_goal(c.head, m, m2, rho);
    lemma_canon_alpha_domain_goal_list(c.conditions, r1, r2, rho);
}

/// Clause-list form of `lemma_canon_alpha_ty`.
pub proof fn lemma_canon_alpha_clause_list(
    l: List<Clause>,
    m: Seq<usize>,
    m2: Seq<usize>,
    rho: spec_fn(usize) -> usize,
)
    requires
        sp_injective(rho),
        map_image(m2, m, rho),
    ensures
        ({
            let (l1, r1) = sp_canon_clause_list(l, m);
            let (l2, r2) = sp_canon_clause_list(sp_rename_clause_list(l, rho), m2);
            l2 == l1 && map_image(r2, r1, rho)
        }),
    decreases l,
{
    match l {
        List::Nil => {},
        List::Cons(c, rest) => {
            let (c1, r1) = sp_canon_clause(c, m);
            let (c2, r2) = sp_canon_clause(sp_rename_clause(c, rho), m2);
            lemma_canon_alpha_clause(c, m, m2, rho);
            lemma_canon_alpha_clause_list(*rest, r1, r2, rho);
        },
    }
}

/// Goal form of `lemma_canon_alpha_ty`: the generalized induction behind the
/// public alpha-equivalence law.
pub proof fn lemma_canon_alpha_goal(
    g: Goal,
    m: Seq<usize>,
    m2: Seq<usize>,
    rho: spec_fn(usize) -> usize,
)
    requires
        sp_injective(rho),
        map_image(m2, m, rho),
    ensures
        ({
            let (g1, r1) = sp_canon_goal(g, m);
            let (g2, r2) = sp_canon_goal(sp_rename_goal(g, rho), m2);
            g2 == g1 && map_image(r2, r1, rho)
        }),
    decreases g,
{
    match g {
        Goal::Domain(d) => {
            lemma_canon_alpha_domain_goal(d, m, m2, rho);
        },
        Goal::And(a, b) => {
            let (a1, r1) = sp_canon_goal(*a, m);
            let (a2, r2) = sp_canon_goal(sp_rename_goal(*a, rho), m2);
            lemma_canon_alpha_goal(*a, m, m2, rho);
            lemma_canon_alpha_goal(*b, r1, r2, rho);
        },
        Goal::Implies(cs, b) => {
            let (cs1, r1) = sp_canon_clause_list(cs, m);
            let (cs2, r2) = sp_canon_clause_list(sp_rename_clause_list(cs, rho), m2);
            lemma_canon_alpha_clause_list(cs, m, m2, rho);
            lemma_canon_alpha_goal(*b, r1, r2, rho);
        },
        Goal::ForAll(_, b) => {
            lemma_canon_alpha_goal(*b, m, m2, rho);
        },
        Goal::Exists(_, b) => {
            lemma_canon_alpha_goal(*b, m, m2, rho);
        },
    }
}

/// Alpha-equivalent goals canonicalize to identical keys: a goal and its
/// image under any injective renaming of free variables have the same
/// canonical form.
pub proof fn lemma_canonicalize_alpha_equivalent(g: Goal, rho: spec_fn(usize) -> usize)
    requires
        sp_injective(rho),
    ensures
        sp_canon_goal(sp_rename_goal(g, rho), Seq::<usize>::empty()).0 == sp_canon_goal(
            g,
            Seq::<usize>::empty(),
        ).0,
{
    let e = Seq::<usize>::empty();
    lemma_canon_alpha_goal(g, e, e, rho);
}

/// Executable first-position search in the renaming map.
pub fn index_of(m: &Vec<usize>, v: usize) -> (r: Option<usize>)
    ensures
        match r {
            Some(i) => sp_index_of(m@, v) == Some(i as int),
            None => sp_index_of(m@, v) is None,
        },
{
    proof {
        lemma_index_of_props(m@, v);
    }
    let mut i: usize = 0;
    while i < m.len()
        invariant
            i <= m.len(),
            forall|j: int| 0 <= j < i ==> m@[j] != v,
            sp_index_of(m@, v) matches Some(k) ==> 0 <= k < m@.len() && m@[k] == v && (forall|
                j: int,
            | 0 <= j < k ==> m@[j] != v),
            sp_index_of(m@, v) is None ==> (forall|j: int| 0 <= j < m@.len() ==> m@[j] != v),
        decreases m.len() - i,
    {
        if m[i] == v {
            proof {
                if let Some(k) = sp_index_of(m@, v) {
                    assert(k == i as int);
                } else {
                    assert(false);
                }
            }
            return Some(i);
        }
        i = i + 1;
    }
    proof {
        if let Some(k) = sp_index_of(m@, v) {
            assert(m@[k] != v);
            assert(false);
        }
    }
    None
}

/// Executable canonical renaming of a term.
pub fn canon_ty(t: &Ty, m: Vec<usize>) -> (r: (Ty, Vec<usize>))
    ensures
        (r.0, r.1@) == sp_canon_ty(*t, m@),
    decreases *t,
{
    match t {
        Ty::Var(v) => {
            match index_of(&m, *v) {
                Some(i) => (Ty::Var(i), m),
                None => {
                    let k: usize = m.len();
                    let mut m2 = m;
                    m2.push(*v);
                    (Ty::Var(k), m2)
                },
            }
        },
        Ty::Bound(b) => (Ty::Bound(*b), m),
        Ty::App { ctor, args } => {
            let (args1, m1) = canon_ty_list(args, m);
            (Ty::App { ctor: *ctor, args: Box::new(args1) }, m1)
        },
    }
}

/// Executable canonical renaming of a term list.
pub fn canon_ty_list(l: &List<Ty>, m: Vec<usize>) -> (r: (List<Ty>, Vec<usize>))
    ensures
        (r.0, r.1@) == sp_canon_ty_list(*l, m@),
    decreases *l,
{
    match l {
        List::Nil => (List::Nil, m),
        List::Cons(t, rest) => {
            let (t1, m1) = canon_ty(t, m);
            let (rest1, m2) = canon_ty_list(rest, m1);
            (List::Cons(t1, Box::new(rest1)), m2)
        },
    }
}

/// Executable canonical renaming of an interface reference.
pub fn canon_trait_ref(tr: &TraitRef, m: Vec<usize>) -> (r: (TraitRef, Vec<usize>))
    ensures
        (r.0, r.1@) == sp_canon_trait_ref(*tr, m@),
{
    let (args1, m1) = canon_ty_list(&tr.args, m);
    (TraitRef { trait_id: tr.trait_id, args: args1 }, m1)
}

/// Executable canonical renaming of a domain goal.
pub fn canon_domain_goal(d: &DomainGoal, m: Vec<usize>) -> (r: (DomainGoal, Vec<usize>))
    ensures
        (r.0, r.1@) == sp_canon_domain_goal(*d, m@),
{
    match d {
        DomainGoal::Implemented(tr) => {
            let (tr1, m1) = canon_trait_ref(tr, m);
            (DomainGoal::Implemented(tr1), m1)
        },
        DomainGoal::WellFormed(tr) => {
            let (tr1, m1) = canon_trait_ref(tr, m);
            (DomainGoal::WellFormed(tr1), m1)
        },
        DomainGoal::TermsEq { a, b } => {
            let (a1, m1) = canon_ty(a, m);
            let (b1, m2) = canon_ty(b, m1);
            (DomainGoal::TermsEq { a: a1, b: b1 }, m2)
        },
    }
}

/// Executable canonical renaming of a list of domain goals.
pub fn canon_domain_goal_list(l: &List<DomainGoal>, m: Vec<usize>) -> (r: (
    List<DomainGoal>,
    Vec<usize>,
))
    ensures
        (r.0, r.1@) == sp_canon_domain_goal_list(*l, m@),
    decreases *l,
{
    match l {
        List::Nil => (List::Nil, m),
        List::Cons(d, rest) => {
            let (d1, m1) = canon_domain_goal(d, m);
            let (rest1, m2) = canon_domain_goal_list(rest, m1);
            (List::Cons(d1, Box::new(rest1)), m2)
        },
    }
}

/// Executable canonical renaming of a clause.
pub fn canon_clause(c: &Clause, m: Vec<usize>) -> (r: (Clause, Vec<usize>))
    ensures
        (r.0, r.1@) == sp_canon_clause(*c, m@),
{
    let (h1, m1) = canon_domain_goal(&c.head, m);
    let (cs1, m2) = canon_domain_goal_list(&c.conditions, m1);
    (Clause { binders: crate::ir::clone_usize_list(&c.binders), head: h1, conditions: cs1 }, m2)
}

/// Executable canonical renaming of a list of clauses.
pub fn canon_clause_list(l: &List<Clause>, m: Vec<usize>) -> (r: (List<Clause>, Vec<usize>))
    ensures
        (r.0, r.1@) == sp_canon_clause_list(*l, m@),
    decreases *l,
{
    match l {
        List::Nil => (List::Nil, m),
        List::Cons(c, rest) => {
            let (c1, m1) = canon_clause(c, m);
            let (rest1, m2) = canon_clause_list(rest, m1);
            (List::Cons(c1, Box::new(rest1)), m2)
        },
    }
}

/// Executable canonical renaming of a goal.
pub fn canon_goal(g: &Goal, m: Vec<usize>) -> (r: (Goal, Vec<usize>))
    ensures
        (r.0, r.1@) == sp_canon_goal(*g, m@),
    decreases *g,
{
    match g {
        Goal::Domain(d) => {
            let (d1, m1) = canon_domain_goal(d, m);
            (Goal::Domain(d1), m1)
        },
        Goal::And(a, b) => {
            let (a1, m1) = canon_goal(a, m);
            let (b1, m2) = canon_goal(b, m1);
            (Goal::And(Box::new(a1), Box::new(b1)), m2)
        },
        Goal::Implies(cs, b) => {
            let (cs1, m1) = canon_clause_list(cs, m);
            let (b1, m2) = canon_goal(b, m1);
            (Goal::Implies(cs1, Box::new(b1)), m2)
        },
        Goal::ForAll(v, b) => {
            let (b1, m1) = canon_goal(b, m);
            (Goal::ForAll(*v, Box::new(b1)), m1)
        },
        Goal::Exists(v, b) => {
            let (b1, m1) = canon_goal(b, m);
            (Goal::Exists(*v, Box::new(b1)), m1)
        },
    }
}

/// Canonicalization of a goal: its free variables are renumbered
/// `0, 1, 2, ...` in first-occurrence order. The second component maps each
/// canonical id back to the variable it replaced; its length is the number of
/// distinct free variables.
pub fn canonicalize_goal(g: &Goal) -> (r: (Goal, Vec<usize>))
    ensures
        (r.0, r.1@) == sp_canon_goal(*g, Seq::<usize>::empty()),
{
    let m: Vec<usize> = Vec::new();
    proof {
        assert(m@ =~= Seq::<usize>::empty());
    }
    canon_goal(g, m)
}

/// A goal's domain-goal core, canonicalized with the empty map: the key under
/// which the solvers stack, cache and table a subgoal.
pub fn canonical_key(d: &DomainGoal) -> (r: DomainGoal)
    ensures
        r == sp_canonical_key(*d),
{
    let m: Vec<usize> = Vec::new();
    proof {
        assert(m@ =~= Seq::<usize>::empty());
    }
    let (d1, _m1) = canon_domain_goal(d, m);
    d1
}

/// Specification of `canonical_key`.
pub open spec fn sp_canonical_key(d: DomainGoal) -> DomainGoal {
    sp_canon_domain_goal(d, Seq::<usize>::empty()).0
}

/// Canonicalization is idempotent: an already-canonical goal canonicalizes to
/// itself. Alpha-equivalent goals therefore share their canonical key with
/// the canonical form itself.
pub proof fn lemma_canonicalize_idempotent(g: Goal)
    requires
        goal_tm_size(g) <= usize::MAX,
    ensures
        ({
            let (g1, m1) = sp_canon_goal(g, Seq::<usize>::empty());
            sp_canon_goal(g1, Seq::<usize>::empty()).0 == g1
        }),
{
    let e = Seq::<usize>::empty();
    lemma_canon_idem_goal(g, e);
    assert(idseq(0) =~= e);
}

} // verus!
