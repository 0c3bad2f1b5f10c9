//! The recursive solver: depth-first, explicitly bounded proof search.
//!
//! A stack of in-flight canonical goals detects re-entry. Re-entering a goal
//! already on the stack is a coinductive success for goal shapes that support
//! coinduction (see `sp_coinductive`, the one policy table), and a failure of
//! that branch otherwise. `overflow_depth` counts nested expansions of domain
//! goals; exhausting it aborts the branch with an overflow outcome.
//!
//! The environment's insertion order determines the order in which a domain
//! goal's alternatives are tried, and which alternative's substitution a
//! unique answer carries. Every alternative is tried, each against the same
//! remaining depth: the enumeration is exhaustive, never first-match, so that
//! ambiguity is detected.
//!
//! The whole search is specified by the pure functions `sp_solve_goal` and
//! company; the executable search returns exactly their value. The optional
//! answer cache (`caching_enabled`) memoizes completed top-level expansions
//! keyed by the canonicalized goal together with the context it was solved
//! in; since its invariant ties every entry to the cache-free specification,
//! caching can change the work done but never the answer.

use vstd::prelude::*;

use crate::canonical::canonical_key;
use crate::canonical::sp_canonical_key;
use crate::ir::Clause;
use crate::ir::DomainGoal;
use crate::ir::Goal;
use crate::ir::List;
use crate::ir::Outcome;
use crate::ir::clone_clause_list;
use crate::ir::clone_domain_goal;
use crate::ir::clone_domain_goal_list;
use crate::ir::clone_subst;
use crate::ir::eq_clause_list;
use crate::ir::eq_domain_goal;
use crate::ir::eq_ty;
use crate::ir::goal_size;
use crate::ir::list_len;
use crate::ir::sp_list_append;
use crate::ir::Ty;
use crate::subst::apply_domain_goal;
use crate::subst::replace_domain_goal;
use crate::subst::replace_domain_goal_list;
use crate::subst::sp_apply_domain_goal;
use crate::subst::sp_replace_domain_goal;
use crate::subst::sp_replace_domain_goal_list;
use crate::unify::sp_unify_domain_goal;
use crate::unify::unify_domain_goal;

verus! {

/// The coinduction policy: which goal shapes may be re-entered as trivially
/// true when a cycle closes. Well-formedness-style obligations are
/// coinductive; everything else is inductive and fails its cycle branch.
pub open spec fn sp_coinductive(d: DomainGoal) -> bool {
    d matches DomainGoal::WellFormed(_)
}

/// Executable coinduction policy.
pub fn coinductive(d: &DomainGoal) -> (r: bool)
    ensures
        r == sp_coinductive(*d),
{
    match d {
        DomainGoal::WellFormed(_) => true,
        _ => false,
    }
}

/// The matcher's shape filter: whether a clause's conclusion can possibly
/// unify with a goal (same kind of atom, same interface).
pub open spec fn sp_could_apply(c: Clause, d: DomainGoal) -> bool {
    match (c.head, d) {
        (DomainGoal::Implemented(t1), DomainGoal::Implemented(t2)) => t1.trait_id == t2.trait_id,
        (DomainGoal::WellFormed(t1), DomainGoal::WellFormed(t2)) => t1.trait_id == t2.trait_id,
        (DomainGoal::TermsEq { .. }, DomainGoal::TermsEq { .. }) => true,
        _ => false,
    }
}

/// Executable shape filter.
pub fn could_apply(c: &Clause, d: &DomainGoal) -> (r: bool)
    ensures
        r == sp_could_apply(*c, *d),
{
    match (&c.head, d) {
        (DomainGoal::Implemented(t1), DomainGoal::Implemented(t2)) => t1.trait_id == t2.trait_id,
        (DomainGoal::WellFormed(t1), DomainGoal::WellFormed(t2)) => t1.trait_id == t2.trait_id,
        (DomainGoal::TermsEq { .. }, DomainGoal::TermsEq { .. }) => true,
        _ => false,
    }
}

/// Instantiation of a clause's binders with fresh variables, one slot pushed
/// onto the substitution per binder.
pub open spec fn sp_instantiate(
    binders: List<usize>,
    head: DomainGoal,
    conds: List<DomainGoal>,
    s: Seq<Option<Ty>>,
) -> (DomainGoal, List<DomainGoal>, Seq<Option<Ty>>)
    decreases binders,
{
    match binders {
        List::Nil => (head, conds, s),
        List::Cons(v, rest) => {
            let fresh = Ty::Var(s.len() as usize);
            sp_instantiate(
                *rest,
                sp_replace_domain_goal(head, true, v, fresh),
                sp_replace_domain_goal_list(conds, true, v, fresh),
                s.push(None),
            )
        },
    }
}

/// Executable clause instantiation.
pub fn instantiate(
    binders: &List<usize>,
    head: DomainGoal,
    conds: List<DomainGoal>,
    s: Vec<Option<Ty>>,
) -> (r: (DomainGoal, List<DomainGoal>, Vec<Option<Ty>>))
    ensures
        (r.0, r.1, r.2@) == sp_instantiate(*binders, head, conds, s@),
    decreases *binders,
{
    match binders {
        List::Nil => (head, conds, s),
        List::Cons(v, rest) => {
            let fresh = Ty::Var(s.len());
            let head2 = replace_domain_goal(&head, true, *v, &fresh);
            let conds2 = replace_domain_goal_list(&conds, true, *v, &fresh);
            let mut s2 = s;
            s2.push(None);
            instantiate(rest, head2, conds2, s2)
        },
    }
}

/// Whether two substitutions agree on the first `n` variables: the test for
/// compatibility of two successful proofs of one goal.
pub open spec fn sp_substs_agree(s1: Seq<Option<Ty>>, s2: Seq<Option<Ty>>, n: int) -> bool {
    forall|v: int| 0 <= v < n && v < s1.len() && v < s2.len() ==> s1[v] == s2[v]
}

/// Structural equality of optional terms.
pub fn eq_opt_ty(a: &Option<Ty>, b: &Option<Ty>) -> (r: bool)
    ensures
        r == (*a == *b),
{
    match (a, b) {
        (None, None) => true,
        (Some(x), Some(y)) => eq_ty(x, y),
        _ => false,
    }
}

/// Executable agreement test on the first `n` variables.
pub fn substs_agree(s1: &Vec<Option<Ty>>, s2: &Vec<Option<Ty>>, n: usize) -> (r: bool)
    ensures
        r == sp_substs_agree(s1@, s2@, n as int),
{
    let mut v: usize = 0;
    while v < n
        invariant
            v <= n,
            forall|j: int| 0 <= j < v && j < s1@.len() && j < s2@.len() ==> s1@[j] == s2@[j],
        decreases n - v,
    {
        if v < s1.len() && v < s2.len() {
            if !eq_opt_ty(&s1[v], &s2[v]) {
                return false;
            }
        }
        v = v + 1;
    }
    true
}

/// Structural equality of substitutions.
pub fn eq_subst(a: &Vec<Option<Ty>>, b: &Vec<Option<Ty>>) -> (r: bool)
    ensures
        r == (a@ == b@),
{
    if a.len() != b.len() {
        return false;
    }
    let mut i: usize = 0;
    while i < a.len()
        invariant
            i <= a.len(),
            a@.len() == b@.len(),
            forall|j: int| 0 <= j < i ==> a@[j] == b@[j],
        decreases a.len() - i,
    {
        if !eq_opt_ty(&a[i], &b[i]) {
            return false;
        }
        i = i + 1;
    }
    proof {
        assert(a@ =~= b@);
    }
    true
}

/// Whether the in-flight stack already holds a canonical goal.
pub fn stack_contains(stack: &Vec<DomainGoal>, key: &DomainGoal) -> (r: bool)
    ensures
        r == stack@.contains(*key),
{
    let mut i: usize = 0;
    while i < stack.len()
        invariant
            i <= stack.len(),
            forall|j: int| 0 <= j < i ==> stack@[j] != *key,
        decreases stack.len() - i,
    {
        if eq_domain_goal(&stack[i], key) {
            return true;
        }
        i = i + 1;
    }
    proof {
        assert(!stack@.contains(*key));
    }
    false
}

/// A fresh copy of the in-flight stack, extended by one canonical goal.
pub fn stack_push(stack: &Vec<DomainGoal>, key: DomainGoal) -> (r: Vec<DomainGoal>)
    ensures
        r@ == stack@.push(key),
{
    let mut out: Vec<DomainGoal> = Vec::new();
    let mut i: usize = 0;
    while i < stack.len()
        invariant
            i <= stack.len(),
            out@ =~= stack@.subrange(0, i as int),
        decreases stack.len() - i,
    {
        out.push(clone_domain_goal(&stack[i]));
        i = i + 1;
    }
    out.push(key);
    proof {
        assert(out@ =~= stack@.push(key));
    }
    out
}

/// How the result of one clause and the result of the remaining clauses are
/// joined: failures are dropped, overflow dominates, and two successes are one
/// success when their substitutions agree on the variables that existed before
/// the expansion, and an ambiguity otherwise.
pub open spec fn sp_combine(
    first: (Outcome, Seq<Option<Ty>>),
    restr: (Outcome, Seq<Option<Ty>>),
    s: Seq<Option<Ty>>,
) -> (Outcome, Seq<Option<Ty>>) {
    match first.0 {
        Outcome::NoSolution => restr,
        Outcome::Overflow => (Outcome::Overflow, s),
        Outcome::Floundered => match restr.0 {
            Outcome::Overflow => (Outcome::Overflow, s),
            _ => (Outcome::Floundered, s),
        },
        Outcome::Ambiguous => match restr.0 {
            Outcome::Overflow => (Outcome::Overflow, s),
            Outcome::Floundered => (Outcome::Floundered, s),
            _ => (Outcome::Ambiguous, s),
        },
        Outcome::Unique => match restr.0 {
            Outcome::NoSolution => first,
            Outcome::Overflow => (Outcome::Overflow, s),
            Outcome::Floundered => (Outcome::Floundered, s),
            Outcome::Ambiguous => (Outcome::Ambiguous, s),
            Outcome::Unique => if sp_substs_agree(first.1, restr.1, s.len() as int) {
                first
            } else {
                (Outcome::Ambiguous, s)
            },
        },
    }
}

/// The search over a compound goal. Conjuncts are solved left to right,
/// threading the substitution; an implication extends the environment for its
/// consequence. Quantifiers are instantiated before the search begins and do
/// not reach it; one that does is unprovable as stated.
pub open spec fn sp_solve_goal(
    env: List<Clause>,
    g: Goal,
    s: Seq<Option<Ty>>,
    depth: usize,
    stack: Seq<DomainGoal>,
) -> (Outcome, Seq<Option<Ty>>)
    decreases depth, 10nat, goal_size(g),
{
    match g {
        Goal::Domain(d) => sp_solve_domain(env, d, s, depth, stack),
        Goal::And(a, b) => {
            let (o1, s1) = sp_solve_goal(env, *a, s, depth, stack);
            match o1 {
                Outcome::Unique => {
                    let (o2, s2) = sp_solve_goal(env, *b, s1, depth, stack);
                    match o2 {
                        Outcome::Unique => (Outcome::Unique, s2),
                        Outcome::Ambiguous => (Outcome::Ambiguous, s),
                        Outcome::NoSolution => (Outcome::NoSolution, s),
                        Outcome::Floundered => (Outcome::Floundered, s),
                        Outcome::Overflow => (Outcome::Overflow, s),
                    }
                },
                Outcome::Ambiguous => {
                    let (o2, _) = sp_solve_goal(env, *b, s, depth, stack);
                    match o2 {
                        Outcome::NoSolution => (Outcome::NoSolution, s),
                        Outcome::Floundered => (Outcome::Floundered, s),
                        Outcome::Overflow => (Outcome::Overflow, s),
                        _ => (Outcome::Ambiguous, s),
                    }
                },
                Outcome::NoSolution => (Outcome::NoSolution, s),
                Outcome::Floundered => (Outcome::Floundered, s),
                Outcome::Overflow => (Outcome::Overflow, s),
            }
        },
        Goal::Implies(cs, b) => sp_solve_goal(sp_list_append(env, cs), *b, s, depth, stack),
        Goal::ForAll(_, _) => (Outcome::NoSolution, s),
        Goal::Exists(_, _) => (Outcome::NoSolution, s),
    }
}

/// The search over a domain goal: cycle check against the in-flight stack,
/// depth check, then expansion through the environment's clauses.
pub open spec fn sp_solve_domain(
    env: List<Clause>,
    d: DomainGoal,
    s: Seq<Option<Ty>>,
    depth: usize,
    stack: Seq<DomainGoal>,
) -> (Outcome, Seq<Option<Ty>>)
    decreases depth, 6nat, 0nat,
{
    let d1 = sp_apply_domain_goal(s, d);
    let key = sp_canonical_key(d1);
    if stack.contains(key) {
        if sp_coinductive(d1) {
            (Outcome::Unique, s)
        } else {
            (Outcome::NoSolution, s)
        }
    } else if depth == 0 {
        (Outcome::Overflow, s)
    } else {
        sp_try_clauses(env, env, d1, s, (depth - 1) as usize, stack.push(key))
    }
}

/// The matcher's enumeration: each clause of the environment is tried in
/// insertion order and the alternatives are joined by `sp_combine`.
pub open spec fn sp_try_clauses(
    env: List<Clause>,
    rest: List<Clause>,
    d: DomainGoal,
    s: Seq<Option<Ty>>,
    depth: usize,
    stack: Seq<DomainGoal>,
) -> (Outcome, Seq<Option<Ty>>)
    decreases depth, 9nat, list_len(rest),
{
    match rest {
        List::Nil => (Outcome::NoSolution, s),
        List::Cons(c, tail) => {
            let first = sp_try_clause(env, c, d, s, depth, stack);
            let restr = sp_try_clauses(env, *tail, d, s, depth, stack);
            sp_combine(first, restr, s)
        },
    }
}

/// One alternative: instantiate the clause with fresh variables, unify its
/// conclusion with the goal, and solve its conditions.
pub open spec fn sp_try_clause(
    env: List<Clause>,
    c: Clause,
    d: DomainGoal,
    s: Seq<Option<Ty>>,
    depth: usize,
    stack: Seq<DomainGoal>,
) -> (Outcome, Seq<Option<Ty>>)
    decreases depth, 8nat, 0nat,
{
    if !sp_could_apply(c, d) {
        (Outcome::NoSolution, s)
    } else {
        let (h, conds, s1) = sp_instantiate(c.binders, c.head, c.conditions, s);
        match sp_unify_domain_goal(s1, h, d) {
            None => (Outcome::NoSolution, s),
            Some(s2) => sp_solve_conditions(env, conds, s2, depth, stack),
        }
    }
}

/// The conditions of a clause, solved left to right like a conjunction.
pub open spec fn sp_solve_conditions(
    env: List<Clause>,
    conds: List<DomainGoal>,
    s: Seq<Option<Ty>>,
    depth: usize,
    stack: Seq<DomainGoal>,
) -> (Outcome, Seq<Option<Ty>>)
    decreases depth, 7nat, list_len(conds),
{
    match conds {
        List::Nil => (Outcome::Unique, s),
        List::Cons(d, rest) => {
            let (o1, s1) = sp_solve_domain(env, d, s, depth, stack);
            match o1 {
                Outcome::Unique => sp_solve_conditions(env, *rest, s1, depth, stack),
                Outcome::Ambiguous => {
                    let (o2, _) = sp_solve_conditions(env, *rest, s, depth, stack);
                    match o2 {
                        Outcome::NoSolution => (Outcome::NoSolution, s),
                        Outcome::Floundered => (Outcome::Floundered, s),
                        Outcome::Overflow => (Outcome::Overflow, s),
                        _ => (Outcome::Ambiguous, s),
                    }
                },
                Outcome::NoSolution => (Outcome::NoSolution, s),
                Outcome::Floundered => (Outcome::Floundered, s),
                Outcome::Overflow => (Outcome::Overflow, s),
            }
        },
    }
}

/// One memoized answer: a completed top-level expansion, keyed by the goal
/// and the whole context it was solved in, so that a hit is exactly a
/// repeated call.
pub struct CacheEntry {
    pub env: List<Clause>,
    pub goal: DomainGoal,
    pub subst: Vec<Option<Ty>>,
    pub depth: usize,
    pub outcome: Outcome,
    pub out_subst: Vec<Option<Ty>>,
}

/// The cache's invariant: every entry holds exactly what the cache-free
/// search returns on the entry's key. This is what makes caching unable to
/// change any answer.
pub open spec fn entry_ok(e: CacheEntry) -> bool {
    sp_solve_domain(e.env, e.goal, e.subst@, e.depth, Seq::<DomainGoal>::empty()) == (
        e.outcome,
        e.out_subst@,
    )
}

/// The invariant over the whole cache.
pub open spec fn cache_ok(c: Seq<CacheEntry>) -> bool {
    forall|i: int| 0 <= i < c.len() ==> entry_ok(#[trigger] c[i])
}

/// Cache lookup: a hit returns what the cache-free search would.
pub fn cache_lookup(
    cache: &Vec<CacheEntry>,
    env: &List<Clause>,
    d: &DomainGoal,
    s: &Vec<Option<Ty>>,
    depth: usize,
) -> (r: Option<(Outcome, Vec<Option<Ty>>)>)
    requires
        cache_ok(cache@),
    ensures
        r matches Some(p) ==> (p.0, p.1@) == sp_solve_domain(
            *env,
            *d,
            s@,
            depth,
            Seq::<DomainGoal>::empty(),
        ),
{
    let mut i: usize = 0;
    while i < cache.len()
        invariant
            i <= cache.len(),
            cache_ok(cache@),
        decreases cache.len() - i,
    {
        let e = &cache[i];
        if e.depth == depth && eq_domain_goal(&e.goal, d) && eq_subst(&e.subst, s)
            && eq_clause_list(&e.env, env) {
            proof {
                assert(entry_ok(cache@[i as int]));
            }
            return Some((e.outcome, clone_subst(&e.out_subst)));
        }
        i = i + 1;
    }
    None
}

/// Executable search over a compound goal; returns exactly `sp_solve_goal`.
pub fn solve_goal(
    env: &List<Clause>,
    g: &Goal,
    s: Vec<Option<Ty>>,
    depth: usize,
    stack: &Vec<DomainGoal>,
    caching: bool,
    cache: &mut Vec<CacheEntry>,
) -> (r: (Outcome, Vec<Option<Ty>>))
    requires
        cache_ok(old(cache)@),
    ensures
        cache_ok(final(cache)@),
        (r.0, r.1@) == sp_solve_goal(*env, *g, s@, depth, stack@),
    decreases depth, 10nat, goal_size(*g),
{
    match g {
        Goal::Domain(d) => solve_domain(env, d, s, depth, stack, caching, cache),
        Goal::And(a, b) => {
            let s_keep = clone_subst(&s);
            let (o1, s1) = solve_goal(env, a, s, depth, stack, caching, cache);
            match o1 {
                Outcome::Unique => {
                    let (o2, s2) = solve_goal(env, b, s1, depth, stack, caching, cache);
                    match o2 {
                        Outcome::Unique => (Outcome::Unique, s2),
                        Outcome::Ambiguous => (Outcome::Ambiguous, s_keep),
                        Outcome::NoSolution => (Outcome::NoSolution, s_keep),
                        Outcome::Floundered => (Outcome::Floundered, s_keep),
                        Outcome::Overflow => (Outcome::Overflow, s_keep),
                    }
                },
                Outcome::Ambiguous => {
                    let s_pass = clone_subst(&s_keep);
                    let (o2, _s2) = solve_goal(env, b, s_pass, depth, stack, caching, cache);
                    match o2 {
                        Outcome::NoSolution => (Outcome::NoSolution, s_keep),
                        Outcome::Floundered => (Outcome::Floundered, s_keep),
                        Outcome::Overflow => (Outcome::Overflow, s_keep),
                        _ => (Outcome::Ambiguous, s_keep),
                    }
                },
                Outcome::NoSolution => (Outcome::NoSolution, s_keep),
                Outcome::Floundered => (Outcome::Floundered, s_keep),
                Outcome::Overflow => (Outcome::Overflow, s_keep),
            }
        },
        Goal::Implies(cs, b) => {
            let env2 = crate::ir::list_append(clone_clause_list(env), clone_clause_list(cs));
            solve_goal(&env2, b, s, depth, stack, caching, cache)
        },
        Goal::ForAll(_, _) => (Outcome::NoSolution, s),
        Goal::Exists(_, _) => (Outcome::NoSolution, s),
    }
}

/// Executable search over a domain goal, with the optional cache consulted
/// for completed top-level expansions.
pub fn solve_domain(
    env: &List<Clause>,
    d: &DomainGoal,
    s: Vec<Option<Ty>>,
    depth: usize,
    stack: &Vec<DomainGoal>,
    caching: bool,
    cache: &mut Vec<CacheEntry>,
) -> (r: (Outcome, Vec<Option<Ty>>))
    requires
        cache_ok(old(cache)@),
    ensures
        cache_ok(final(cache)@),
        (r.0, r.1@) == sp_solve_domain(*env, *d, s@, depth, stack@),
    decreases depth, 6nat, 0nat,
{
    if caching && stack.len() == 0 {
        proof {
            assert(stack@ =~= Seq::<DomainGoal>::empty());
        }
        match cache_lookup(cache, env, d, &s, depth) {
            Some(p) => {
                return p;
            },
            None => {},
        }
        let env_snap = clone_clause_list(env);
        let d_snap = clone_domain_goal(d);
        let s_snap = clone_subst(&s);
        let (o, s_out) = solve_domain_core(env, d, s, depth, stack, caching, cache);
        let out_snap = clone_subst(&s_out);
        let entry = CacheEntry {
            env: env_snap,
            goal: d_snap,
            subst: s_snap,
            depth,
            outcome: o,
            out_subst: out_snap,
        };
        proof {
            assert(entry_ok(entry));
        }
        let ghost before = cache@;
        cache.push(entry);
        proof {
            assert forall|i: int| 0 <= i < cache@.len() implies entry_ok(#[trigger] cache@[i]) by {
                if i < before.len() {
                    assert(cache@[i] == before[i]);
                } else {
                    assert(cache@[i] == entry);
                }
            }
        }
        (o, s_out)
    } else {
        solve_domain_core(env, d, s, depth, stack, caching, cache)
    }
}

/// The expansion of a domain goal: cycle check, depth check, clause search.
pub fn solve_domain_core(
    env: &List<Clause>,
    d: &DomainGoal,
    s: Vec<Option<Ty>>,
    depth: usize,
    stack: &Vec<DomainGoal>,
    caching: bool,
    cache: &mut Vec<CacheEntry>,
) -> (r: (Outcome, Vec<Option<Ty>>))
    requires
        cache_ok(old(cache)@),
    ensures
        cache_ok(final(cache)@),
        (r.0, r.1@) == sp_solve_domain(*env, *d, s@, depth, stack@),
    decreases depth, 5nat, 0nat,
{
    let d1 = apply_domain_goal(&s, d);
    let key = canonical_key(&d1);
    if stack_contains(stack, &key) {
        if coinductive(&d1) {
            (Outcome::Unique, s)
        } else {
            (Outcome::NoSolution, s)
        }
    } else if depth == 0 {
        (Outcome::Overflow, s)
    } else {
        let stack2 = stack_push(stack, key);
        try_clauses(env, env, &d1, s, depth - 1, &stack2, caching, cache)
    }
}

/// Executable enumeration of the environment's clauses.
pub fn try_clauses(
    env: &List<Clause>,
    rest: &List<Clause>,
    d: &DomainGoal,
    s: Vec<Option<Ty>>,
    depth: usize,
    stack: &Vec<DomainGoal>,
    caching: bool,
    cache: &mut Vec<CacheEntry>,
) -> (r: (Outcome, Vec<Option<Ty>>))
    requires
        cache_ok(old(cache)@),
    ensures
        cache_ok(final(cache)@),
        (r.0, r.1@) == sp_try_clauses(*env, *rest, *d, s@, depth, stack@),
    decreases depth, 9nat, list_len(*rest),
{
    match rest {
        List::Nil => (Outcome::NoSolution, s),
        List::Cons(c, tail) => {
            let s_orig = clone_subst(&s);
            let s_rest = clone_subst(&s);
            let first = try_clause(env, c, d, s, depth, stack, caching, cache);
            let restr = try_clauses(env, tail, d, s_rest, depth, stack, caching, cache);
            combine(first, restr, s_orig)
        },
    }
}

/// Executable join of two alternatives.
pub fn combine(
    first: (Outcome, Vec<Option<Ty>>),
    restr: (Outcome, Vec<Option<Ty>>),
    s: Vec<Option<Ty>>,
) -> (r: (Outcome, Vec<Option<Ty>>))
    ensures
        (r.0, r.1@) == sp_combine((first.0, first.1@), (restr.0, restr.1@), s@),
{
    match first.0 {
        Outcome::NoSolution => restr,
        Outcome::Overflow => (Outcome::Overflow, s),
        Outcome::Floundered => match restr.0 {
            Outcome::Overflow => (Outcome::Overflow, s),
            _ => (Outcome::Floundered, s),
        },
        Outcome::Ambiguous => match restr.0 {
            Outcome::Overflow => (Outcome::Overflow, s),
            Outcome::Floundered => (Outcome::Floundered, s),
            _ => (Outcome::Ambiguous, s),
        },
        Outcome::Unique => match restr.0 {
            Outcome::NoSolution => first,
            Outcome::Overflow => (Outcome::Overflow, s),
            Outcome::Floundered => (Outcome::Floundered, s),
            Outcome::Ambiguous => (Outcome::Ambiguous, s),
            Outcome::Unique => {
                let n: usize = s.len();
                if substs_agree(&first.1, &restr.1, n) {
                    first
                } else {
                    (Outcome::Ambiguous, s)
                }
            },
        },
    }
}

/// Executable attempt of one clause.
pub fn try_clause(
    env: &List<Clause>,
    c: &Clause,
    d: &DomainGoal,
    s: Vec<Option<Ty>>,
    depth: usize,
    stack: &Vec<DomainGoal>,
    caching: bool,
    cache: &mut Vec<CacheEntry>,
) -> (r: (Outcome, Vec<Option<Ty>>))
    requires
        cache_ok(old(cache)@),
    ensures
        cache_ok(final(cache)@),
        (r.0, r.1@) == sp_try_clause(*env, *c, *d, s@, depth, stack@),
    decreases depth, 8nat, 0nat,
{
    if !could_apply(c, d) {
        (Outcome::NoSolution, s)
    } else {
        let s_keep = clone_subst(&s);
        let (h, conds, s1) = instantiate(
            &c.binders,
            clone_domain_goal(&c.head),
            clone_domain_goal_list(&c.conditions),
            s,
        );
        match unify_domain_goal(s1, &h, d) {
            None => (Outcome::NoSolution, s_keep),
            Some(s2) => solve_conditions(env, &conds, s2, depth, stack, caching, cache),
        }
    }
}

/// Executable left-to-right search over a clause's conditions.
pub fn solve_conditions(
    env: &List<Clause>,
    conds: &List<DomainGoal>,
    s: Vec<Option<Ty>>,
    depth: usize,
    stack: &Vec<DomainGoal>,
    caching: bool,
    cache: &mut Vec<CacheEntry>,
) -> (r: (Outcome, Vec<Option<Ty>>))
    requires
        cache_ok(old(cache)@),
    ensures
        cache_ok(final(cache)@),
        (r.0, r.1@) == sp_solve_conditions(*env, *conds, s@, depth, stack@),
    decreases depth, 7nat, list_len(*conds),
{
    match conds {
        List::Nil => (Outcome::Unique, s),
        List::Cons(d, rest) => {
            let s_keep = clone_subst(&s);
            let (o1, s1) = solve_domain(env, d, s, depth, stack, caching, cache);
            match o1 {
                Outcome::Unique => solve_conditions(env, rest, s1, depth, stack, caching, cache),
                Outcome::Ambiguous => {
                    let s_pass = clone_subst(&s_keep);
                    let (o2, _s2) = solve_conditions(env, rest, s_pass, depth, stack, caching, cache);
                    match o2 {
                        Outcome::NoSolution => (Outcome::NoSolution, s_keep),
                        Outcome::Floundered => (Outcome::Floundered, s_keep),
                        Outcome::Overflow => (Outcome::Overflow, s_keep),
                        _ => (Outcome::Ambiguous, s_keep),
                    }
                },
                Outcome::NoSolution => (Outcome::NoSolution, s_keep),
                Outcome::Floundered => (Outcome::Floundered, s_keep),
                Outcome::Overflow => (Outcome::Overflow, s_keep),
            }
        },
    }
}

} // verus!
