//! The engine's cross-cutting laws, stated and proved over the specification
//! functions that the executable entry points are proved to compute.

use vstd::prelude::*;

use crate::ir::DomainGoal;
use crate::ir::Environment;
use crate::ir::Goal;
use crate::ir::List;
use crate::ir::Outcome;
use crate::ir::Solution;
use crate::ir::SolveError;
use crate::ir::SolverChoice;
use crate::ir::Ty;
use crate::ir::dg_closed;
use crate::ir::ty_closed;
use crate::ir::ty_list_closed;
use crate::ir::ty_list_size;
use crate::ir::ty_size;
use crate::canonical::dg_tm_size;
use crate::recursive::sp_solve_domain;
use crate::recursive::sp_solve_goal;
use crate::slg::sp_slg_domain;
use crate::slg::sp_slg_goal;
use crate::solve::sp_inst_goal;
use crate::solve::sp_solve_root;
use crate::subst::lemma_apply_closed;
use crate::subst::lemma_apply_closed_list;
use crate::subst::lemma_apply_resolved;
use crate::subst::lemma_apply_resolved_list;
use crate::subst::lemma_resolved_apply_id;
use crate::subst::lemma_resolved_apply_id_list;
use crate::subst::sp_apply;
use crate::subst::sp_apply_domain_goal;
use crate::subst::sp_apply_list;
use crate::subst::sp_replace_goal;
use crate::subst::subst_wf;
use crate::unify::lemma_size_cap_exact;
use crate::unify::lemma_size_cap_exact_list;
use crate::unify::lemma_unify_complete;
use crate::unify::lemma_unify_complete_list;
use crate::unify::sp_unify;
use crate::unify::sp_unify_args;
use crate::unify::sp_unify_domain_goal;

verus! {

/// Determinism: the result of a root query is a function of the environment,
/// the goal and the solver choice. Since `solve_root_goal` is proved to
/// return `sp_solve_root` of its inputs, any two invocations on equal inputs
/// return equal results, for either strategy.
pub proof fn lemma_solve_deterministic(
    env: Environment,
    g: Goal,
    c: SolverChoice,
    r1: Result<Option<Solution>, SolveError>,
    r2: Result<Option<Solution>, SolveError>,
)
    requires
        r1 == sp_solve_root(env, g, c),
        r2 == sp_solve_root(env, g, c),
    ensures
        r1 == r2,
{
}

/// Cache transparency: the recursive solver with caching enabled classifies
/// every goal exactly as the same solver with caching disabled — the
/// specification never consults a cache, and the executable solver returns
/// the specification's value under either flag. Only the work differs.
pub proof fn lemma_cache_transparency(env: Environment, g: Goal, depth: usize)
    ensures
        sp_solve_root(
            env,
            g,
            SolverChoice::Recursive { overflow_depth: depth, caching_enabled: true },
        ) == sp_solve_root(
            env,
            g,
            SolverChoice::Recursive { overflow_depth: depth, caching_enabled: false },
        ),
{
}

/// Whether a goal contains no quantifier; what the instantiation pass leaves.
pub open spec fn sp_quantifier_free(g: Goal) -> bool
    decreases g,
{
    match g {
        Goal::Domain(_) => true,
        Goal::And(a, b) => sp_quantifier_free(*a) && sp_quantifier_free(*b),
        Goal::Implies(_, b) => sp_quantifier_free(*b),
        Goal::ForAll(_, _) => false,
        Goal::Exists(_, _) => false,
    }
}

/// Replacement does not change a goal's quantifier structure.
pub proof fn lemma_replace_goal_qf(g: Goal, id: usize, rep: Ty)
    ensures
        sp_quantifier_free(sp_replace_goal(g, id, rep)) == sp_quantifier_free(g),
    decreases g,
{
    match g {
        Goal::Domain(_) => {},
        Goal::And(a, b) => {
            lemma_replace_goal_qf(*a, id, rep);
            lemma_replace_goal_qf(*b, id, rep);
        },
        Goal::Implies(_, b) => {
            lemma_replace_goal_qf(*b, id, rep);
        },
        Goal::ForAll(_, b) => {
            lemma_replace_goal_qf(*b, id, rep);
        },
        Goal::Exists(_, b) => {
            lemma_replace_goal_qf(*b, id, rep);
        },
    }
}

/// The instantiation pass leaves no quantifier behind.
pub proof fn lemma_inst_goal_qf(g: Goal, s: Seq<Option<Ty>>, pc: usize)
    ensures
        sp_inst_goal(g, s, pc) matches Some(t) ==> sp_quantifier_free(t.0),
    decreases g,
{
    match g {
        Goal::Domain(_) => {},
        Goal::And(a, b) => {
            lemma_inst_goal_qf(*a, s, pc);
            if let Some((a1, s1, p1)) = sp_inst_goal(*a, s, pc) {
                lemma_inst_goal_qf(*b, s1, p1);
            }
        },
        Goal::Implies(_, b) => {
            lemma_inst_goal_qf(*b, s, pc);
        },
        Goal::Exists(v, b) => {
            lemma_inst_goal_qf(*b, s, pc);
            if let Some((b1, s1, p1)) = sp_inst_goal(*b, s, pc) {
                lemma_replace_goal_qf(b1, v, Ty::Var(s1.len() as usize));
            }
        },
        Goal::ForAll(v, b) => {
            lemma_inst_goal_qf(*b, s, pc);
            if let Some((b1, s1, p1)) = sp_inst_goal(*b, s, pc) {
                if p1 < crate::ir::PLACEHOLDER_LIMIT {
                    lemma_replace_goal_qf(
                        b1,
                        v,
                        Ty::App {
                            ctor: (crate::ir::PLACEHOLDER_BASE + p1 as u64) as u64,
                            args: Box::new(List::Nil),
                        },
                    );
                }
            }
        },
    }
}

/// With no depth budget, the recursive search reaches no expansion: every
/// quantifier-free goal is reported as overflow, with the substitution
/// untouched.
pub proof fn lemma_depth_zero(env: List<crate::ir::Clause>, g: Goal, s: Seq<Option<Ty>>)
    requires
        sp_quantifier_free(g),
    ensures
        sp_solve_goal(env, g, s, 0, Seq::<DomainGoal>::empty()) == (Outcome::Overflow, s),
    decreases g,
{
    match g {
        Goal::Domain(d) => {
            let d1 = sp_apply_domain_goal(s, d);
            let key = crate::canonical::sp_canonical_key(d1);
            assert(!Seq::<DomainGoal>::empty().contains(key));
        },
        Goal::And(a, b) => {
            lemma_depth_zero(env, *a, s);
        },
        Goal::Implies(cs, b) => {
            lemma_depth_zero(crate::ir::sp_list_append(env, cs), *b, s);
        },
        Goal::ForAll(_, _) => {},
        Goal::Exists(_, _) => {},
    }
}

/// Bound safety for the recursive strategy: with `overflow_depth` zero, every
/// query terminates with an error outcome — malformed input or overflow —
/// rather than hanging or crashing. (Termination itself holds of every
/// function of this crate by construction.)
pub proof fn lemma_zero_depth_terminates(env: Environment, g: Goal, caching: bool)
    ensures
        sp_solve_root(
            env,
            g,
            SolverChoice::Recursive { overflow_depth: 0, caching_enabled: caching },
        ) matches Err(_),
{
    if crate::program::sp_env_wf(env.clauses) && crate::program::sp_goal_wf(g, List::Nil) {
        let (g1, m) = crate::canonical::sp_canon_goal(g, Seq::<usize>::empty());
        let s0 = Seq::new(m.len(), |i: int| None::<Ty>);
        let pc0 = crate::solve::sp_ph_floor_goal(g1);
        lemma_inst_goal_qf(g1, s0, pc0);
        if let Some((g2, s1, _pc)) = sp_inst_goal(g1, s0, pc0) {
            lemma_depth_zero(env.clauses, g2, s1);
        }
    }
}

/// With no table budget, the tabling search opens no table: starting from an
/// empty forest, every quantifier-free goal ends in overflow, in no solution,
/// or floundered, and the forest stays empty.
pub proof fn lemma_slg_zero(
    env: List<crate::ir::Clause>,
    g: Goal,
    s: Seq<Option<Ty>>,
    forest: Seq<crate::slg::TableV>,
)
    requires
        sp_quantifier_free(g),
        forest == Seq::<crate::slg::TableV>::empty(),
    ensures
        ({
            let (o, _s, f, _u) = sp_slg_goal(env, g, s, 0, forest);
            (o is Overflow || o is NoSolution || o is Floundered) && f == forest
        }),
    decreases g,
{
    match g {
        Goal::Domain(_) => {},
        Goal::And(a, b) => {
            lemma_slg_zero(env, *a, s, forest);
            let (o1, s1, f1, u1) = sp_slg_goal(env, *a, s, 0, forest);
        },
        Goal::Implies(cs, b) => {
            if crate::program::sp_clause_list_wf(cs, List::Nil, false) {
                lemma_slg_zero(crate::ir::sp_list_append(env, cs), *b, s, forest);
            }
        },
        Goal::ForAll(_, _) => {},
        Goal::Exists(_, _) => {},
    }
}

/// Bound safety for the tabling strategy: with `max_size` zero, every query
/// terminates, with an error or with a floundered/no-solution outcome.
pub proof fn lemma_zero_tables_terminates(env: Environment, g: Goal)
    ensures
        (sp_solve_root(env, g, SolverChoice::SLG { max_size: 0 }) matches Err(_)) || sp_solve_root(
            env,
            g,
            SolverChoice::SLG { max_size: 0 },
        ) == Ok::<Option<Solution>, SolveError>(None),
{
    if crate::program::sp_env_wf(env.clauses) && crate::program::sp_goal_wf(g, List::Nil) {
        let (g1, m) = crate::canonical::sp_canon_goal(g, Seq::<usize>::empty());
        let s0 = Seq::new(m.len(), |i: int| None::<Ty>);
        let pc0 = crate::solve::sp_ph_floor_goal(g1);
        lemma_inst_goal_qf(g1, s0, pc0);
        if let Some((g2, s1, _pc)) = sp_inst_goal(g1, s0, pc0) {
            lemma_slg_zero(env.clauses, g2, s1, Seq::empty());
        }
    }
}

/// Monotone growth of a substitution along one proof branch: variables are
/// only ever added, and a bound variable never becomes unbound.
pub open spec fn subst_grows(s2: Seq<Option<Ty>>, s1: Seq<Option<Ty>>) -> bool {
    s1.len() <= s2.len() && forall|v: int|
        0 <= v < s1.len() ==> ((#[trigger] s1[v]) is Some ==> s2[v] is Some)
}

/// Growth is transitive.
pub proof fn lemma_grows_trans(s3: Seq<Option<Ty>>, s2: Seq<Option<Ty>>, s1: Seq<Option<Ty>>)
    requires
        subst_grows(s3, s2),
        subst_grows(s2, s1),
    ensures
        subst_grows(s3, s1),
{
}

/// A binding step only adds: the bound slot becomes filled, every other slot
/// keeps its state.
pub proof fn lemma_bind_grows(s: Seq<Option<Ty>>, x: usize, t: Ty)
    ensures
        subst_grows(crate::subst::sp_bind(s, x, t), s),
{
}

/// One unification step only adds bindings.
pub proof fn lemma_unify_step_grows(fuel: nat, s: Seq<Option<Ty>>, a: Ty, b: Ty)
    ensures
        crate::unify::sp_unify_step(fuel, s, a, b) matches Some(s2) ==> subst_grows(s2, s),
    decreases fuel, crate::ir::ty_size(a) + crate::ir::ty_size(b), 0nat,
{
    match (a, b) {
        (Ty::Bound(_), _) => {},
        (_, Ty::Bound(_)) => {},
        (Ty::Var(x), Ty::Var(y)) => {
            match (crate::subst::subst_get(s, x), crate::subst::subst_get(s, y)) {
                (Some(u), _) => {
                    if fuel > 0 {
                        lemma_unify_step_grows((fuel - 1) as nat, s, u, b);
                    }
                },
                (None, Some(w)) => {
                    if fuel > 0 {
                        lemma_unify_step_grows((fuel - 1) as nat, s, a, w);
                    }
                },
                (None, None) => {
                    if x != y {
                        lemma_bind_grows(s, x, Ty::Var(y));
                    }
                },
            }
        },
        (Ty::Var(x), Ty::App { ctor, args }) => {
            match crate::subst::subst_get(s, x) {
                Some(u) => {
                    if fuel > 0 {
                        lemma_unify_step_grows((fuel - 1) as nat, s, u, b);
                    }
                },
                None => {
                    lemma_bind_grows(s, x, sp_apply(s, b));
                },
            }
        },
        (Ty::App { ctor, args }, Ty::Var(y)) => {
            match crate::subst::subst_get(s, y) {
                Some(w) => {
                    if fuel > 0 {
                        lemma_unify_step_grows((fuel - 1) as nat, s, a, w);
                    }
                },
                None => {
                    lemma_bind_grows(s, y, sp_apply(s, a));
                },
            }
        },
        (Ty::App { ctor: c1, args: a1 }, Ty::App { ctor: c2, args: a2 }) => {
            if c1 == c2 {
                lemma_unify_list_grows(fuel, s, *a1, *a2);
            }
        },
    }
}

/// List form of `lemma_unify_step_grows`.
pub proof fn lemma_unify_list_grows(
    fuel: nat,
    s: Seq<Option<Ty>>,
    xs: List<Ty>,
    ys: List<Ty>,
)
    ensures
        crate::unify::sp_unify_list(fuel, s, xs, ys) matches Some(s2) ==> subst_grows(s2, s),
    decreases fuel, crate::ir::ty_list_size(xs) + crate::ir::ty_list_size(ys), 1nat,
{
    match (xs, ys) {
        (List::Cons(x, xt), List::Cons(y, yt)) => {
            lemma_unify_step_grows(fuel, s, x, y);
            if let Some(s1) = crate::unify::sp_unify_step(fuel, s, x, y) {
                lemma_unify_list_grows(fuel, s1, *xt, *yt);
                if let Some(s2) = crate::unify::sp_unify_list(fuel, s1, *xt, *yt) {
                    lemma_grows_trans(s2, s1, s);
                }
            }
        },
        _ => {},
    }
}

/// Unification of domain goals only adds bindings.
pub proof fn lemma_unify_domain_goal_grows(s: Seq<Option<Ty>>, d1: DomainGoal, d2: DomainGoal)
    ensures
        sp_unify_domain_goal(s, d1, d2) matches Some(s2) ==> subst_grows(s2, s),
{
    match (d1, d2) {
        (DomainGoal::Implemented(t1), DomainGoal::Implemented(t2)) => {
            if t1.trait_id == t2.trait_id {
                let fuel = crate::unify::sp_add_cap(
                    crate::unify::sp_ty_list_size_cap(t1.args),
                    crate::unify::sp_ty_list_size_cap(t2.args),
                );
                lemma_unify_list_grows(fuel as nat, s, t1.args, t2.args);
            }
        },
        (DomainGoal::WellFormed(t1), DomainGoal::WellFormed(t2)) => {
            if t1.trait_id == t2.trait_id {
                let fuel = crate::unify::sp_add_cap(
                    crate::unify::sp_ty_list_size_cap(t1.args),
                    crate::unify::sp_ty_list_size_cap(t2.args),
                );
                lemma_unify_list_grows(fuel as nat, s, t1.args, t2.args);
            }
        },
        (DomainGoal::TermsEq { a: a1, b: b1 }, DomainGoal::TermsEq { a: a2, b: b2 }) => {
            lemma_unify_step_grows(crate::unify::unify_fuel(a1, a2) as nat, s, a1, a2);
            if let Some(s1) = crate::unify::sp_unify(s, a1, a2) {
                lemma_unify_step_grows(crate::unify::unify_fuel(b1, b2) as nat, s1, b1, b2);
                if let Some(s2) = crate::unify::sp_unify(s1, b1, b2) {
                    lemma_grows_trans(s2, s1, s);
                }
            }
        },
        _ => {},
    }
}

/// Clause instantiation only adds fresh, unbound slots.
pub proof fn lemma_instantiate_grows(
    binders: List<usize>,
    head: DomainGoal,
    conds: List<DomainGoal>,
    s: Seq<Option<Ty>>,
)
    ensures
        subst_grows(crate::recursive::sp_instantiate(binders, head, conds, s).2, s),
    decreases binders,
{
    match binders {
        List::Nil => {},
        List::Cons(v, rest) => {
            let fresh = Ty::Var(s.len() as usize);
            let h2 = crate::subst::sp_replace_domain_goal(head, true, v, fresh);
            let c2 = crate::subst::sp_replace_domain_goal_list(conds, true, v, fresh);
            lemma_instantiate_grows(*rest, h2, c2, s.push(None));
            lemma_grows_trans(
                crate::recursive::sp_instantiate(*rest, h2, c2, s.push(None)).2,
                s.push(None),
                s,
            );
        },
    }
}

/// The recursive search over a goal only adds bindings along its branch: the
/// substitution it returns extends the one it was given.
pub proof fn lemma_solve_goal_grows(
    env: List<crate::ir::Clause>,
    g: Goal,
    s: Seq<Option<Ty>>,
    depth: usize,
    stack: Seq<DomainGoal>,
)
    ensures
        subst_grows(sp_solve_goal(env, g, s, depth, stack).1, s),
    decreases depth, 10nat, crate::ir::goal_size(g),
{
    match g {
        Goal::Domain(d) => {
            lemma_solve_domain_grows(env, d, s, depth, stack);
        },
        Goal::And(a, b) => {
            lemma_solve_goal_grows(env, *a, s, depth, stack);
            let (o1, s1) = sp_solve_goal(env, *a, s, depth, stack);
            match o1 {
                crate::ir::Outcome::Unique => {
                    lemma_solve_goal_grows(env, *b, s1, depth, stack);
                    let (o2, s2) = sp_solve_goal(env, *b, s1, depth, stack);
                    lemma_grows_trans(s2, s1, s);
                },
                crate::ir::Outcome::Ambiguous => {
                    lemma_solve_goal_grows(env, *b, s, depth, stack);
                },
                _ => {},
            }
        },
        Goal::Implies(cs, b) => {
            lemma_solve_goal_grows(crate::ir::sp_list_append(env, cs), *b, s, depth, stack);
        },
        Goal::ForAll(_, _) => {},
        Goal::Exists(_, _) => {},
    }
}

/// Domain-goal form of `lemma_solve_goal_grows`.
pub proof fn lemma_solve_domain_grows(
    env: List<crate::ir::Clause>,
    d: DomainGoal,
    s: Seq<Option<Ty>>,
    depth: usize,
    stack: Seq<DomainGoal>,
)
    ensures
        subst_grows(sp_solve_domain(env, d, s, depth, stack).1, s),
    decreases depth, 6nat, 0nat,
{
    let d1 = sp_apply_domain_goal(s, d);
    let key = crate::canonical::sp_canonical_key(d1);
    if !stack.contains(key) && depth > 0 {
        lemma_try_clauses_grows(env, env, d1, s, (depth - 1) as usize, stack.push(key));
    }
}

/// Clause-enumeration form of `lemma_solve_goal_grows`.
pub proof fn lemma_try_clauses_grows(
    env: List<crate::ir::Clause>,
    rest: List<crate::ir::Clause>,
    d: DomainGoal,
    s: Seq<Option<Ty>>,
    depth: usize,
    stack: Seq<DomainGoal>,
)
    ensures
        subst_grows(crate::recursive::sp_try_clauses(env, rest, d, s, depth, stack).1, s),
    decreases depth, 9nat, crate::ir::list_len(rest),
{
    match rest {
        List::Nil => {},
        List::Cons(c, tail) => {
            lemma_try_clause_grows(env, c, d, s, depth, stack);
            lemma_try_clauses_grows(env, *tail, d, s, depth, stack);
        },
    }
}

/// Single-clause form of `lemma_solve_goal_grows`.
pub proof fn lemma_try_clause_grows(
    env: List<crate::ir::Clause>,
    c: crate::ir::Clause,
    d: DomainGoal,
    s: Seq<Option<Ty>>,
    depth: usize,
    stack: Seq<DomainGoal>,
)
    ensures
        subst_grows(crate::recursive::sp_try_clause(env, c, d, s, depth, stack).1, s),
    decreases depth, 8nat, 0nat,
{
    if crate::recursive::sp_could_apply(c, d) {
        let (h, conds, s1) = crate::recursive::sp_instantiate(c.binders, c.head, c.conditions, s);
        lemma_instantiate_grows(c.binders, c.head, c.conditions, s);
        lemma_unify_domain_goal_grows(s1, h, d);
        if let Some(s2) = sp_unify_domain_goal(s1, h, d) {
            lemma_solve_conditions_grows(env, conds, s2, depth, stack);
            let (o3, s3) = crate::recursive::sp_solve_conditions(env, conds, s2, depth, stack);
            lemma_grows_trans(s2, s1, s);
            lemma_grows_trans(s3, s2, s);
        }
    }
}

/// Condition-list form of `lemma_solve_goal_grows`.
pub proof fn lemma_solve_conditions_grows(
    env: List<crate::ir::Clause>,
    conds: List<DomainGoal>,
    s: Seq<Option<Ty>>,
    depth: usize,
    stack: Seq<DomainGoal>,
)
    ensures
        subst_grows(crate::recursive::sp_solve_conditions(env, conds, s, depth, stack).1, s),
    decreases depth, 7nat, crate::ir::list_len(conds),
{
    match conds {
        List::Nil => {},
        List::Cons(d, rest) => {
            lemma_solve_domain_grows(env, d, s, depth, stack);
            let (o1, s1) = sp_solve_domain(env, d, s, depth, stack);
            match o1 {
                crate::ir::Outcome::Unique => {
                    lemma_solve_conditions_grows(env, *rest, s1, depth, stack);
                    let (o2, s2) = crate::recursive::sp_solve_conditions(
                        env,
                        *rest,
                        s1,
                        depth,
                        stack,
                    );
                    lemma_grows_trans(s2, s1, s);
                },
                crate::ir::Outcome::Ambiguous => {
                    lemma_solve_conditions_grows(env, *rest, s, depth, stack);
                },
                _ => {},
            }
        },
    }
}

/// A clause the matcher's shape filter rejects is transparent: dropping it
/// from the enumeration changes neither the classification nor the
/// substitution. Clause order determines the order alternatives are tried and
/// which witness a unique answer carries; a proof of full order-invariance of
/// the classification is not attempted here.
pub proof fn lemma_matcher_filter_transparent(
    env: List<crate::ir::Clause>,
    c: crate::ir::Clause,
    tail: List<crate::ir::Clause>,
    d: DomainGoal,
    s: Seq<Option<Ty>>,
    depth: usize,
    stack: Seq<DomainGoal>,
)
    requires
        !crate::recursive::sp_could_apply(c, d),
    ensures
        crate::recursive::sp_try_clauses(
            env,
            List::Cons(c, Box::new(tail)),
            d,
            s,
            depth,
            stack,
        ) == crate::recursive::sp_try_clauses(env, tail, d, s, depth, stack),
{
    let first = crate::recursive::sp_try_clause(env, c, d, s, depth, stack);
    assert(first == (Outcome::NoSolution, s));
    let restr = crate::recursive::sp_try_clauses(env, tail, d, s, depth, stack);
    assert(crate::recursive::sp_combine(first, restr, s) == restr);
}

/// A resolved term stays resolved when the substitution grows by an unbound
/// slot.
pub proof fn lemma_resolved_push_none(s: Seq<Option<Ty>>, t: Ty)
    requires
        crate::subst::ty_resolved(s, t),
    ensures
        crate::subst::ty_resolved(s.push(None), t),
    decreases t,
{
    match t {
        Ty::Var(_) => {},
        Ty::Bound(_) => {},
        Ty::App { ctor: _, args } => {
            lemma_resolved_push_none_list(s, *args);
        },
    }
}

/// List form of `lemma_resolved_push_none`.
pub proof fn lemma_resolved_push_none_list(s: Seq<Option<Ty>>, l: List<Ty>)
    requires
        crate::subst::ty_list_resolved(s, l),
    ensures
        crate::subst::ty_list_resolved(s.push(None), l),
    decreases l,
{
    match l {
        List::Nil => {},
        List::Cons(t, rest) => {
            lemma_resolved_push_none(s, t);
            lemma_resolved_push_none_list(s, *rest);
        },
    }
}

/// Opening a fresh, unbound slot keeps a substitution well-formed.
pub proof fn lemma_push_none_wf(s: Seq<Option<Ty>>)
    requires
        subst_wf(s),
    ensures
        subst_wf(s.push(None)),
{
    let s2 = s.push(None);
    assert forall|v: int|
        0 <= v < s2.len() implies ((#[trigger] s2[v]) matches Some(u) ==> ty_closed(u)
        && crate::subst::ty_resolved(s2, u)) by {
        if v < s.len() {
            assert(s2[v] == s[v]);
            if let Some(u) = s[v] {
                lemma_resolved_push_none(s, u);
            }
        }
    }
}

/// Clause instantiation keeps a substitution well-formed: it only opens fresh
/// slots.
pub proof fn lemma_instantiate_wf(
    binders: List<usize>,
    head: DomainGoal,
    conds: List<DomainGoal>,
    s: Seq<Option<Ty>>,
)
    requires
        subst_wf(s),
    ensures
        subst_wf(crate::recursive::sp_instantiate(binders, head, conds, s).2),
    decreases binders,
{
    match binders {
        List::Nil => {},
        List::Cons(v, rest) => {
            let fresh = Ty::Var(s.len() as usize);
            lemma_push_none_wf(s);
            lemma_instantiate_wf(
                *rest,
                crate::subst::sp_replace_domain_goal(head, true, v, fresh),
                crate::subst::sp_replace_domain_goal_list(conds, true, v, fresh),
                s.push(None),
            );
        },
    }
}

/// A fully instantiated clause is closed: each binder replacement removes the
/// one name it binds.
pub proof fn lemma_instantiate_closed(
    binders: List<usize>,
    head: DomainGoal,
    conds: List<DomainGoal>,
    s: Seq<Option<Ty>>,
)
    requires
        crate::program::sp_dg_wf(head, crate::program::sp_scope_extend(binders, List::Nil), true),
        crate::program::sp_dg_list_wf(
            conds,
            crate::program::sp_scope_extend(binders, List::Nil),
            true,
        ),
    ensures
        ({
            let (h, cs, _s1) = crate::recursive::sp_instantiate(binders, head, conds, s);
            dg_closed(h) && crate::ir::dg_list_closed(cs)
        }),
    decreases binders,
{
    match binders {
        List::Nil => {
            crate::program::lemma_wf_nil_closed_dg(head);
            crate::program::lemma_wf_nil_closed_dg_list(conds);
        },
        List::Cons(v, rest) => {
            let fresh = Ty::Var(s.len() as usize);
            let scope1 = crate::program::sp_scope_extend(*rest, List::Cons(v, Box::new(List::Nil)));
            let scope2 = crate::program::sp_scope_extend(*rest, List::Nil);
            assert forall|b: usize|
                b != v && #[trigger] crate::program::sp_scope_contains(scope1, b)
                implies crate::program::sp_scope_contains(scope2, b) by {
                crate::program::lemma_scope_extend_contains(
                    *rest,
                    List::Cons(v, Box::new(List::Nil)),
                    b,
                );
                crate::program::lemma_scope_extend_contains(*rest, List::Nil, b);
            }
            crate::program::lemma_replace_scope_dg(head, scope1, scope2, v, fresh);
            crate::program::lemma_replace_scope_dg_list(conds, scope1, scope2, v, fresh);
            lemma_instantiate_closed(
                *rest,
                crate::subst::sp_replace_domain_goal(head, true, v, fresh),
                crate::subst::sp_replace_domain_goal_list(conds, true, v, fresh),
                s.push(None),
            );
        },
    }
}

/// Application keeps a closed domain goal closed.
pub proof fn lemma_apply_dg_closed(s: Seq<Option<Ty>>, d: DomainGoal)
    requires
        subst_wf(s),
        dg_closed(d),
    ensures
        dg_closed(sp_apply_domain_goal(s, d)),
{
    match d {
        DomainGoal::Implemented(tr) => {
            lemma_apply_closed_list(s, tr.args);
        },
        DomainGoal::WellFormed(tr) => {
            lemma_apply_closed_list(s, tr.args);
        },
        DomainGoal::TermsEq { a, b } => {
            lemma_apply_closed(s, a);
            lemma_apply_closed(s, b);
        },
    }
}

/// Unification of closed domain goals keeps a substitution well-formed.
pub proof fn lemma_unify_dg_wf(s: Seq<Option<Ty>>, d1: DomainGoal, d2: DomainGoal)
    requires
        subst_wf(s),
        dg_closed(d1),
        dg_closed(d2),
    ensures
        sp_unify_domain_goal(s, d1, d2) matches Some(s2) ==> subst_wf(s2),
{
    match (d1, d2) {
        (DomainGoal::Implemented(t1), DomainGoal::Implemented(t2)) => {
            if t1.trait_id == t2.trait_id {
                let fuel = crate::unify::sp_add_cap(
                    crate::unify::sp_ty_list_size_cap(t1.args),
                    crate::unify::sp_ty_list_size_cap(t2.args),
                );
                crate::unify::lemma_unify_list_wf(fuel as nat, s, t1.args, t2.args);
            }
        },
        (DomainGoal::WellFormed(t1), DomainGoal::WellFormed(t2)) => {
            if t1.trait_id == t2.trait_id {
                let fuel = crate::unify::sp_add_cap(
                    crate::unify::sp_ty_list_size_cap(t1.args),
                    crate::unify::sp_ty_list_size_cap(t2.args),
                );
                crate::unify::lemma_unify_list_wf(fuel as nat, s, t1.args, t2.args);
            }
        },
        (DomainGoal::TermsEq { a: a1, b: b1 }, DomainGoal::TermsEq { a: a2, b: b2 }) => {
            crate::unify::lemma_unify_wf(crate::unify::unify_fuel(a1, a2) as nat, s, a1, a2);
            if let Some(s1) = crate::unify::sp_unify(s, a1, a2) {
                crate::unify::lemma_unify_wf(crate::unify::unify_fuel(b1, b2) as nat, s1, b1, b2);
            }
        },
        _ => {},
    }
}

/// A scoped environment: every clause is program-shaped up to free variables —
/// its bound names all under its own binders.
pub open spec fn env_scoped(env: List<crate::ir::Clause>) -> bool {
    crate::program::sp_clause_list_wf(env, List::Nil, true)
}

/// A scoped goal: its domain goals are closed and its hypothetical clauses
/// scoped; what the entry point's validation and instantiation pass leave.
pub open spec fn goal_scoped(g: Goal) -> bool
    decreases g,
{
    match g {
        Goal::Domain(d) => crate::program::sp_dg_wf(d, List::Nil, true),
        Goal::And(a, b) => goal_scoped(*a) && goal_scoped(*b),
        Goal::Implies(cs, b) => crate::program::sp_clause_list_wf(cs, List::Nil, true)
            && goal_scoped(*b),
        Goal::ForAll(_, _) => true,
        Goal::Exists(_, _) => true,
    }
}

/// The recursive search keeps its substitution well-formed: whatever a scoped
/// goal's search returns — in particular the substitution of a unique answer —
/// satisfies `subst_wf`, so the round-trip laws below apply to it.
pub proof fn lemma_wf_solve_goal(
    env: List<crate::ir::Clause>,
    g: Goal,
    s: Seq<Option<Ty>>,
    depth: usize,
    stack: Seq<DomainGoal>,
)
    requires
        subst_wf(s),
        env_scoped(env),
        goal_scoped(g),
    ensures
        subst_wf(sp_solve_goal(env, g, s, depth, stack).1),
    decreases depth, 10nat, crate::ir::goal_size(g),
{
    match g {
        Goal::Domain(d) => {
            lemma_wf_solve_domain(env, d, s, depth, stack);
        },
        Goal::And(a, b) => {
            lemma_wf_solve_goal(env, *a, s, depth, stack);
            let (o1, s1) = sp_solve_goal(env, *a, s, depth, stack);
            match o1 {
                crate::ir::Outcome::Unique => {
                    lemma_wf_solve_goal(env, *b, s1, depth, stack);
                },
                crate::ir::Outcome::Ambiguous => {
                    lemma_wf_solve_goal(env, *b, s, depth, stack);
                },
                _ => {},
            }
        },
        Goal::Implies(cs, b) => {
            crate::program::lemma_append_clause_list_wf(env, cs, List::Nil, true);
            lemma_wf_solve_goal(crate::ir::sp_list_append(env, cs), *b, s, depth, stack);
        },
        Goal::ForAll(_, _) => {},
        Goal::Exists(_, _) => {},
    }
}

/// Domain-goal form of `lemma_wf_solve_goal`.
pub proof fn lemma_wf_solve_domain(
    env: List<crate::ir::Clause>,
    d: DomainGoal,
    s: Seq<Option<Ty>>,
    depth: usize,
    stack: Seq<DomainGoal>,
)
    requires
        subst_wf(s),
        env_scoped(env),
        crate::program::sp_dg_wf(d, List::Nil, true),
    ensures
        subst_wf(sp_solve_domain(env, d, s, depth, stack).1),
    decreases depth, 6nat, 0nat,
{
    crate::program::lemma_wf_nil_closed_dg(d);
    let d1 = sp_apply_domain_goal(s, d);
    lemma_apply_dg_closed(s, d);
    let key = crate::canonical::sp_canonical_key(d1);
    if !stack.contains(key) && depth > 0 {
        lemma_wf_try_clauses(env, env, d1, s, (depth - 1) as usize, stack.push(key));
    }
}

/// Clause-enumeration form of `lemma_wf_solve_goal`.
pub proof fn lemma_wf_try_clauses(
    env: List<crate::ir::Clause>,
    rest: List<crate::ir::Clause>,
    d: DomainGoal,
    s: Seq<Option<Ty>>,
    depth: usize,
    stack: Seq<DomainGoal>,
)
    requires
        subst_wf(s),
        env_scoped(env),
        crate::program::sp_clause_list_wf(rest, List::Nil, true),
        dg_closed(d),
    ensures
        subst_wf(crate::recursive::sp_try_clauses(env, rest, d, s, depth, stack).1),
    decreases depth, 9nat, crate::ir::list_len(rest),
{
    match rest {
        List::Nil => {},
        List::Cons(c, tail) => {
            lemma_wf_try_clause(env, c, d, s, depth, stack);
            lemma_wf_try_clauses(env, *tail, d, s, depth, stack);
        },
    }
}

/// Single-clause form of `lemma_wf_solve_goal`.
pub proof fn lemma_wf_try_clause(
    env: List<crate::ir::Clause>,
    c: crate::ir::Clause,
    d: DomainGoal,
    s: Seq<Option<Ty>>,
    depth: usize,
    stack: Seq<DomainGoal>,
)
    requires
        subst_wf(s),
        env_scoped(env),
        crate::program::sp_clause_wf(c, List::Nil, true),
        dg_closed(d),
    ensures
        subst_wf(crate::recursive::sp_try_clause(env, c, d, s, depth, stack).1),
    decreases depth, 8nat, 0nat,
{
    if crate::recursive::sp_could_apply(c, d) {
        let (h, conds, s1) = crate::recursive::sp_instantiate(c.binders, c.head, c.conditions, s);
        lemma_instantiate_wf(c.binders, c.head, c.conditions, s);
        lemma_instantiate_closed(c.binders, c.head, c.conditions, s);
        lemma_unify_dg_wf(s1, h, d);
        if let Some(s2) = sp_unify_domain_goal(s1, h, d) {
            lemma_wf_solve_conditions(env, conds, s2, depth, stack);
        }
    }
}

/// Condition-list form of `lemma_wf_solve_goal`.
pub proof fn lemma_wf_solve_conditions(
    env: List<crate::ir::Clause>,
    conds: List<DomainGoal>,
    s: Seq<Option<Ty>>,
    depth: usize,
    stack: Seq<DomainGoal>,
)
    requires
        subst_wf(s),
        env_scoped(env),
        crate::ir::dg_list_closed(conds),
    ensures
        subst_wf(crate::recursive::sp_solve_conditions(env, conds, s, depth, stack).1),
    decreases depth, 7nat, crate::ir::list_len(conds),
{
    match conds {
        List::Nil => {},
        List::Cons(d, rest) => {
            crate::program::lemma_closed_wf_dg(d, List::Nil);
            lemma_wf_solve_domain(env, d, s, depth, stack);
            let (o1, s1) = sp_solve_domain(env, d, s, depth, stack);
            match o1 {
                crate::ir::Outcome::Unique => {
                    lemma_wf_solve_conditions(env, *rest, s1, depth, stack);
                },
                crate::ir::Outcome::Ambiguous => {
                    lemma_wf_solve_conditions(env, *rest, s, depth, stack);
                },
                _ => {},
            }
        },
    }
}

/// The tabling search keeps its substitution well-formed too.
pub proof fn lemma_wf_slg_goal(
    env: List<crate::ir::Clause>,
    g: Goal,
    s: Seq<Option<Ty>>,
    fuel: usize,
    forest: Seq<crate::slg::TableV>,
)
    requires
        subst_wf(s),
        env_scoped(env),
        goal_scoped(g),
    ensures
        subst_wf(sp_slg_goal(env, g, s, fuel, forest).1),
    decreases fuel, 10nat, crate::ir::goal_size(g),
{
    match g {
        Goal::Domain(d) => {
            lemma_wf_slg_domain(env, d, s, fuel, forest);
        },
        Goal::And(a, b) => {
            lemma_wf_slg_goal(env, *a, s, fuel, forest);
            let (o1, s1, f1, u1) = sp_slg_goal(env, *a, s, fuel, forest);
            let u1c: usize = if u1 <= fuel {
                u1
            } else {
                fuel
            };
            match o1 {
                crate::ir::Outcome::Unique => {
                    lemma_wf_slg_goal(env, *b, s1, u1c, f1);
                },
                crate::ir::Outcome::Ambiguous => {
                    lemma_wf_slg_goal(env, *b, s, u1c, f1);
                },
                _ => {},
            }
        },
        Goal::Implies(cs, b) => {
            if crate::program::sp_clause_list_wf(cs, List::Nil, false) {
                crate::program::lemma_wf_allow_var_clause_list(cs, List::Nil);
                crate::program::lemma_append_clause_list_wf(env, cs, List::Nil, true);
                lemma_wf_slg_goal(crate::ir::sp_list_append(env, cs), *b, s, fuel, forest);
            }
        },
        Goal::ForAll(_, _) => {},
        Goal::Exists(_, _) => {},
    }
}

/// Domain-goal form of `lemma_wf_slg_goal`.
pub proof fn lemma_wf_slg_domain(
    env: List<crate::ir::Clause>,
    d: DomainGoal,
    s: Seq<Option<Ty>>,
    fuel: usize,
    forest: Seq<crate::slg::TableV>,
)
    requires
        subst_wf(s),
        env_scoped(env),
        crate::program::sp_dg_wf(d, List::Nil, true),
    ensures
        subst_wf(sp_slg_domain(env, d, s, fuel, forest).1),
    decreases fuel, 6nat, 0nat,
{
    crate::program::lemma_wf_nil_closed_dg(d);
    let d1 = sp_apply_domain_goal(s, d);
    lemma_apply_dg_closed(s, d);
    let (key, km) = crate::canonical::sp_canon_domain_goal(d1, Seq::<usize>::empty());
    let done = crate::slg::sp_table_find(forest, env, key, true);
    if !(km.len() == 0 && done is Some) && crate::slg::sp_table_find(forest, env, key, false)
        is None && fuel > 0 {
        let idx = forest.len() as int;
        let f1 = forest.push((key, env, Seq::empty(), false, crate::ir::Outcome::NoSolution));
        lemma_wf_slg_clauses(env, env, d1, s, idx, (fuel - 1) as usize, f1);
    }
}

/// Clause-enumeration form of `lemma_wf_slg_goal`.
pub proof fn lemma_wf_slg_clauses(
    env: List<crate::ir::Clause>,
    rest: List<crate::ir::Clause>,
    d: DomainGoal,
    s: Seq<Option<Ty>>,
    idx: int,
    fuel: usize,
    forest: Seq<crate::slg::TableV>,
)
    requires
        subst_wf(s),
        env_scoped(env),
        crate::program::sp_clause_list_wf(rest, List::Nil, true),
        dg_closed(d),
    ensures
        subst_wf(crate::slg::sp_slg_clauses(env, rest, d, s, idx, fuel, forest).1),
    decreases fuel, 9nat, crate::ir::list_len(rest),
{
    match rest {
        List::Nil => {},
        List::Cons(c, tail) => {
            lemma_wf_slg_clause(env, c, d, s, idx, fuel, forest);
            let (o1, s1, f1, u1) = crate::slg::sp_slg_clause(env, c, d, s, idx, fuel, forest);
            let u1c: usize = if u1 <= fuel {
                u1
            } else {
                fuel
            };
            lemma_wf_slg_clauses(env, *tail, d, s, idx, u1c, f1);
        },
    }
}

/// Single-clause form of `lemma_wf_slg_goal`.
pub proof fn lemma_wf_slg_clause(
    env: List<crate::ir::Clause>,
    c: crate::ir::Clause,
    d: DomainGoal,
    s: Seq<Option<Ty>>,
    idx: int,
    fuel: usize,
    forest: Seq<crate::slg::TableV>,
)
    requires
        subst_wf(s),
        env_scoped(env),
        crate::program::sp_clause_wf(c, List::Nil, true),
        dg_closed(d),
    ensures
        subst_wf(crate::slg::sp_slg_clause(env, c, d, s, idx, fuel, forest).1),
    decreases fuel, 8nat, 0nat,
{
    if crate::recursive::sp_could_apply(c, d) {
        let (h, conds, s1) = crate::recursive::sp_instantiate(c.binders, c.head, c.conditions, s);
        lemma_instantiate_wf(c.binders, c.head, c.conditions, s);
        lemma_instantiate_closed(c.binders, c.head, c.conditions, s);
        lemma_unify_dg_wf(s1, h, d);
        if let Some(s2) = sp_unify_domain_goal(s1, h, d) {
            lemma_wf_slg_conditions(env, conds, s2, fuel, forest);
        }
    }
}

/// Condition-list form of `lemma_wf_slg_goal`.
pub proof fn lemma_wf_slg_conditions(
    env: List<crate::ir::Clause>,
    conds: List<DomainGoal>,
    s: Seq<Option<Ty>>,
    fuel: usize,
    forest: Seq<crate::slg::TableV>,
)
    requires
        subst_wf(s),
        env_scoped(env),
        crate::ir::dg_list_closed(conds),
    ensures
        subst_wf(crate::slg::sp_slg_conditions(env, conds, s, fuel, forest).1),
    decreases fuel, 7nat, crate::ir::list_len(conds),
{
    match conds {
        List::Nil => {},
        List::Cons(d, rest) => {
            crate::program::lemma_closed_wf_dg(d, List::Nil);
            lemma_wf_slg_domain(env, d, s, fuel, forest);
            let (o1, s1, f1, u1) = sp_slg_domain(env, d, s, fuel, forest);
            let u1c: usize = if u1 <= fuel {
                u1
            } else {
                fuel
            };
            match o1 {
                crate::ir::Outcome::Unique => {
                    lemma_wf_slg_conditions(env, *rest, s1, u1c, f1);
                },
                crate::ir::Outcome::Ambiguous => {
                    lemma_wf_slg_conditions(env, *rest, s, u1c, f1);
                },
                _ => {},
            }
        },
    }
}

/// Canonicalization preserves well-formedness: it renames free variables and
/// touches nothing else.
pub proof fn lemma_canon_wf_ty(t: Ty, m: Seq<usize>, scope: List<usize>)
    requires
        crate::program::sp_ty_wf(t, scope, true),
    ensures
        crate::program::sp_ty_wf(crate::canonical::sp_canon_ty(t, m).0, scope, true),
    decreases t,
{
    match t {
        Ty::Var(_) => {},
        Ty::Bound(_) => {},
        Ty::App { ctor: _, args } => {
            lemma_canon_wf_ty_list(*args, m, scope);
        },
    }
}

/// List form of `lemma_canon_wf_ty`.
pub proof fn lemma_canon_wf_ty_list(l: List<Ty>, m: Seq<usize>, scope: List<usize>)
    requires
        crate::program::sp_ty_list_wf(l, scope, true),
    ensures
        crate::program::sp_ty_list_wf(crate::canonical::sp_canon_ty_list(l, m).0, scope, true),
    decreases l,
{
    match l {
        List::Nil => {},
        List::Cons(t, rest) => {
            let (t1, m1) = crate::canonical::sp_canon_ty(t, m);
            lemma_canon_wf_ty(t, m, scope);
            lemma_canon_wf_ty_list(*rest, m1, scope);
        },
    }
}

/// Domain-goal form of `lemma_canon_wf_ty`.
pub proof fn lemma_canon_wf_dg(d: DomainGoal, m: Seq<usize>, scope: List<usize>)
    requires
        crate::program::sp_dg_wf(d, scope, true),
    ensures
        crate::program::sp_dg_wf(crate::canonical::sp_canon_domain_goal(d, m).0, scope, true),
{
    match d {
        DomainGoal::Implemented(tr) => {
            lemma_canon_wf_ty_list(tr.args, m, scope);
        },
        DomainGoal::WellFormed(tr) => {
            lemma_canon_wf_ty_list(tr.args, m, scope);
        },
        DomainGoal::TermsEq { a, b } => {
            let (a1, m1) = crate::canonical::sp_canon_ty(a, m);
            lemma_canon_wf_ty(a, m, scope);
            lemma_canon_wf_ty(b, m1, scope);
        },
    }
}

/// Domain-goal-list form of `lemma_canon_wf_ty`.
pub proof fn lemma_canon_wf_dg_list(l: List<DomainGoal>, m: Seq<usize>, scope: List<usize>)
    requires
        crate::program::sp_dg_list_wf(l, scope, true),
    ensures
        crate::program::sp_dg_list_wf(
            crate::canonical::sp_canon_domain_goal_list(l, m).0,
            scope,
            true,
        ),
    decreases l,
{
    match l {
        List::Nil => {},
        List::Cons(d, rest) => {
            let (d1, m1) = crate::canonical::sp_canon_domain_goal(d, m);
            lemma_canon_wf_dg(d, m, scope);
            lemma_canon_wf_dg_list(*rest, m1, scope);
        },
    }
}

/// Clause form of `lemma_canon_wf_ty`.
pub proof fn lemma_canon_wf_clause(c: crate::ir::Clause, m: Seq<usize>, scope: List<usize>)
    requires
        crate::program::sp_clause_wf(c, scope, true),
    ensures
        crate::program::sp_clause_wf(crate::canonical::sp_canon_clause(c, m).0, scope, true),
{
    let ext = crate::program::sp_scope_extend(c.binders, scope);
    let (h1, m1) = crate::canonical::sp_canon_domain_goal(c.head, m);
    lemma_canon_wf_dg(c.head, m, ext);
    lemma_canon_wf_dg_list(c.conditions, m1, ext);
}

/// Clause-list form of `lemma_canon_wf_ty`.
pub proof fn lemma_canon_wf_clause_list(l: List<crate::ir::Clause>, m: Seq<usize>, scope: List<usize>)
    requires
        crate::program::sp_clause_list_wf(l, scope, true),
    ensures
        crate::program::sp_clause_list_wf(
            crate::canonical::sp_canon_clause_list(l, m).0,
            scope,
            true,
        ),
    decreases l,
{
    match l {
        List::Nil => {},
        List::Cons(c, rest) => {
            let (c1, m1) = crate::canonical::sp_canon_clause(c, m);
            lemma_canon_wf_clause(c, m, scope);
            lemma_canon_wf_clause_list(*rest, m1, scope);
        },
    }
}

/// Goal form of `lemma_canon_wf_ty`.
pub proof fn lemma_canon_wf_goal(g: Goal, m: Seq<usize>, scope: List<usize>)
    requires
        crate::program::sp_goal_wf(g, scope),
    ensures
        crate::program::sp_goal_wf(crate::canonical::sp_canon_goal(g, m).0, scope),
    decreases g,
{
    match g {
        Goal::Domain(d) => {
            lemma_canon_wf_dg(d, m, scope);
        },
        Goal::And(a, b) => {
            let (a1, m1) = crate::canonical::sp_canon_goal(*a, m);
            lemma_canon_wf_goal(*a, m, scope);
            lemma_canon_wf_goal(*b, m1, scope);
        },
        Goal::Implies(cs, b) => {
            let (cs1, m1) = crate::canonical::sp_canon_clause_list(cs, m);
            lemma_canon_wf_clause_list(cs, m, scope);
            lemma_canon_wf_goal(*b, m1, scope);
        },
        Goal::ForAll(v, b) => {
            lemma_canon_wf_goal(*b, m, List::Cons(v, Box::new(scope)));
        },
        Goal::Exists(v, b) => {
            lemma_canon_wf_goal(*b, m, List::Cons(v, Box::new(scope)));
        },
    }
}

/// A scoped goal under an open scope of still-bound quantifier variables;
/// `goal_scoped` is the closed case.
pub open spec fn sp_goal_sc(g: Goal, scope: List<usize>) -> bool
    decreases g,
{
    match g {
        Goal::Domain(d) => crate::program::sp_dg_wf(d, scope, true),
        Goal::And(a, b) => sp_goal_sc(*a, scope) && sp_goal_sc(*b, scope),
        Goal::Implies(cs, b) => crate::program::sp_clause_list_wf(cs, scope, true) && sp_goal_sc(
            *b,
            scope,
        ),
        Goal::ForAll(_, _) => true,
        Goal::Exists(_, _) => true,
    }
}

/// At the empty scope, scoped goals are exactly `goal_scoped`.
pub proof fn lemma_goal_sc_nil(g: Goal)
    requires
        sp_goal_sc(g, List::Nil),
    ensures
        goal_scoped(g),
    decreases g,
{
    match g {
        Goal::Domain(_) => {},
        Goal::And(a, b) => {
            lemma_goal_sc_nil(*a);
            lemma_goal_sc_nil(*b);
        },
        Goal::Implies(_, b) => {
            lemma_goal_sc_nil(*b);
        },
        Goal::ForAll(_, _) => {},
        Goal::Exists(_, _) => {},
    }
}

/// Binders stay distinct from a scope that grew no new names.
pub proof fn lemma_binders_ok_mono(bs: List<usize>, sc1: List<usize>, sc2: List<usize>)
    requires
        crate::program::sp_binders_ok(bs, sc1),
        forall|b: usize| #[trigger] crate::program::sp_scope_contains(sc2, b)
            ==> crate::program::sp_scope_contains(sc1, b),
    ensures
        crate::program::sp_binders_ok(bs, sc2),
    decreases bs,
{
    match bs {
        List::Nil => {},
        List::Cons(v, rest) => {
            assert forall|b: usize|
                #[trigger] crate::program::sp_scope_contains(List::Cons(v, Box::new(sc2)), b)
                implies crate::program::sp_scope_contains(List::Cons(v, Box::new(sc1)), b) by {
                if b != v {
                    assert(crate::program::sp_scope_contains(sc2, b));
                    assert(crate::program::sp_scope_contains(sc1, b));
                }
            }
            lemma_binders_ok_mono(*rest, List::Cons(v, Box::new(sc1)), List::Cons(v, Box::new(sc2)));
        },
    }
}

/// Replacing a scoped variable with a closed term in a clause moves its
/// well-formedness from the larger scope to the one without that name.
pub proof fn lemma_replace_sc_clause(
    c: crate::ir::Clause,
    scope1: List<usize>,
    scope2: List<usize>,
    v: usize,
    rep: Ty,
)
    requires
        crate::program::sp_clause_wf(c, scope1, true),
        ty_closed(rep),
        forall|b: usize| b != v && #[trigger] crate::program::sp_scope_contains(scope1, b)
            ==> crate::program::sp_scope_contains(scope2, b),
        forall|b: usize| #[trigger] crate::program::sp_scope_contains(scope2, b)
            ==> crate::program::sp_scope_contains(scope1, b),
    ensures
        crate::program::sp_clause_wf(crate::subst::sp_replace_clause(c, true, v, rep), scope2, true),
{
    lemma_binders_ok_mono(c.binders, scope1, scope2);
    let ext1 = crate::program::sp_scope_extend(c.binders, scope1);
    let ext2 = crate::program::sp_scope_extend(c.binders, scope2);
    assert forall|b: usize|
        b != v && #[trigger] crate::program::sp_scope_contains(ext1, b)
        implies crate::program::sp_scope_contains(ext2, b) by {
        crate::program::lemma_scope_extend_contains(c.binders, scope1, b);
        crate::program::lemma_scope_extend_contains(c.binders, scope2, b);
    }
    crate::program::lemma_replace_scope_dg(c.head, ext1, ext2, v, rep);
    crate::program::lemma_replace_scope_dg_list(c.conditions, ext1, ext2, v, rep);
}

/// Clause-list form of `lemma_replace_sc_clause`.
pub proof fn lemma_replace_sc_clause_list(
    l: List<crate::ir::Clause>,
    scope1: List<usize>,
    scope2: List<usize>,
    v: usize,
    rep: Ty,
)
    requires
        crate::program::sp_clause_list_wf(l, scope1, true),
        ty_closed(rep),
        forall|b: usize| b != v && #[trigger] crate::program::sp_scope_contains(scope1, b)
            ==> crate::program::sp_scope_contains(scope2, b),
        forall|b: usize| #[trigger] crate::program::sp_scope_contains(scope2, b)
            ==> crate::program::sp_scope_contains(scope1, b),
    ensures
        crate::program::sp_clause_list_wf(
            crate::subst::sp_replace_clause_list(l, true, v, rep),
            scope2,
            true,
        ),
    decreases l,
{
    match l {
        List::Nil => {},
        List::Cons(c, rest) => {
            lemma_replace_sc_clause(c, scope1, scope2, v, rep);
            lemma_replace_sc_clause_list(*rest, scope1, scope2, v, rep);
        },
    }
}

/// Goal form of `lemma_replace_sc_clause`.
pub proof fn lemma_replace_sc_goal(
    g: Goal,
    scope1: List<usize>,
    scope2: List<usize>,
    v: usize,
    rep: Ty,
)
    requires
        sp_goal_sc(g, scope1),
        ty_closed(rep),
        forall|b: usize| b != v && #[trigger] crate::program::sp_scope_contains(scope1, b)
            ==> crate::program::sp_scope_contains(scope2, b),
        forall|b: usize| #[trigger] crate::program::sp_scope_contains(scope2, b)
            ==> crate::program::sp_scope_contains(scope1, b),
    ensures
        sp_goal_sc(sp_replace_goal(g, v, rep), scope2),
    decreases g,
{
    match g {
        Goal::Domain(d) => {
            crate::program::lemma_replace_scope_dg(d, scope1, scope2, v, rep);
        },
        Goal::And(a, b) => {
            lemma_replace_sc_goal(*a, scope1, scope2, v, rep);
            lemma_replace_sc_goal(*b, scope1, scope2, v, rep);
        },
        Goal::Implies(cs, b) => {
            lemma_replace_sc_clause_list(cs, scope1, scope2, v, rep);
            lemma_replace_sc_goal(*b, scope1, scope2, v, rep);
        },
        Goal::ForAll(_, _) => {},
        Goal::Exists(_, _) => {},
    }
}

/// Instantiation turns a well-formed goal into a scoped one: every quantifier
/// variable it eliminates leaves the scope.
pub proof fn lemma_inst_goal_sc(g: Goal, s: Seq<Option<Ty>>, pc: usize, scope: List<usize>)
    requires
        crate::program::sp_goal_wf(g, scope),
    ensures
        sp_inst_goal(g, s, pc) matches Some(t) ==> sp_goal_sc(t.0, scope),
    decreases g,
{
    match g {
        Goal::Domain(_) => {},
        Goal::And(a, b) => {
            lemma_inst_goal_sc(*a, s, pc, scope);
            if let Some((a1, s1, p1)) = sp_inst_goal(*a, s, pc) {
                lemma_inst_goal_sc(*b, s1, p1, scope);
            }
        },
        Goal::Implies(_, b) => {
            lemma_inst_goal_sc(*b, s, pc, scope);
        },
        Goal::Exists(v, b) => {
            let inner = List::Cons(v, Box::new(scope));
            lemma_inst_goal_sc(*b, s, pc, inner);
            if let Some((b1, s1, p1)) = sp_inst_goal(*b, s, pc) {
                let fresh = Ty::Var(s1.len() as usize);
                lemma_replace_sc_goal(b1, inner, scope, v, fresh);
            }
        },
        Goal::ForAll(v, b) => {
            let inner = List::Cons(v, Box::new(scope));
            lemma_inst_goal_sc(*b, s, pc, inner);
            if let Some((b1, s1, p1)) = sp_inst_goal(*b, s, pc) {
                if p1 < crate::ir::PLACEHOLDER_LIMIT {
                    let ph = Ty::App {
                        ctor: (crate::ir::PLACEHOLDER_BASE + p1 as u64) as u64,
                        args: Box::new(List::Nil),
                    };
                    lemma_replace_sc_goal(b1, inner, scope, v, ph);
                }
            }
        },
    }
}

/// Instantiation keeps the substitution well-formed: it only opens fresh
/// slots.
pub proof fn lemma_inst_goal_subst_wf(g: Goal, s: Seq<Option<Ty>>, pc: usize)
    requires
        subst_wf(s),
    ensures
        sp_inst_goal(g, s, pc) matches Some(t) ==> subst_wf(t.1),
    decreases g,
{
    match g {
        Goal::Domain(_) => {},
        Goal::And(a, b) => {
            lemma_inst_goal_subst_wf(*a, s, pc);
            if let Some((a1, s1, p1)) = sp_inst_goal(*a, s, pc) {
                lemma_inst_goal_subst_wf(*b, s1, p1);
            }
        },
        Goal::Implies(_, b) => {
            lemma_inst_goal_subst_wf(*b, s, pc);
        },
        Goal::Exists(_, b) => {
            lemma_inst_goal_subst_wf(*b, s, pc);
            if let Some((b1, s1, p1)) = sp_inst_goal(*b, s, pc) {
                lemma_push_none_wf(s1);
            }
        },
        Goal::ForAll(_, b) => {
            lemma_inst_goal_subst_wf(*b, s, pc);
        },
    }
}

/// The root link: on well-formed input, whatever substitution either
/// strategy's search constructs for the root query is well-formed — so the
/// round-trip laws apply to the substitution a unique root answer carries.
pub proof fn lemma_root_subst_wf(env: Environment, g: Goal, depth: usize, max_size: usize)
    requires
        crate::program::sp_env_wf(env.clauses),
        crate::program::sp_goal_wf(g, List::Nil),
    ensures
        ({
            let (g1, m) = crate::canonical::sp_canon_goal(g, Seq::<usize>::empty());
            let s0 = Seq::new(m.len(), |i: int| None::<Ty>);
            match sp_inst_goal(g1, s0, crate::solve::sp_ph_floor_goal(g1)) {
                None => true,
                Some((g2, s1, _pc)) => subst_wf(
                    sp_solve_goal(env.clauses, g2, s1, depth, Seq::<DomainGoal>::empty()).1,
                ) && subst_wf(
                    sp_slg_goal(env.clauses, g2, s1, max_size, Seq::<crate::slg::TableV>::empty()).1,
                ),
            }
        }),
{
    crate::program::lemma_wf_allow_var_clause_list(env.clauses, List::Nil);
    let (g1, m) = crate::canonical::sp_canon_goal(g, Seq::<usize>::empty());
    lemma_canon_wf_goal(g, Seq::<usize>::empty(), List::Nil);
    let s0 = Seq::new(m.len(), |i: int| None::<Ty>);
    assert(subst_wf(s0));
    let pc0 = crate::solve::sp_ph_floor_goal(g1);
    lemma_inst_goal_sc(g1, s0, pc0, List::Nil);
    lemma_inst_goal_subst_wf(g1, s0, pc0);
    if let Some((g2, s1, _pc)) = sp_inst_goal(g1, s0, pc0) {
        lemma_goal_sc_nil(g2);
        lemma_wf_solve_goal(env.clauses, g2, s1, depth, Seq::<DomainGoal>::empty());
        lemma_wf_slg_goal(env.clauses, g2, s1, max_size, Seq::<crate::slg::TableV>::empty());
    }
}

/// Round trip for the recursive search's own answers: the substitution of a
/// unique answer, re-applied to a closed domain goal of the query, unifies
/// against that goal with no change and no further subgoals.
pub proof fn lemma_round_trip_solver(
    env: List<crate::ir::Clause>,
    g: Goal,
    s: Seq<Option<Ty>>,
    depth: usize,
    stack: Seq<DomainGoal>,
    d: DomainGoal,
)
    requires
        subst_wf(s),
        env_scoped(env),
        goal_scoped(g),
        dg_closed(d),
        dg_tm_size(d) <= usize::MAX,
    ensures
        ({
            let (o, s2) = sp_solve_goal(env, g, s, depth, stack);
            sp_unify_domain_goal(s2, sp_apply_domain_goal(s2, d), d) == Some(s2)
        }),
{
    lemma_wf_solve_goal(env, g, s, depth, stack);
    let (o, s2) = sp_solve_goal(env, g, s, depth, stack);
    lemma_round_trip_domain_goal(s2, d);
}

/// Unification preserves well-formedness: starting from a well-formed
/// substitution and closed terms, whatever substitution a successful
/// unification returns is well-formed again — so the round-trip laws below
/// apply to it in turn.
pub proof fn lemma_unify_preserves_wf(s: Seq<Option<Ty>>, a: Ty, b: Ty)
    requires
        subst_wf(s),
        ty_closed(a),
        ty_closed(b),
    ensures
        sp_unify(s, a, b) matches Some(s2) ==> subst_wf(s2) && s2.len() == s.len(),
{
    crate::unify::lemma_unify_wf(crate::unify::unify_fuel(a, b) as nat, s, a, b);
}

/// Round trip, term level: a substitution a proof constructed, re-applied to
/// a term of the goal, unifies against that term with no change — no further
/// subgoals and no new bindings.
pub proof fn lemma_round_trip(s: Seq<Option<Ty>>, t: Ty)
    requires
        subst_wf(s),
        ty_closed(t),
        ty_size(t) <= usize::MAX,
    ensures
        sp_unify(s, sp_apply(s, t), t) == Some(s),
{
    let a = sp_apply(s, t);
    lemma_apply_resolved(s, t);
    lemma_resolved_apply_id(s, a);
    lemma_apply_closed(s, t);
    lemma_size_cap_exact(t);
    let fuel = crate::unify::unify_fuel(a, t);
    assert(fuel >= ty_size(t));
    lemma_unify_complete(fuel as nat, s, a, t);
}

/// Round trip over an argument list.
pub proof fn lemma_round_trip_args(s: Seq<Option<Ty>>, l: List<Ty>)
    requires
        subst_wf(s),
        ty_list_closed(l),
        ty_list_size(l) <= usize::MAX,
    ensures
        sp_unify_args(s, sp_apply_list(s, l), l) == Some(s),
{
    let a = sp_apply_list(s, l);
    lemma_apply_resolved_list(s, l);
    lemma_resolved_apply_id_list(s, a);
    lemma_apply_closed_list(s, l);
    lemma_size_cap_exact_list(l);
    let fuel = crate::unify::sp_add_cap(
        crate::unify::sp_ty_list_size_cap(a),
        crate::unify::sp_ty_list_size_cap(l),
    );
    assert(fuel >= ty_list_size(l));
    lemma_unify_complete_list(fuel as nat, s, a, l);
}

/// Round trip, goal level: the substitution of a unique solution, re-applied
/// to the domain goal it solved, unifies against that goal under the same
/// substitution with no further subgoals — the produced proof is
/// self-consistent.
pub proof fn lemma_round_trip_domain_goal(s: Seq<Option<Ty>>, d: DomainGoal)
    requires
        subst_wf(s),
        dg_closed(d),
        dg_tm_size(d) <= usize::MAX,
    ensures
        sp_unify_domain_goal(s, sp_apply_domain_goal(s, d), d) == Some(s),
{
    match d {
        DomainGoal::Implemented(tr) => {
            lemma_round_trip_args(s, tr.args);
        },
        DomainGoal::WellFormed(tr) => {
            lemma_round_trip_args(s, tr.args);
        },
        DomainGoal::TermsEq { a, b } => {
            lemma_round_trip(s, a);
            lemma_round_trip(s, b);
        },
    }
}

} // verus!
