//! The engine's entry point: a goal is checked for well-formedness,
//! canonicalized, stripped of its quantifiers by instantiation, handed to the
//! chosen strategy, and the raw outcome is packaged as a `Solution`.

use vstd::prelude::*;

use crate::canonical::canonicalize_goal;
use crate::canonical::sp_canon_goal;
use crate::ir::DomainGoal;
use crate::ir::Environment;
use crate::ir::Goal;
use crate::ir::List;
use crate::ir::Outcome;
use crate::ir::PLACEHOLDER_BASE;
use crate::ir::PLACEHOLDER_LIMIT;
use crate::ir::Solution;
use crate::ir::SolveError;
use crate::ir::SolverChoice;
use crate::ir::Ty;
use crate::ir::clone_ty;
use crate::program::env_wf;
use crate::program::goal_wf;
use crate::program::sp_env_wf;
use crate::program::sp_goal_wf;
use crate::recursive::cache_ok;
use crate::recursive::sp_solve_goal;
use crate::recursive::solve_goal;
use crate::recursive::CacheEntry;
use crate::slg::forest_view;
use crate::slg::slg_goal;
use crate::slg::sp_slg_goal;
use crate::slg::Table;
use crate::subst::replace_goal;
use crate::subst::sp_replace_goal;

verus! {

/// Instantiation of a goal's quantifiers, innermost first: an existential
/// variable becomes a fresh unbound variable of the substitution, a universal
/// variable becomes a fresh placeholder constant. `None` when the query would
/// exceed the placeholder budget.
pub open spec fn sp_inst_goal(g: Goal, s: Seq<Option<Ty>>, pc: usize) -> Option<
    (Goal, Seq<Option<Ty>>, usize),
>
    decreases g,
{
    match g {
        Goal::Domain(d) => Some((Goal::Domain(d), s, pc)),
        Goal::And(a, b) => match sp_inst_goal(*a, s, pc) {
            None => None,
            Some((a1, s1, p1)) => match sp_inst_goal(*b, s1, p1) {
                None => None,
                Some((b1, s2, p2)) => Some((Goal::And(Box::new(a1), Box::new(b1)), s2, p2)),
            },
        },
        Goal::Implies(cs, b) => match sp_inst_goal(*b, s, pc) {
            None => None,
            Some((b1, s1, p1)) => Some((Goal::Implies(cs, Box::new(b1)), s1, p1)),
        },
        Goal::Exists(v, b) => match sp_inst_goal(*b, s, pc) {
            None => None,
            Some((b1, s1, p1)) => {
                let fresh = Ty::Var(s1.len() as usize);
                Some((sp_replace_goal(b1, v, fresh), s1.push(None), p1))
            },
        },
        Goal::ForAll(v, b) => match sp_inst_goal(*b, s, pc) {
            None => None,
            Some((b1, s1, p1)) => if p1 >= PLACEHOLDER_LIMIT {
                None
            } else {
                let ph = Ty::App {
                    ctor: (PLACEHOLDER_BASE + p1 as u64) as u64,
                    args: Box::new(List::Nil),
                };
                Some((sp_replace_goal(b1, v, ph), s1, (p1 + 1) as usize))
            },
        },
    }
}

/// Executable quantifier instantiation.
pub fn inst_goal(g: &Goal, s: Vec<Option<Ty>>, pc: usize) -> (r: Option<
    (Goal, Vec<Option<Ty>>, usize),
>)
    ensures
        match r {
            None => sp_inst_goal(*g, s@, pc) is None,
            Some(p) => sp_inst_goal(*g, s@, pc) == Some((p.0, p.1@, p.2)),
        },
    decreases *g,
{
    match g {
        Goal::Domain(d) => Some((Goal::Domain(crate::ir::clone_domain_goal(d)), s, pc)),
        Goal::And(a, b) => match inst_goal(a, s, pc) {
            None => None,
            Some((a1, s1, p1)) => match inst_goal(b, s1, p1) {
                None => None,
                Some((b1, s2, p2)) => Some((Goal::And(Box::new(a1), Box::new(b1)), s2, p2)),
            },
        },
        Goal::Implies(cs, b) => match inst_goal(b, s, pc) {
            None => None,
            Some((b1, s1, p1)) => Some(
                (Goal::Implies(crate::ir::clone_clause_list(cs), Box::new(b1)), s1, p1),
            ),
        },
        Goal::Exists(v, b) => match inst_goal(b, s, pc) {
            None => None,
            Some((b1, s1, p1)) => {
                let fresh = Ty::Var(s1.len());
                let b2 = replace_goal(&b1, *v, &fresh);
                let mut s2 = s1;
                s2.push(None);
                Some((b2, s2, p1))
            },
        },
        Goal::ForAll(v, b) => match inst_goal(b, s, pc) {
            None => None,
            Some((b1, s1, p1)) => {
                if p1 >= PLACEHOLDER_LIMIT {
                    None
                } else {
                    let ph = Ty::App {
                        ctor: PLACEHOLDER_BASE + p1 as u64,
                        args: Box::new(List::Nil),
                    };
                    let b2 = replace_goal(&b1, *v, &ph);
                    Some((b2, s1, p1 + 1))
                }
            },
        },
    }
}

/// The least placeholder index above the placeholders a term mentions, capped
/// at the placeholder budget.
pub open spec fn sp_ph_floor_ty(t: Ty) -> usize
    decreases t,
{
    match t {
        Ty::Var(_) => 0,
        Ty::Bound(_) => 0,
        Ty::App { ctor, args } => {
            let here: usize = if ctor >= PLACEHOLDER_BASE {
                if (ctor - PLACEHOLDER_BASE) as usize >= PLACEHOLDER_LIMIT {
                    PLACEHOLDER_LIMIT
                } else {
                    ((ctor - PLACEHOLDER_BASE) as usize + 1) as usize
                }
            } else {
                0
            };
            let inner = sp_ph_floor_ty_list(*args);
            if here >= inner {
                here
            } else {
                inner
            }
        },
    }
}

/// Placeholder floor of a term list.
pub open spec fn sp_ph_floor_ty_list(l: List<Ty>) -> usize
    decreases l,
{
    match l {
        List::Nil => 0,
        List::Cons(t, rest) => {
            let a = sp_ph_floor_ty(t);
            let b = sp_ph_floor_ty_list(*rest);
            if a >= b {
                a
            } else {
                b
            }
        },
    }
}

/// Placeholder floor of a domain goal.
pub open spec fn sp_ph_floor_dg(d: DomainGoal) -> usize {
    match d {
        DomainGoal::Implemented(tr) => sp_ph_floor_ty_list(tr.args),
        DomainGoal::WellFormed(tr) => sp_ph_floor_ty_list(tr.args),
        DomainGoal::TermsEq { a, b } => {
            let x = sp_ph_floor_ty(a);
            let y = sp_ph_floor_ty(b);
            if x >= y {
                x
            } else {
                y
            }
        },
    }
}

/// Placeholder floor of a list of domain goals.
pub open spec fn sp_ph_floor_dg_list(l: List<DomainGoal>) -> usize
    decreases l,
{
    match l {
        List::Nil => 0,
        List::Cons(d, rest) => {
            let a = sp_ph_floor_dg(d);
            let b = sp_ph_floor_dg_list(*rest);
            if a >= b {
                a
            } else {
                b
            }
        },
    }
}

/// Placeholder floor of a list of clauses.
pub open spec fn sp_ph_floor_clause_list(l: List<crate::ir::Clause>) -> usize
    decreases l,
{
    match l {
        List::Nil => 0,
        List::Cons(c, rest) => {
            let h = sp_ph_floor_dg(c.head);
            let cs = sp_ph_floor_dg_list(c.conditions);
            let a = if h >= cs {
                h
            } else {
                cs
            };
            let b = sp_ph_floor_clause_list(*rest);
            if a >= b {
                a
            } else {
                b
            }
        },
    }
}

/// Placeholder floor of a goal: the counter fresh placeholders are minted
/// from, so that they never collide with the placeholders peeling put there.
pub open spec fn sp_ph_floor_goal(g: Goal) -> usize
    decreases g,
{
    match g {
        Goal::Domain(d) => sp_ph_floor_dg(d),
        Goal::And(a, b) => {
            let x = sp_ph_floor_goal(*a);
            let y = sp_ph_floor_goal(*b);
            if x >= y {
                x
            } else {
                y
            }
        },
        Goal::Implies(cs, b) => {
            let x = sp_ph_floor_clause_list(cs);
            let y = sp_ph_floor_goal(*b);
            if x >= y {
                x
            } else {
                y
            }
        },
        Goal::ForAll(_, b) => sp_ph_floor_goal(*b),
        Goal::Exists(_, b) => sp_ph_floor_goal(*b),
    }
}

/// Executable placeholder floor of a term.
pub fn ph_floor_ty(t: &Ty) -> (r: usize)
    ensures
        r == sp_ph_floor_ty(*t),
    decreases *t,
{
    match t {
        Ty::Var(_) => 0,
        Ty::Bound(_) => 0,
        Ty::App { ctor, args } => {
            let here: usize = if *ctor >= PLACEHOLDER_BASE {
                if (*ctor - PLACEHOLDER_BASE) as usize >= PLACEHOLDER_LIMIT {
                    PLACEHOLDER_LIMIT
                } else {
                    (*ctor - PLACEHOLDER_BASE) as usize + 1
                }
            } else {
                0
            };
            let inner = ph_floor_ty_list(args);
            if here >= inner {
                here
            } else {
                inner
            }
        },
    }
}

/// Executable placeholder floor of a term list.
pub fn ph_floor_ty_list(l: &List<Ty>) -> (r: usize)
    ensures
        r == sp_ph_floor_ty_list(*l),
    decreases *l,
{
    match l {
        List::Nil => 0,
        List::Cons(t, rest) => {
            let a = ph_floor_ty(t);
            let b = ph_floor_ty_list(rest);
            if a >= b {
                a
            } else {
                b
            }
        },
    }
}

/// Executable placeholder floor of a domain goal.
pub fn ph_floor_dg(d: &DomainGoal) -> (r: usize)
    ensures
        r == sp_ph_floor_dg(*d),
{
    match d {
        DomainGoal::Implemented(tr) => ph_floor_ty_list(&tr.args),
        DomainGoal::WellFormed(tr) => ph_floor_ty_list(&tr.args),
        DomainGoal::TermsEq { a, b } => {
            let x = ph_floor_ty(a);
            let y = ph_floor_ty(b);
            if x >= y {
                x
            } else {
                y
            }
        },
    }
}

/// Executable placeholder floor of a list of domain goals.
pub fn ph_floor_dg_list(l: &List<DomainGoal>) -> (r: usize)
    ensures
        r == sp_ph_floor_dg_list(*l),
    decreases *l,
{
    match l {
        List::Nil => 0,
        List::Cons(d, rest) => {
            let a = ph_floor_dg(d);
            let b = ph_floor_dg_list(rest);
            if a >= b {
                a
            } else {
                b
            }
        },
    }
}

/// Executable placeholder floor of a list of clauses.
pub fn ph_floor_clause_list(l: &List<crate::ir::Clause>) -> (r: usize)
    ensures
        r == sp_ph_floor_clause_list(*l),
    decreases *l,
{
    match l {
        List::Nil => 0,
        List::Cons(c, rest) => {
            let h = ph_floor_dg(&c.head);
            let cs = ph_floor_dg_list(&c.conditions);
            let a = if h >= cs {
                h
            } else {
                cs
            };
            let b = ph_floor_clause_list(rest);
            if a >= b {
                a
            } else {
                b
            }
        },
    }
}

/// Executable placeholder floor of a goal.
pub fn ph_floor_goal(g: &Goal) -> (r: usize)
    ensures
        r == sp_ph_floor_goal(*g),
    decreases *g,
{
    match g {
        Goal::Domain(d) => ph_floor_dg(d),
        Goal::And(a, b) => {
            let x = ph_floor_goal(a);
            let y = ph_floor_goal(b);
            if x >= y {
                x
            } else {
                y
            }
        },
        Goal::Implies(cs, b) => {
            let x = ph_floor_clause_list(cs);
            let y = ph_floor_goal(b);
            if x >= y {
                x
            } else {
                y
            }
        },
        Goal::ForAll(_, b) => ph_floor_goal(b),
        Goal::Exists(_, b) => ph_floor_goal(b),
    }
}

/// A substitution as a list, for the solution payload.
pub open spec fn sp_list_of_seq(s: Seq<Option<Ty>>) -> List<Option<Ty>>
    decreases s.len(),
{
    if s.len() == 0 {
        List::Nil
    } else {
        List::Cons(s[0], Box::new(sp_list_of_seq(s.drop_first())))
    }
}

/// Executable conversion of a substitution's tail, from index `i` on.
pub fn list_from(s: &Vec<Option<Ty>>, i: usize) -> (r: List<Option<Ty>>)
    requires
        i <= s.len(),
    ensures
        r == sp_list_of_seq(s@.subrange(i as int, s@.len() as int)),
    decreases s.len() - i,
{
    if i == s.len() {
        proof {
            assert(s@.subrange(i as int, s@.len() as int) =~= Seq::<Option<Ty>>::empty());
        }
        List::Nil
    } else {
        let head: Option<Ty> = match &s[i] {
            Some(t) => Some(clone_ty(t)),
            None => None,
        };
        let tail = list_from(s, i + 1);
        proof {
            let sub = s@.subrange(i as int, s@.len() as int);
            assert(sub[0] == s@[i as int]);
            assert(sub.drop_first() =~= s@.subrange(i + 1 as int, s@.len() as int));
        }
        List::Cons(head, Box::new(tail))
    }
}

/// The solution reporter: a raw outcome becomes the public result shape. A
/// unique proof carries its substitution; an exceeded bound is the
/// recoverable overflow error. A floundered subtree, distinguished inside the
/// search, is reported as no solution at this boundary.
pub open spec fn sp_report(o: Outcome, s: Seq<Option<Ty>>) -> Result<Option<Solution>, SolveError> {
    match o {
        Outcome::Unique => Ok(
            Some(Solution::Unique { subst: sp_list_of_seq(s), constraints: List::Nil }),
        ),
        Outcome::Ambiguous => Ok(Some(Solution::Ambiguous)),
        Outcome::NoSolution => Ok(None),
        Outcome::Floundered => Ok(None),
        Outcome::Overflow => Err(SolveError::Overflow),
    }
}

/// Executable solution reporter.
pub fn report(o: Outcome, s: Vec<Option<Ty>>) -> (r: Result<Option<Solution>, SolveError>)
    ensures
        r == sp_report(o, s@),
{
    match o {
        Outcome::Unique => {
            let subst = list_from(&s, 0);
            proof {
                assert(s@.subrange(0, s@.len() as int) =~= s@);
            }
            Ok(Some(Solution::Unique { subst, constraints: List::Nil }))
        },
        Outcome::Ambiguous => Ok(Some(Solution::Ambiguous)),
        Outcome::NoSolution => Ok(None),
        Outcome::Floundered => Ok(None),
        Outcome::Overflow => Err(SolveError::Overflow),
    }
}

/// What solving a root goal returns, for either strategy: the one
/// specification that the executable entry point is proved to compute. The
/// result depends on the program, the environment, the goal and the chosen
/// strategy with its bound alone — in particular not on the caching flag.
pub open spec fn sp_solve_root(env: Environment, g: Goal, choice: SolverChoice) -> Result<
    Option<Solution>,
    SolveError,
> {
    if !sp_env_wf(env.clauses) || !sp_goal_wf(g, List::Nil) {
        Err(SolveError::Malformed)
    } else {
        let (g1, m) = sp_canon_goal(g, Seq::<usize>::empty());
        let s0 = Seq::new(m.len(), |i: int| None::<Ty>);
        match sp_inst_goal(g1, s0, sp_ph_floor_goal(g1)) {
            None => Err(SolveError::Overflow),
            Some((g2, s1, _pc)) => match choice {
                SolverChoice::Recursive { overflow_depth, caching_enabled: _ } => {
                    let (o, s2) = sp_solve_goal(
                        env.clauses,
                        g2,
                        s1,
                        overflow_depth,
                        Seq::<DomainGoal>::empty(),
                    );
                    sp_report(o, s2)
                },
                SolverChoice::SLG { max_size } => {
                    let (o, s2, _f, _u) = sp_slg_goal(env.clauses, g2, s1, max_size, Seq::empty());
                    sp_report(o, s2)
                },
            },
        }
    }
}

impl SolverChoice {
    /// The primary entry point: decide the goal against the environment with
    /// this strategy. The goal must already be peeled of its outermost
    /// universal quantifiers by the front end (`into_peeled_goal`); its
    /// remaining free variables are existential. A malformed environment or
    /// goal is the one hard error; an exceeded bound is the recoverable
    /// overflow error; `Ok(None)` is an exhaustive, sound failure to prove.
    pub fn solve_root_goal(&self, env: &Environment, goal: &Goal) -> (r: Result<
        Option<Solution>,
        SolveError,
    >)
        ensures
            r == sp_solve_root(*env, *goal, *self),
    {
        if !env_wf(&env.clauses) || !goal_wf(goal, &List::Nil) {
            return Err(SolveError::Malformed);
        }
        let (g1, m) = canonicalize_goal(goal);
        let mut s0: Vec<Option<Ty>> = Vec::new();
        let mut i: usize = 0;
        while i < m.len()
            invariant
                i <= m.len(),
                s0@ =~= Seq::new(i as nat, |k: int| None::<Ty>),
            decreases m.len() - i,
        {
            s0.push(None);
            i = i + 1;
        }
        proof {
            assert(s0@ =~= Seq::new(m@.len(), |k: int| None::<Ty>));
        }
        let pc0 = ph_floor_goal(&g1);
        match inst_goal(&g1, s0, pc0) {
            None => Err(SolveError::Overflow),
            Some((g2, s1, _pc)) => {
                match self {
                    SolverChoice::Recursive { overflow_depth, caching_enabled } => {
                        let stack: Vec<DomainGoal> = Vec::new();
                        let mut cache: Vec<CacheEntry> = Vec::new();
                        proof {
                            assert(stack@ =~= Seq::<DomainGoal>::empty());
                            assert(cache_ok(cache@));
                        }
                        let (o, s2) = solve_goal(
                            &env.clauses,
                            &g2,
                            s1,
                            *overflow_depth,
                            &stack,
                            *caching_enabled,
                            &mut cache,
                        );
                        report(o, s2)
                    },
                    SolverChoice::SLG { max_size } => {
                        let forest: Vec<Table> = Vec::new();
                        proof {
                            assert(forest_view(forest@) =~= Seq::<crate::slg::TableV>::empty());
                        }
                        let (o, s2, _f, _u) = slg_goal(&env.clauses, &g2, s1, *max_size, forest);
                        report(o, s2)
                    },
                }
            },
        }
    }
}

/// Peeling: strip the goal's outermost universal quantifiers, turning their
/// variables into placeholders, so that the remaining free variables are
/// existential and the goal is ready for canonicalization. The front end
/// calls this before `solve_root_goal`.
pub open spec fn sp_peeled_goal(g: Goal, pc: usize) -> Goal
    decreases g,
{
    match g {
        Goal::ForAll(v, b) => if pc >= PLACEHOLDER_LIMIT {
            Goal::ForAll(v, b)
        } else {
            sp_replace_goal(
                sp_peeled_goal(*b, (pc + 1) as usize),
                v,
                Ty::App { ctor: (PLACEHOLDER_BASE + pc as u64) as u64, args: Box::new(List::Nil) },
            )
        },
        _ => g,
    }
}

/// Executable peeling of outermost universal quantifiers.
pub fn into_peeled_goal(g: Goal, pc: usize) -> (r: Goal)
    ensures
        r == sp_peeled_goal(g, pc),
    decreases g,
{
    match g {
        Goal::ForAll(v, b) => {
            if pc >= PLACEHOLDER_LIMIT {
                Goal::ForAll(v, b)
            } else {
                let ph = Ty::App { ctor: PLACEHOLDER_BASE + pc as u64, args: Box::new(List::Nil) };
                let inner = into_peeled_goal(*b, pc + 1);
                replace_goal(&inner, v, &ph)
            }
        },
        _ => g,
    }
}

/// The textual rendering of a result: a unique solution renders beginning
/// with the word `Unique`, an absent one renders exactly
/// `No possible solution`, and errors render via their own message.
pub fn render_result(r: &Result<Option<Solution>, SolveError>) -> (out: &'static str)
    ensures
        (*r matches Ok(o) && o matches Some(sol) && sol matches Solution::Unique { .. }) ==> out@
            == "Unique"@,
        (*r matches Ok(o) && o matches Some(sol) && sol matches Solution::Ambiguous) ==> out@
            == "Ambiguous"@,
        (*r matches Ok(o) && o is None) ==> out@ == "No possible solution"@,
        (*r matches Err(e) && e matches SolveError::Overflow) ==> out@ == "Overflow"@,
        (*r matches Err(e) && e matches SolveError::Malformed) ==> out@ == "malformed program"@,
{
    match r {
        Ok(Some(Solution::Unique { .. })) => "Unique",
        Ok(Some(Solution::Ambiguous)) => "Ambiguous",
        Ok(None) => "No possible solution",
        Err(SolveError::Overflow) => "Overflow",
        Err(SolveError::Malformed) => "malformed program",
    }
}

} // verus!
