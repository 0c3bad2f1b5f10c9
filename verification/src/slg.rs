//! The tabling solver: proof search through a forest of answer tables.
//!
//! Each expansion of a domain goal opens a table keyed by the goal's
//! canonical form together with the environment it is solved under, writes
//! every answer it discovers into it, and closes it with the expansion's
//! outcome when its clauses are exhausted. A closed table is consulted before
//! any new expansion: a goal without free variables whose table is already
//! complete takes the recorded outcome instead of being re-derived. A goal
//! with free variables is re-derived in its own table, since its recorded
//! answers would have to be re-instantiated into the caller's context to be
//! reusable.
//!
//! A goal whose table is still mid-expansion has been re-entered on a cycle.
//! This solver has no strands — no suspended derivations resumed as answers
//! arrive — so a re-entered branch takes no answers and yields none: the
//! under-approximation, standing in for answer propagation around cycles,
//! that makes this strategy diverge from the recursive one on
//! self-referential obligation graphs.
//!
//! An implication extends the environment for its consequence, exactly as in
//! the recursive search, provided its hypotheses are tableable: closed,
//! program-shaped clauses. A hypothesis that constrains an inference variable
//! or a universally quantified placeholder cannot be indexed into the forest,
//! and the subtree flounders — the distinguished `Floundered` outcome, which
//! the reporter renders as no solution for that subtree.
//!
//! `max_size` bounds how many tables the forest may open; exhausting the
//! budget is an overflow outcome. The budget is drawn in clause order, so
//! near the bound which subtree overflows can depend on the order of clauses
//! in the environment; clause order never decides whether an answer exists
//! when the budget suffices.
//!
//! Within one query the forest only ever grows: a table's answer sequence is
//! extended and never retracted, a completed table never becomes incomplete
//! again, and its recorded outcome never changes (`forest_extends`, ensured
//! by every search function).

use vstd::prelude::*;

use crate::canonical::canon_domain_goal;
use crate::canonical::sp_canon_domain_goal;
use crate::ir::Clause;
use crate::ir::DomainGoal;
use crate::ir::Goal;
use crate::ir::List;
use crate::ir::Outcome;
use crate::ir::Ty;
use crate::ir::clone_clause_list;
use crate::ir::clone_domain_goal;
use crate::ir::clone_domain_goal_list;
use crate::ir::clone_subst;
use crate::ir::eq_clause_list;
use crate::ir::eq_domain_goal;
use crate::ir::goal_size;
use crate::ir::list_append;
use crate::ir::list_len;
use crate::ir::sp_list_append;
use crate::program::clause_list_wf;
use crate::program::sp_clause_list_wf;
use crate::recursive::instantiate;
use crate::recursive::sp_combine;
use crate::recursive::sp_could_apply;
use crate::recursive::could_apply;
use crate::recursive::sp_instantiate;
use crate::subst::apply_domain_goal;
use crate::subst::sp_apply_domain_goal;
use crate::unify::sp_unify_domain_goal;
use crate::unify::unify_domain_goal;

verus! {

/// One answer table: a canonical goal, the environment it is solved under,
/// the answers discovered so far, whether its expansion is finished, and the
/// outcome recorded at completion (meaningful only once complete).
pub struct Table {
    pub goal: DomainGoal,
    pub env: List<Clause>,
    pub answers: Vec<Vec<Option<Ty>>>,
    pub complete: bool,
    pub outcome: Outcome,
}

/// The mathematical view of a table.
pub type TableV = (DomainGoal, List<Clause>, Seq<Seq<Option<Ty>>>, bool, Outcome);

/// The view of one table.
pub open spec fn table_view(t: Table) -> TableV {
    (t.goal, t.env, Seq::new(t.answers@.len(), |j: int| t.answers@[j]@), t.complete, t.outcome)
}

/// The mathematical view of a forest.
pub open spec fn forest_view(f: Seq<Table>) -> Seq<TableV> {
    Seq::new(f.len(), |i: int| table_view(f[i]))
}

/// Monotone growth of a forest: tables are only added, a table's goal and
/// environment never change, its answers are only appended, a completed table
/// stays complete, and its recorded outcome never changes afterwards. This is
/// the tabling strategy's central invariant.
pub open spec fn forest_extends(f2: Seq<TableV>, f1: Seq<TableV>) -> bool {
    f1.len() <= f2.len() && forall|i: int|
        0 <= i < f1.len() ==> ((#[trigger] f2[i]).0 == f1[i].0 && f2[i].1 == f1[i].1 && f1[i].2.len()
            <= f2[i].2.len() && (forall|j: int| 0 <= j < f1[i].2.len() ==> f2[i].2[j] == f1[i].2[j])
            && (f1[i].3 ==> f2[i].3 && f2[i].4 == f1[i].4))
}

/// The first table with this goal and environment in the wanted state of
/// completion, if any.
pub open spec fn sp_table_find(f: Seq<TableV>, env: List<Clause>, key: DomainGoal, complete: bool) -> Option<
    int,
>
    decreases f.len(),
{
    if f.len() == 0 {
        None
    } else if f[0].0 == key && f[0].1 == env && f[0].3 == complete {
        Some(0)
    } else {
        match sp_table_find(f.drop_first(), env, key, complete) {
            None => None,
            Some(i) => Some(i + 1),
        }
    }
}

/// What `sp_table_find` returns: the first matching position, if any.
pub proof fn lemma_table_find_props(f: Seq<TableV>, env: List<Clause>, key: DomainGoal, complete: bool)
    ensures
        match sp_table_find(f, env, key, complete) {
            None => forall|j: int|
                0 <= j < f.len() ==> !((#[trigger] f[j]).0 == key && f[j].1 == env && f[j].3
                    == complete),
            Some(i) => 0 <= i < f.len() && f[i].0 == key && f[i].1 == env && f[i].3 == complete,
        },
    decreases f.len(),
{
    if f.len() == 0 {
    } else if f[0].0 == key && f[0].1 == env && f[0].3 == complete {
    } else {
        let rest = f.drop_first();
        lemma_table_find_props(rest, env, key, complete);
        assert(forall|j: int| 0 <= j < rest.len() ==> rest[j] == f[j + 1]);
        match sp_table_find(rest, env, key, complete) {
            None => {
                assert forall|j: int|
                    0 <= j < f.len() implies !((#[trigger] f[j]).0 == key && f[j].1 == env && f[j].3
                    == complete) by {
                    if j > 0 {
                        assert(f[j] == rest[j - 1]);
                    }
                }
            },
            Some(i) => {
                assert(f[i + 1] == rest[i]);
            },
        }
    }
}

/// A forest with one answer appended to the table at `idx`.
pub open spec fn sp_add_answer(f: Seq<TableV>, idx: int, ans: Seq<Option<Ty>>) -> Seq<TableV> {
    if 0 <= idx < f.len() {
        f.update(idx, (f[idx].0, f[idx].1, f[idx].2.push(ans), f[idx].3, f[idx].4))
    } else {
        f
    }
}

/// A forest with the table at `idx` closed, recording the expansion's
/// outcome. A table already complete is left as it stands.
pub open spec fn sp_mark_complete(f: Seq<TableV>, idx: int, o: Outcome) -> Seq<TableV> {
    if 0 <= idx < f.len() && !f[idx].3 {
        f.update(idx, (f[idx].0, f[idx].1, f[idx].2, true, o))
    } else {
        f
    }
}

/// Extension is transitive.
pub proof fn lemma_extends_trans(f3: Seq<TableV>, f2: Seq<TableV>, f1: Seq<TableV>)
    requires
        forest_extends(f3, f2),
        forest_extends(f2, f1),
    ensures
        forest_extends(f3, f1),
{
}

/// Opening a new table extends the forest.
pub proof fn lemma_extends_push(f: Seq<TableV>, t: TableV)
    ensures
        forest_extends(f.push(t), f),
{
}

/// Appending an answer extends the forest.
pub proof fn lemma_extends_add_answer(f: Seq<TableV>, idx: int, ans: Seq<Option<Ty>>)
    ensures
        forest_extends(sp_add_answer(f, idx, ans), f),
{
}

/// Closing a table extends the forest.
pub proof fn lemma_extends_mark_complete(f: Seq<TableV>, idx: int, o: Outcome)
    ensures
        forest_extends(sp_mark_complete(f, idx, o), f),
{
}

/// The tabling search over a compound goal.
pub open spec fn sp_slg_goal(
    env: List<Clause>,
    g: Goal,
    s: Seq<Option<Ty>>,
    fuel: usize,
    forest: Seq<TableV>,
) -> (Outcome, Seq<Option<Ty>>, Seq<TableV>, usize)
    decreases fuel, 10nat, goal_size(g),
{
    match g {
        Goal::Domain(d) => sp_slg_domain(env, d, s, fuel, forest),
        Goal::And(a, b) => {
            let (o1, s1, f1, u1) = sp_slg_goal(env, *a, s, fuel, forest);
            let u1c = if u1 <= fuel {
                u1
            } else {
                fuel
            };
            match o1 {
                Outcome::Unique => {
                    let (o2, s2, f2, u2) = sp_slg_goal(env, *b, s1, u1c, f1);
                    match o2 {
                        Outcome::Unique => (Outcome::Unique, s2, f2, u2),
                        Outcome::Ambiguous => (Outcome::Ambiguous, s, f2, u2),
                        Outcome::NoSolution => (Outcome::NoSolution, s, f2, u2),
                        Outcome::Floundered => (Outcome::Floundered, s, f2, u2),
                        Outcome::Overflow => (Outcome::Overflow, s, f2, u2),
                    }
                },
                Outcome::Ambiguous => {
                    let (o2, _, f2, u2) = sp_slg_goal(env, *b, s, u1c, f1);
                    match o2 {
                        Outcome::NoSolution => (Outcome::NoSolution, s, f2, u2),
                        Outcome::Floundered => (Outcome::Floundered, s, f2, u2),
                        Outcome::Overflow => (Outcome::Overflow, s, f2, u2),
                        _ => (Outcome::Ambiguous, s, f2, u2),
                    }
                },
                Outcome::NoSolution => (Outcome::NoSolution, s, f1, u1c),
                Outcome::Floundered => (Outcome::Floundered, s, f1, u1c),
                Outcome::Overflow => (Outcome::Overflow, s, f1, u1c),
            }
        },
        Goal::Implies(cs, b) => {
            if sp_clause_list_wf(cs, List::Nil, false) {
                sp_slg_goal(sp_list_append(env, cs), *b, s, fuel, forest)
            } else {
                (Outcome::Floundered, s, forest, fuel)
            }
        },
        Goal::ForAll(_, _) => (Outcome::NoSolution, s, forest, fuel),
        Goal::Exists(_, _) => (Outcome::NoSolution, s, forest, fuel),
    }
}

/// The tabling search over a domain goal: consult a completed table, detect a
/// cycle against a mid-expansion table, check the table budget, then open a
/// fresh table filled by clause expansion.
pub open spec fn sp_slg_domain(
    env: List<Clause>,
    d: DomainGoal,
    s: Seq<Option<Ty>>,
    fuel: usize,
    forest: Seq<TableV>,
) -> (Outcome, Seq<Option<Ty>>, Seq<TableV>, usize)
    decreases fuel, 6nat, 0nat,
{
    let d1 = sp_apply_domain_goal(s, d);
    let (key, km) = sp_canon_domain_goal(d1, Seq::<usize>::empty());
    let done = sp_table_find(forest, env, key, true);
    if km.len() == 0 && done is Some {
        (forest[done->0].4, s, forest, fuel)
    } else if sp_table_find(forest, env, key, false) is Some {
        (Outcome::NoSolution, s, forest, fuel)
    } else if fuel == 0 {
        (Outcome::Overflow, s, forest, fuel)
    } else {
        let idx = forest.len() as int;
        let f1 = forest.push((key, env, Seq::empty(), false, Outcome::NoSolution));
        let (o, s1, f2, u2) = sp_slg_clauses(env, env, d1, s, idx, (fuel - 1) as usize, f1);
        (o, s1, sp_mark_complete(f2, idx, o), u2)
    }
}

/// The tabling enumeration of the environment's clauses.
pub open spec fn sp_slg_clauses(
    env: List<Clause>,
    rest: List<Clause>,
    d: DomainGoal,
    s: Seq<Option<Ty>>,
    idx: int,
    fuel: usize,
    forest: Seq<TableV>,
) -> (Outcome, Seq<Option<Ty>>, Seq<TableV>, usize)
    decreases fuel, 9nat, list_len(rest),
{
    match rest {
        List::Nil => (Outcome::NoSolution, s, forest, fuel),
        List::Cons(c, tail) => {
            let (o1, s1, f1, u1) = sp_slg_clause(env, c, d, s, idx, fuel, forest);
            let u1c = if u1 <= fuel {
                u1
            } else {
                fuel
            };
            let (o2, s2, f2, u2) = sp_slg_clauses(env, *tail, d, s, idx, u1c, f1);
            let joined = sp_combine((o1, s1), (o2, s2), s);
            (joined.0, joined.1, f2, u2)
        },
    }
}

/// One tabled alternative; a successful proof writes its answer into the
/// table being expanded.
pub open spec fn sp_slg_clause(
    env: List<Clause>,
    c: Clause,
    d: DomainGoal,
    s: Seq<Option<Ty>>,
    idx: int,
    fuel: usize,
    forest: Seq<TableV>,
) -> (Outcome, Seq<Option<Ty>>, Seq<TableV>, usize)
    decreases fuel, 8nat, 0nat,
{
    if !sp_could_apply(c, d) {
        (Outcome::NoSolution, s, forest, fuel)
    } else {
        let (h, conds, s1) = sp_instantiate(c.binders, c.head, c.conditions, s);
        match sp_unify_domain_goal(s1, h, d) {
            None => (Outcome::NoSolution, s, forest, fuel),
            Some(s2) => {
                let (o, s3, f1, u1) = sp_slg_conditions(env, conds, s2, fuel, forest);
                match o {
                    Outcome::Unique => (Outcome::Unique, s3, sp_add_answer(f1, idx, s3), u1),
                    Outcome::Ambiguous => (Outcome::Ambiguous, s, f1, u1),
                    Outcome::NoSolution => (Outcome::NoSolution, s, f1, u1),
                    Outcome::Floundered => (Outcome::Floundered, s, f1, u1),
                    Outcome::Overflow => (Outcome::Overflow, s, f1, u1),
                }
            },
        }
    }
}

/// The tabling search over a clause's conditions.
pub open spec fn sp_slg_conditions(
    env: List<Clause>,
    conds: List<DomainGoal>,
    s: Seq<Option<Ty>>,
    fuel: usize,
    forest: Seq<TableV>,
) -> (Outcome, Seq<Option<Ty>>, Seq<TableV>, usize)
    decreases fuel, 7nat, list_len(conds),
{
    match conds {
        List::Nil => (Outcome::Unique, s, forest, fuel),
        List::Cons(d, rest) => {
            let (o1, s1, f1, u1) = sp_slg_domain(env, d, s, fuel, forest);
            let u1c = if u1 <= fuel {
                u1
            } else {
                fuel
            };
            match o1 {
                Outcome::Unique => sp_slg_conditions(env, *rest, s1, u1c, f1),
                Outcome::Ambiguous => {
                    let (o2, _, f2, u2) = sp_slg_conditions(env, *rest, s, u1c, f1);
                    match o2 {
                        Outcome::NoSolution => (Outcome::NoSolution, s, f2, u2),
                        Outcome::Floundered => (Outcome::Floundered, s, f2, u2),
                        Outcome::Overflow => (Outcome::Overflow, s, f2, u2),
                        _ => (Outcome::Ambiguous, s, f2, u2),
                    }
                },
                Outcome::NoSolution => (Outcome::NoSolution, s, f1, u1c),
                Outcome::Floundered => (Outcome::Floundered, s, f1, u1c),
                Outcome::Overflow => (Outcome::Overflow, s, f1, u1c),
            }
        },
    }
}

/// Executable search for the first table with this goal and environment in
/// the wanted state of completion.
pub fn table_find(f: &Vec<Table>, env: &List<Clause>, key: &DomainGoal, complete: bool) -> (r:
    Option<usize>)
    ensures
        match r {
            Some(i) => sp_table_find(forest_view(f@), *env, *key, complete) == Some(i as int) && i
                < f@.len(),
            None => sp_table_find(forest_view(f@), *env, *key, complete) is None,
        },
{
    proof {
        lemma_table_find_props(forest_view(f@), *env, *key, complete);
    }
    let mut i: usize = 0;
    while i < f.len()
        invariant
            i <= f.len(),
            forall|j: int|
                0 <= j < i ==> !((#[trigger] forest_view(f@)[j]).0 == *key && forest_view(f@)[j].1
                    == *env && forest_view(f@)[j].3 == complete),
            sp_table_find(forest_view(f@), *env, *key, complete) matches Some(k) ==> 0 <= k
                < f@.len() && forest_view(f@)[k].0 == *key && forest_view(f@)[k].1 == *env
                && forest_view(f@)[k].3 == complete,
            sp_table_find(forest_view(f@), *env, *key, complete) is None ==> (forall|j: int|
                0 <= j < f@.len() ==> !((#[trigger] forest_view(f@)[j]).0 == *key && forest_view(
                    f@,
                )[j].1 == *env && forest_view(f@)[j].3 == complete)),
        decreases f.len() - i,
    {
        if f[i].complete == complete && eq_domain_goal(&f[i].goal, key) && eq_clause_list(
            &f[i].env,
            env,
        ) {
            proof {
                let fv = forest_view(f@);
                if let Some(k) = sp_table_find(fv, *env, *key, complete) {
                    lemma_table_find_props(fv, *env, *key, complete);
                    if k < i as int {
                        assert(false);
                    }
                    if k > i as int {
                        // the first match cannot lie past a match
                        assert(fv[i as int].0 == *key && fv[i as int].1 == *env && fv[i as int].3
                            == complete);
                        lemma_table_find_first(fv, *env, *key, complete, i as int);
                    }
                } else {
                    assert(fv[i as int].0 == *key);
                    assert(false);
                }
            }
            return Some(i);
        }
        i = i + 1;
    }
    proof {
        if let Some(k) = sp_table_find(forest_view(f@), *env, *key, complete) {
            assert(false);
        }
    }
    None
}

/// `sp_table_find` returns the least matching position: no later match is
/// reported when an earlier one exists.
pub proof fn lemma_table_find_first(
    f: Seq<TableV>,
    env: List<Clause>,
    key: DomainGoal,
    complete: bool,
    j: int,
)
    requires
        0 <= j < f.len(),
        f[j].0 == key && f[j].1 == env && f[j].3 == complete,
    ensures
        sp_table_find(f, env, key, complete) matches Some(k) && k <= j,
    decreases f.len(),
{
    if f[0].0 == key && f[0].1 == env && f[0].3 == complete {
    } else {
        let rest = f.drop_first();
        assert(forall|p: int| 0 <= p < rest.len() ==> rest[p] == f[p + 1]);
        assert(rest[j - 1] == f[j]);
        lemma_table_find_first(rest, env, key, complete, j - 1);
    }
}

/// Executable append of one answer to the table at `idx`.
pub fn add_answer(f: Vec<Table>, idx: usize, ans: &Vec<Option<Ty>>) -> (r: Vec<Table>)
    ensures
        forest_view(r@) == sp_add_answer(forest_view(f@), idx as int, ans@),
{
    if idx < f.len() {
        let goal = clone_domain_goal(&f[idx].goal);
        let env = clone_clause_list(&f[idx].env);
        let complete = f[idx].complete;
        let outcome = f[idx].outcome;
        let mut answers: Vec<Vec<Option<Ty>>> = Vec::new();
        let mut j: usize = 0;
        while j < f[idx].answers.len()
            invariant
                idx < f.len(),
                j <= f@[idx as int].answers@.len(),
                answers@.len() == j,
                forall|k: int| 0 <= k < j ==> answers@[k]@ == f@[idx as int].answers@[k]@,
            decreases f@[idx as int].answers@.len() - j,
        {
            answers.push(clone_subst(&f[idx].answers[j]));
            j = j + 1;
        }
        answers.push(clone_subst(ans));
        let mut f2 = f;
        f2.set(idx, Table { goal, env, answers, complete, outcome });
        proof {
            let fv = forest_view(f@);
            let fv2 = forest_view(f2@);
            let target = sp_add_answer(fv, idx as int, ans@);
            assert(table_view(f2@[idx as int]).2 =~= fv[idx as int].2.push(ans@));
            assert forall|i: int| 0 <= i < fv2.len() implies fv2[i] == target[i] by {
                if i != idx as int {
                    assert(f2@[i] == f@[i]);
                }
            }
            assert(fv2 =~= target);
        }
        f2
    } else {
        f
    }
}

/// Executable closing of the table at `idx`, recording the outcome.
pub fn mark_complete(f: Vec<Table>, idx: usize, o: Outcome) -> (r: Vec<Table>)
    ensures
        forest_view(r@) == sp_mark_complete(forest_view(f@), idx as int, o),
{
    if idx < f.len() && !f[idx].complete {
        let goal = clone_domain_goal(&f[idx].goal);
        let env = clone_clause_list(&f[idx].env);
        let mut answers: Vec<Vec<Option<Ty>>> = Vec::new();
        let mut j: usize = 0;
        while j < f[idx].answers.len()
            invariant
                idx < f.len(),
                j <= f@[idx as int].answers@.len(),
                answers@.len() == j,
                forall|k: int| 0 <= k < j ==> answers@[k]@ == f@[idx as int].answers@[k]@,
            decreases f@[idx as int].answers@.len() - j,
        {
            answers.push(clone_subst(&f[idx].answers[j]));
            j = j + 1;
        }
        let mut f2 = f;
        f2.set(idx, Table { goal, env, answers, complete: true, outcome: o });
        proof {
            let fv = forest_view(f@);
            let fv2 = forest_view(f2@);
            let target = sp_mark_complete(fv, idx as int, o);
            assert(table_view(f2@[idx as int]).2 =~= fv[idx as int].2);
            assert forall|i: int| 0 <= i < fv2.len() implies fv2[i] == target[i] by {
                if i != idx as int {
                    assert(f2@[i] == f@[i]);
                }
            }
            assert(fv2 =~= target);
        }
        f2
    } else {
        f
    }
}

/// Executable tabling search over a compound goal; returns exactly
/// `sp_slg_goal`, and only ever grows the forest.
pub fn slg_goal(env: &List<Clause>, g: &Goal, s: Vec<Option<Ty>>, fuel: usize, forest: Vec<Table>) -> (r: (
    Outcome,
    Vec<Option<Ty>>,
    Vec<Table>,
    usize,
))
    ensures
        (r.0, r.1@, forest_view(r.2@), r.3) == sp_slg_goal(*env, *g, s@, fuel, forest_view(forest@)),
        forest_extends(forest_view(r.2@), forest_view(forest@)),
    decreases fuel, 10nat, goal_size(*g),
{
    match g {
        Goal::Domain(d) => slg_domain(env, d, s, fuel, forest),
        Goal::And(a, b) => {
            let s_keep = clone_subst(&s);
            let (o1, s1, f1, u1) = slg_goal(env, a, s, fuel, forest);
            let u1c: usize = if u1 <= fuel {
                u1
            } else {
                fuel
            };
            match o1 {
                Outcome::Unique => {
                    let (o2, s2, f2, u2) = slg_goal(env, b, s1, u1c, f1);
                    proof {
                        lemma_extends_trans(forest_view(f2@), forest_view(f1@), forest_view(forest@));
                    }
                    match o2 {
                        Outcome::Unique => (Outcome::Unique, s2, f2, u2),
                        Outcome::Ambiguous => (Outcome::Ambiguous, s_keep, f2, u2),
                        Outcome::NoSolution => (Outcome::NoSolution, s_keep, f2, u2),
                        Outcome::Floundered => (Outcome::Floundered, s_keep, f2, u2),
                        Outcome::Overflow => (Outcome::Overflow, s_keep, f2, u2),
                    }
                },
                Outcome::Ambiguous => {
                    let s_pass = clone_subst(&s_keep);
                    let (o2, _s2, f2, u2) = slg_goal(env, b, s_pass, u1c, f1);
                    proof {
                        lemma_extends_trans(forest_view(f2@), forest_view(f1@), forest_view(forest@));
                    }
                    match o2 {
                        Outcome::NoSolution => (Outcome::NoSolution, s_keep, f2, u2),
                        Outcome::Floundered => (Outcome::Floundered, s_keep, f2, u2),
                        Outcome::Overflow => (Outcome::Overflow, s_keep, f2, u2),
                        _ => (Outcome::Ambiguous, s_keep, f2, u2),
                    }
                },
                Outcome::NoSolution => (Outcome::NoSolution, s_keep, f1, u1c),
                Outcome::Floundered => (Outcome::Floundered, s_keep, f1, u1c),
                Outcome::Overflow => (Outcome::Overflow, s_keep, f1, u1c),
            }
        },
        Goal::Implies(cs, b) => {
            if clause_list_wf(cs, &List::Nil, false) {
                let env2 = list_append(clone_clause_list(env), clone_clause_list(cs));
                slg_goal(&env2, b, s, fuel, forest)
            } else {
                (Outcome::Floundered, s, forest, fuel)
            }
        },
        Goal::ForAll(_, _) => (Outcome::NoSolution, s, forest, fuel),
        Goal::Exists(_, _) => (Outcome::NoSolution, s, forest, fuel),
    }
}

/// Executable tabling search over a domain goal.
pub fn slg_domain(
    env: &List<Clause>,
    d: &DomainGoal,
    s: Vec<Option<Ty>>,
    fuel: usize,
    forest: Vec<Table>,
) -> (r: (Outcome, Vec<Option<Ty>>, Vec<Table>, usize))
    ensures
        (r.0, r.1@, forest_view(r.2@), r.3) == sp_slg_domain(
            *env,
            *d,
            s@,
            fuel,
            forest_view(forest@),
        ),
        forest_extends(forest_view(r.2@), forest_view(forest@)),
    decreases fuel, 6nat, 0nat,
{
    let d1 = apply_domain_goal(&s, d);
    let m0: Vec<usize> = Vec::new();
    proof {
        assert(m0@ =~= Seq::<usize>::empty());
    }
    let (key, km) = canon_domain_goal(&d1, m0);
    let done = table_find(&forest, env, &key, true);
    if km.len() == 0 && done.is_some() {
        let i = done.unwrap();
        (forest[i].outcome, s, forest, fuel)
    } else if table_find(&forest, env, &key, false).is_some() {
        (Outcome::NoSolution, s, forest, fuel)
    } else if fuel == 0 {
        (Outcome::Overflow, s, forest, fuel)
    } else {
        let idx: usize = forest.len();
        let mut f1 = forest;
        let ghost fv0 = forest_view(f1@);
        f1.push(
            Table {
                goal: key,
                env: clone_clause_list(env),
                answers: Vec::new(),
                complete: false,
                outcome: Outcome::NoSolution,
            },
        );
        proof {
            let newt = table_view(f1@[idx as int]);
            assert(newt.2 =~= Seq::<Seq<Option<Ty>>>::empty());
            let fv1 = forest_view(f1@);
            assert forall|i: int| 0 <= i < fv1.len() implies fv1[i] == fv0.push(newt)[i] by {
                if i < fv0.len() {
                    assert(f1@[i] == f1@.subrange(0, fv0.len() as int)[i]);
                }
            }
            assert(fv1 =~= fv0.push(newt));
            lemma_extends_push(fv0, newt);
        }
        let ghost fv1 = forest_view(f1@);
        let (o, s1, f2, u2) = slg_clauses(env, env, &d1, s, idx, fuel - 1, f1);
        let ghost fv2 = forest_view(f2@);
        let f3 = mark_complete(f2, idx, o);
        proof {
            lemma_extends_mark_complete(fv2, idx as int, o);
            lemma_extends_trans(fv2, fv1, fv0);
            lemma_extends_trans(forest_view(f3@), fv2, fv0);
        }
        (o, s1, f3, u2)
    }
}

/// Executable tabling enumeration of the environment's clauses.
pub fn slg_clauses(
    env: &List<Clause>,
    rest: &List<Clause>,
    d: &DomainGoal,
    s: Vec<Option<Ty>>,
    idx: usize,
    fuel: usize,
    forest: Vec<Table>,
) -> (r: (Outcome, Vec<Option<Ty>>, Vec<Table>, usize))
    ensures
        (r.0, r.1@, forest_view(r.2@), r.3) == sp_slg_clauses(
            *env,
            *rest,
            *d,
            s@,
            idx as int,
            fuel,
            forest_view(forest@),
        ),
        forest_extends(forest_view(r.2@), forest_view(forest@)),
    decreases fuel, 9nat, list_len(*rest),
{
    match rest {
        List::Nil => (Outcome::NoSolution, s, forest, fuel),
        List::Cons(c, tail) => {
            let s_orig = clone_subst(&s);
            let s_rest = clone_subst(&s);
            let (o1, s1, f1, u1) = slg_clause(env, c, d, s, idx, fuel, forest);
            let u1c: usize = if u1 <= fuel {
                u1
            } else {
                fuel
            };
            let (o2, s2, f2, u2) = slg_clauses(env, tail, d, s_rest, idx, u1c, f1);
            proof {
                lemma_extends_trans(forest_view(f2@), forest_view(f1@), forest_view(forest@));
            }
            let joined = crate::recursive::combine((o1, s1), (o2, s2), s_orig);
            (joined.0, joined.1, f2, u2)
        },
    }
}

/// Executable tabled attempt of one clause.
pub fn slg_clause(
    env: &List<Clause>,
    c: &Clause,
    d: &DomainGoal,
    s: Vec<Option<Ty>>,
    idx: usize,
    fuel: usize,
    forest: Vec<Table>,
) -> (r: (Outcome, Vec<Option<Ty>>, Vec<Table>, usize))
    ensures
        (r.0, r.1@, forest_view(r.2@), r.3) == sp_slg_clause(
            *env,
            *c,
            *d,
            s@,
            idx as int,
            fuel,
            forest_view(forest@),
        ),
        forest_extends(forest_view(r.2@), forest_view(forest@)),
    decreases fuel, 8nat, 0nat,
{
    if !could_apply(c, d) {
        (Outcome::NoSolution, s, forest, fuel)
    } else {
        let s_keep = clone_subst(&s);
        let (h, conds, s1) = instantiate(
            &c.binders,
            clone_domain_goal(&c.head),
            clone_domain_goal_list(&c.conditions),
            s,
        );
        match unify_domain_goal(s1, &h, d) {
            None => (Outcome::NoSolution, s_keep, forest, fuel),
            Some(s2) => {
                let (o, s3, f1, u1) = slg_conditions(env, &conds, s2, fuel, forest);
                match o {
                    Outcome::Unique => {
                        let ghost fv1 = forest_view(f1@);
                        let f2 = add_answer(f1, idx, &s3);
                        proof {
                            lemma_extends_add_answer(fv1, idx as int, s3@);
                            lemma_extends_trans(forest_view(f2@), fv1, forest_view(forest@));
                        }
                        (Outcome::Unique, s3, f2, u1)
                    },
                    Outcome::Ambiguous => (Outcome::Ambiguous, s_keep, f1, u1),
                    Outcome::NoSolution => (Outcome::NoSolution, s_keep, f1, u1),
                    Outcome::Floundered => (Outcome::Floundered, s_keep, f1, u1),
                    Outcome::Overflow => (Outcome::Overflow, s_keep, f1, u1),
                }
            },
        }
    }
}

/// Executable tabling search over a clause's conditions.
pub fn slg_conditions(
    env: &List<Clause>,
    conds: &List<DomainGoal>,
    s: Vec<Option<Ty>>,
    fuel: usize,
    forest: Vec<Table>,
) -> (r: (Outcome, Vec<Option<Ty>>, Vec<Table>, usize))
    ensures
        (r.0, r.1@, forest_view(r.2@), r.3) == sp_slg_conditions(
            *env,
            *conds,
            s@,
            fuel,
            forest_view(forest@),
        ),
        forest_extends(forest_view(r.2@), forest_view(forest@)),
    decreases fuel, 7nat, list_len(*conds),
{
    match conds {
        List::Nil => (Outcome::Unique, s, forest, fuel),
        List::Cons(d, rest) => {
            let s_keep = clone_subst(&s);
            let (o1, s1, f1, u1) = slg_domain(env, d, s, fuel, forest);
            let u1c: usize = if u1 <= fuel {
                u1
            } else {
                fuel
            };
            match o1 {
                Outcome::Unique => {
                    let (o2, s2, f2, u2) = slg_conditions(env, rest, s1, u1c, f1);
                    proof {
                        lemma_extends_trans(forest_view(f2@), forest_view(f1@), forest_view(forest@));
                    }
                    (o2, s2, f2, u2)
                },
                Outcome::Ambiguous => {
                    let s_pass = clone_subst(&s_keep);
                    let (o2, _s2, f2, u2) = slg_conditions(env, rest, s_pass, u1c, f1);
                    proof {
                        lemma_extends_trans(forest_view(f2@), forest_view(f1@), forest_view(forest@));
                    }
                    match o2 {
                        Outcome::NoSolution => (Outcome::NoSolution, s_keep, f2, u2),
                        Outcome::Floundered => (Outcome::Floundered, s_keep, f2, u2),
                        Outcome::Overflow => (Outcome::Overflow, s_keep, f2, u2),
                        _ => (Outcome::Ambiguous, s_keep, f2, u2),
                    }
                },
                Outcome::NoSolution => (Outcome::NoSolution, s_keep, f1, u1c),
                Outcome::Floundered => (Outcome::Floundered, s_keep, f1, u1c),
                Outcome::Overflow => (Outcome::Overflow, s_keep, f1, u1c),
            }
        },
    }
}

} // verus!
