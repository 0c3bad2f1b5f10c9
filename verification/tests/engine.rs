//! End-to-end tests of the resolution engine, on a mutually cyclic
//! interface hierarchy and on small focused programs.

use chalk::canonical::canonical_key;
use chalk::canonical::canonicalize_goal;
use chalk::ir::clone_subst;
use chalk::ir::eq_domain_goal;
use chalk::ir::eq_goal;
use chalk::ir::Clause;
use chalk::ir::DomainGoal;
use chalk::ir::Environment;
use chalk::ir::Goal;
use chalk::ir::List;
use chalk::ir::Outcome;
use chalk::ir::Solution;
use chalk::ir::SolveError;
use chalk::ir::SolverChoice;
use chalk::ir::TraitRef;
use chalk::ir::Ty;
use chalk::program::ImplDecl;
use chalk::program::Program;
use chalk::program::TraitDecl;
use chalk::recursive::eq_subst;
use chalk::slg::slg_goal;
use chalk::solve::into_peeled_goal;
use chalk::solve::render_result;
use chalk::subst::apply;
use chalk::unify::unify;

// Type constructors of the cyclic hierarchy.
const I32: u64 = 1;
const U32: u64 = 2;
const RC: u64 = 3;
const BOXC: u64 = 4;
const SLICE: u64 = 5;
const VECC: u64 = 6;
// The associated-type projection `<_ as SliceExt>::Item`, as a constructor.
const ITEM: u64 = 100;

// Interfaces of the cyclic hierarchy.
const ASREF: u64 = 1;
const CLONE: u64 = 2;
const COPY: u64 = 3;
const SIZED: u64 = 4;
const SLICEEXT: u64 = 5;

fn list<T>(v: Vec<T>) -> List<T> {
    let mut out = List::Nil;
    for x in v.into_iter().rev() {
        out = List::Cons(x, Box::new(out));
    }
    out
}

fn app(ctor: u64, args: Vec<Ty>) -> Ty {
    Ty::App { ctor, args: Box::new(list(args)) }
}

fn implemented(trait_id: u64, args: Vec<Ty>) -> DomainGoal {
    DomainGoal::Implemented(TraitRef { trait_id, args: list(args) })
}

fn well_formed(trait_id: u64, args: Vec<Ty>) -> DomainGoal {
    DomainGoal::WellFormed(TraitRef { trait_id, args: list(args) })
}

fn hypothesis(head: DomainGoal) -> Clause {
    Clause { binders: List::Nil, head, conditions: List::Nil }
}

fn clause(binders: Vec<usize>, head: DomainGoal, conditions: Vec<DomainGoal>) -> Clause {
    Clause { binders: list(binders), head, conditions: list(conditions) }
}

fn impl_decl(binders: Vec<usize>, trait_id: u64, args: Vec<Ty>, wcs: Vec<DomainGoal>) -> ImplDecl {
    ImplDecl {
        binders: list(binders),
        trait_ref: TraitRef { trait_id, args: list(args) },
        where_clauses: list(wcs),
    }
}

fn trait_decl(trait_id: u64, binders: Vec<usize>, wcs: Vec<DomainGoal>) -> TraitDecl {
    TraitDecl { trait_id, binders: list(binders), where_clauses: list(wcs) }
}

/// A cyclic interface hierarchy: `i32`/`u32`/`Rc`/`Box`/`Slice`/`Vec`
/// implementing `Clone`/`Copy`/`Sized`/`AsRef`, plus a `SliceExt` interface
/// whose associated `Item` type is bounded by `Clone`.
fn cycley_program() -> Program {
    let b0 = || Ty::Bound(0);
    let traits = vec![
        trait_decl(ASREF, vec![0, 1], vec![]),
        trait_decl(CLONE, vec![0], vec![]),
        trait_decl(COPY, vec![0], vec![implemented(CLONE, vec![Ty::Bound(0)])]),
        trait_decl(SIZED, vec![0], vec![]),
        trait_decl(
            SLICEEXT,
            vec![0],
            vec![implemented(CLONE, vec![app(ITEM, vec![Ty::Bound(0)])])],
        ),
    ];
    let impls = vec![
        impl_decl(vec![], COPY, vec![app(I32, vec![])], vec![]),
        impl_decl(vec![], CLONE, vec![app(I32, vec![])], vec![]),
        impl_decl(vec![], SIZED, vec![app(I32, vec![])], vec![]),
        impl_decl(vec![], COPY, vec![app(U32, vec![])], vec![]),
        impl_decl(vec![], CLONE, vec![app(U32, vec![])], vec![]),
        impl_decl(vec![], SIZED, vec![app(U32, vec![])], vec![]),
        impl_decl(vec![0], CLONE, vec![app(RC, vec![b0()])], vec![]),
        impl_decl(vec![0], SIZED, vec![app(RC, vec![b0()])], vec![]),
        impl_decl(
            vec![0],
            ASREF,
            vec![app(BOXC, vec![b0()]), b0()],
            vec![implemented(SIZED, vec![b0()])],
        ),
        impl_decl(
            vec![0],
            CLONE,
            vec![app(BOXC, vec![b0()])],
            vec![implemented(CLONE, vec![b0()])],
        ),
        impl_decl(vec![0], SIZED, vec![app(BOXC, vec![b0()])], vec![]),
        impl_decl(vec![0], SIZED, vec![app(SLICE, vec![b0()])], vec![]),
        impl_decl(
            vec![0],
            ASREF,
            vec![app(SLICE, vec![b0()]), app(SLICE, vec![b0()])],
            vec![implemented(SIZED, vec![b0()])],
        ),
        impl_decl(
            vec![0],
            ASREF,
            vec![app(VECC, vec![b0()]), app(SLICE, vec![b0()])],
            vec![implemented(SIZED, vec![b0()])],
        ),
        impl_decl(
            vec![0],
            ASREF,
            vec![app(VECC, vec![b0()]), app(VECC, vec![b0()])],
            vec![implemented(SIZED, vec![b0()])],
        ),
        impl_decl(
            vec![0],
            CLONE,
            vec![app(VECC, vec![b0()])],
            vec![implemented(CLONE, vec![b0()]), implemented(SIZED, vec![b0()])],
        ),
        impl_decl(
            vec![0],
            SIZED,
            vec![app(VECC, vec![b0()])],
            vec![implemented(SIZED, vec![b0()])],
        ),
        impl_decl(
            vec![0],
            SLICEEXT,
            vec![app(SLICE, vec![b0()])],
            vec![implemented(CLONE, vec![b0()])],
        ),
    ];
    Program { traits: list(traits), impls: list(impls) }
}

/// The goal over that hierarchy:
/// `forall<T> { if (Item-of-Slice<T>: Clone, Item-of-Slice<T>: Sized,
///  T: Clone, T: Sized) { T: Sized } }`.
fn cycley_goal() -> Goal {
    let t = 50usize;
    let item_of_slice_t = app(ITEM, vec![app(SLICE, vec![Ty::Bound(t)])]);
    let hyps = vec![
        hypothesis(implemented(CLONE, vec![item_of_slice_t.clone_for_test()])),
        hypothesis(implemented(SIZED, vec![item_of_slice_t])),
        hypothesis(implemented(CLONE, vec![Ty::Bound(t)])),
        hypothesis(implemented(SIZED, vec![Ty::Bound(t)])),
    ];
    let body = Goal::Domain(implemented(SIZED, vec![Ty::Bound(t)]));
    Goal::ForAll(t, Box::new(Goal::Implies(list(hyps), Box::new(body))))
}

trait CloneForTest {
    fn clone_for_test(&self) -> Ty;
}

impl CloneForTest for Ty {
    fn clone_for_test(&self) -> Ty {
        chalk::ir::clone_ty(self)
    }
}

/// The rendering, with whitespace dropped, must start with the expected
/// text.
fn check_rendering(result: &str, expected: &str) {
    let expected1: String = expected.chars().filter(|w| !w.is_whitespace()).collect();
    let result1: String = result.chars().filter(|w| !w.is_whitespace()).collect();
    assert!(!expected1.is_empty() && result1.starts_with(&expected1));
}

fn run_cycley(choice: SolverChoice, expected: &str) {
    let program = cycley_program();
    let env = program.environment();
    let peeled = into_peeled_goal(cycley_goal(), 0);
    let result = choice.solve_root_goal(&env, &peeled);
    check_rendering(render_result(&result), expected);
}

#[test]
fn cycley_recursive_cached() {
    run_cycley(
        SolverChoice::Recursive { overflow_depth: 20, caching_enabled: true },
        "Unique",
    );
}

#[test]
fn cycley_recursive_uncached() {
    run_cycley(
        SolverChoice::Recursive { overflow_depth: 20, caching_enabled: false },
        "Unique",
    );
}

#[test]
fn cycley_slg() {
    // The known divergence between the strategies: the tabling solver cannot
    // table a goal under hypotheses and flounders on the cyclic program.
    run_cycley(SolverChoice::SLG { max_size: 20 }, "No possible solution");
}

/// A one-interface, one-implementation program: `F` holds of `A`.
fn tiny_program() -> Program {
    Program {
        traits: list(vec![trait_decl(1, vec![0], vec![])]),
        impls: list(vec![impl_decl(vec![], 1, vec![app(10, vec![])], vec![])]),
    }
}

#[test]
fn unique_on_ground_goal() {
    let env = tiny_program().environment();
    let goal = Goal::Domain(implemented(1, vec![app(10, vec![])]));
    let r = SolverChoice::Recursive { overflow_depth: 5, caching_enabled: false }
        .solve_root_goal(&env, &goal);
    assert!(matches!(r, Ok(Some(Solution::Unique { .. }))));
    assert_eq!(render_result(&r), "Unique");
}

#[test]
fn no_solution_on_unimplemented() {
    let env = tiny_program().environment();
    let goal = Goal::Domain(implemented(1, vec![app(11, vec![])]));
    let r = SolverChoice::Recursive { overflow_depth: 5, caching_enabled: false }
        .solve_root_goal(&env, &goal);
    assert!(matches!(r, Ok(None)));
    assert_eq!(render_result(&r), "No possible solution");
}

#[test]
fn existential_goal_binds_variable() {
    let env = tiny_program().environment();
    let goal = Goal::Exists(7, Box::new(Goal::Domain(implemented(1, vec![Ty::Bound(7)]))));
    let r = SolverChoice::Recursive { overflow_depth: 5, caching_enabled: false }
        .solve_root_goal(&env, &goal);
    match r {
        Ok(Some(Solution::Unique { subst, constraints })) => {
            assert!(matches!(constraints, List::Nil));
            match subst {
                List::Cons(Some(Ty::App { ctor, .. }), rest) => {
                    assert_eq!(ctor, 10);
                    assert!(matches!(*rest, List::Nil));
                },
                _ => panic!("expected the one variable bound to A"),
            }
        },
        _ => panic!("expected a unique solution"),
    }
}

#[test]
fn ambiguity_on_two_candidates() {
    // Two implementations bind the existential differently: ambiguous.
    let program = Program {
        traits: list(vec![trait_decl(1, vec![0], vec![])]),
        impls: list(vec![
            impl_decl(vec![], 1, vec![app(10, vec![])], vec![]),
            impl_decl(vec![], 1, vec![app(11, vec![])], vec![]),
        ]),
    };
    let env = program.environment();
    let goal = Goal::Exists(7, Box::new(Goal::Domain(implemented(1, vec![Ty::Bound(7)]))));
    let r = SolverChoice::Recursive { overflow_depth: 5, caching_enabled: false }
        .solve_root_goal(&env, &goal);
    assert!(matches!(r, Ok(Some(Solution::Ambiguous))));
    assert_eq!(render_result(&r), "Ambiguous");
}

#[test]
fn superclass_elaboration() {
    // `Copy where Self: Clone` makes `A: Clone` provable from `A: Copy`.
    let program = Program {
        traits: list(vec![
            trait_decl(CLONE, vec![0], vec![]),
            trait_decl(COPY, vec![0], vec![implemented(CLONE, vec![Ty::Bound(0)])]),
        ]),
        impls: list(vec![impl_decl(vec![], COPY, vec![app(10, vec![])], vec![])]),
    };
    let env = program.environment();
    let goal = Goal::Domain(implemented(CLONE, vec![app(10, vec![])]));
    let r = SolverChoice::Recursive { overflow_depth: 5, caching_enabled: false }
        .solve_root_goal(&env, &goal);
    assert_eq!(render_result(&r), "Unique");
}

#[test]
fn coinductive_cycle_succeeds() {
    // A well-formedness obligation that requires itself closes coinductively.
    let env = Environment { clauses: List::Nil };
    let wf = || well_formed(1, vec![app(10, vec![])]);
    let goal = Goal::Implies(
        list(vec![clause(vec![], wf(), vec![wf()])]),
        Box::new(Goal::Domain(wf())),
    );
    let r = SolverChoice::Recursive { overflow_depth: 10, caching_enabled: false }
        .solve_root_goal(&env, &goal);
    assert_eq!(render_result(&r), "Unique");
}

#[test]
fn inductive_cycle_fails() {
    // The same shape on a plain interface bound is a failure of that branch.
    let env = Environment { clauses: List::Nil };
    let g = || implemented(1, vec![app(10, vec![])]);
    let goal = Goal::Implies(
        list(vec![clause(vec![], g(), vec![g()])]),
        Box::new(Goal::Domain(g())),
    );
    let r = SolverChoice::Recursive { overflow_depth: 10, caching_enabled: false }
        .solve_root_goal(&env, &goal);
    assert_eq!(render_result(&r), "No possible solution");
}

#[test]
fn determinism_repeated_invocations() {
    let program = cycley_program();
    let env = program.environment();
    let peeled = into_peeled_goal(cycley_goal(), 0);
    let choice = SolverChoice::Recursive { overflow_depth: 20, caching_enabled: false };
    let r1 = choice.solve_root_goal(&env, &peeled);
    let r2 = choice.solve_root_goal(&env, &peeled);
    assert_eq!(render_result(&r1), render_result(&r2));
    assert!(matches!(r1, Ok(Some(Solution::Unique { .. }))));
    assert!(matches!(r2, Ok(Some(Solution::Unique { .. }))));
}

#[test]
fn cache_transparency_classifications() {
    // Caching never changes the classification, only the work.
    let programs = vec![
        (cycley_program(), into_peeled_goal(cycley_goal(), 0)),
        (tiny_program(), Goal::Domain(implemented(1, vec![app(10, vec![])]))),
        (tiny_program(), Goal::Domain(implemented(1, vec![app(11, vec![])]))),
        (
            tiny_program(),
            Goal::Exists(7, Box::new(Goal::Domain(implemented(1, vec![Ty::Bound(7)])))),
        ),
    ];
    for (program, goal) in programs {
        let env = program.environment();
        let cached = SolverChoice::Recursive { overflow_depth: 20, caching_enabled: true }
            .solve_root_goal(&env, &goal);
        let uncached = SolverChoice::Recursive { overflow_depth: 20, caching_enabled: false }
            .solve_root_goal(&env, &goal);
        assert_eq!(render_result(&cached), render_result(&uncached));
    }
}

#[test]
fn canonicalization_idempotent() {
    let goal = into_peeled_goal(cycley_goal(), 0);
    let (g1, m1) = canonicalize_goal(&goal);
    let (g2, m2) = canonicalize_goal(&g1);
    assert!(eq_goal(&g1, &g2));
    assert_eq!(m1.len(), m2.len());
}

#[test]
fn alpha_equivalent_goals_share_keys() {
    // The same goal written with different variable names canonicalizes to
    // the same key.
    let d1 = implemented(1, vec![Ty::Var(5), Ty::Var(5), Ty::Var(9)]);
    let d2 = implemented(1, vec![Ty::Var(2), Ty::Var(2), Ty::Var(3)]);
    let k1 = canonical_key(&d1);
    let k2 = canonical_key(&d2);
    assert!(eq_domain_goal(&k1, &k2));
    let k1again = canonical_key(&k1);
    assert!(eq_domain_goal(&k1, &k1again));
}

#[test]
fn zero_depth_terminates_with_overflow() {
    let env = tiny_program().environment();
    let goal = Goal::Domain(implemented(1, vec![app(10, vec![])]));
    let r = SolverChoice::Recursive { overflow_depth: 0, caching_enabled: false }
        .solve_root_goal(&env, &goal);
    assert!(matches!(r, Err(SolveError::Overflow)));
    assert_eq!(render_result(&r), "Overflow");
}

#[test]
fn zero_tables_terminates() {
    let env = tiny_program().environment();
    let goal = Goal::Domain(implemented(1, vec![app(10, vec![])]));
    let r = SolverChoice::SLG { max_size: 0 }.solve_root_goal(&env, &goal);
    assert!(matches!(r, Err(SolveError::Overflow)));
    // A goal under hypotheses about a universally quantified type flounders
    // before any table is needed, which is also a defined outcome.
    let t = 50usize;
    let floundering = Goal::ForAll(
        t,
        Box::new(Goal::Implies(
            list(vec![hypothesis(implemented(1, vec![Ty::Bound(t)]))]),
            Box::new(Goal::Domain(implemented(1, vec![Ty::Bound(t)]))),
        )),
    );
    let r2 = SolverChoice::SLG { max_size: 0 }.solve_root_goal(&env, &floundering);
    assert!(matches!(r2, Ok(None)));
}

#[test]
fn slg_searches_ground_hypotheses() {
    // The tabling solver expands an implication over tableable hypotheses
    // just like the recursive solver.
    let env = Environment { clauses: List::Nil };
    let g = || implemented(1, vec![app(10, vec![])]);
    let goal = Goal::Implies(
        list(vec![hypothesis(g())]),
        Box::new(Goal::Domain(g())),
    );
    let r = SolverChoice::SLG { max_size: 5 }.solve_root_goal(&env, &goal);
    assert!(matches!(r, Ok(Some(Solution::Unique { .. }))));
    assert_eq!(render_result(&r), "Unique");
}

#[test]
fn slg_reuses_completed_tables() {
    // The same ground subgoal twice: the second occurrence takes the recorded
    // outcome of the completed table instead of opening a new one.
    let env = tiny_program().environment();
    let d = || Goal::Domain(implemented(1, vec![app(10, vec![])]));
    let goal = Goal::And(Box::new(d()), Box::new(d()));
    let (o, _s, forest, _fuel) = slg_goal(&env.clauses, &goal, Vec::new(), 5, Vec::new());
    assert!(matches!(o, Outcome::Unique));
    assert_eq!(forest.len(), 1);
    assert!(forest[0].complete);
    assert!(matches!(forest[0].outcome, Outcome::Unique));
    assert_eq!(forest[0].answers.len(), 1);
}

#[test]
fn slg_flounders_distinctly() {
    // A hypothesis over a universally quantified placeholder cannot be
    // tabled; the outcome is the distinguished floundered one, not a plain
    // failure.
    let env = tiny_program().environment();
    let ph = app(chalk::ir::PLACEHOLDER_BASE, vec![]);
    let goal = Goal::Implies(
        list(vec![hypothesis(implemented(1, vec![ph]))]),
        Box::new(Goal::Domain(implemented(1, vec![app(10, vec![])]))),
    );
    let (o, _s, forest, _fuel) = slg_goal(&env.clauses, &goal, Vec::new(), 5, Vec::new());
    assert!(matches!(o, Outcome::Floundered));
    assert_eq!(forest.len(), 0);
}

#[test]
fn slg_solves_and_tables_monotonically() {
    let env = tiny_program().environment();
    let goal = Goal::Domain(implemented(1, vec![app(10, vec![])]));
    let r = SolverChoice::SLG { max_size: 5 }.solve_root_goal(&env, &goal);
    assert_eq!(render_result(&r), "Unique");
    // The forest after a direct run: one table, completed, one answer.
    let (o, _s, forest, _fuel) = slg_goal(
        &env.clauses,
        &goal,
        Vec::new(),
        5,
        Vec::new(),
    );
    assert!(matches!(o, Outcome::Unique));
    assert_eq!(forest.len(), 1);
    assert!(forest[0].complete);
    assert_eq!(forest[0].answers.len(), 1);
}

#[test]
fn malformed_goal_is_rejected() {
    let env = tiny_program().environment();
    // A bound variable with no binder in sight.
    let goal = Goal::Domain(implemented(1, vec![Ty::Bound(99)]));
    let r = SolverChoice::Recursive { overflow_depth: 5, caching_enabled: false }
        .solve_root_goal(&env, &goal);
    assert!(matches!(r, Err(SolveError::Malformed)));
}

#[test]
fn malformed_environment_is_rejected() {
    // Program clauses may not carry free variables.
    let program = Program {
        traits: list(vec![]),
        impls: list(vec![impl_decl(vec![], 1, vec![Ty::Var(0)], vec![])]),
    };
    let env = program.environment();
    let goal = Goal::Domain(implemented(1, vec![app(10, vec![])]));
    let r = SolverChoice::Recursive { overflow_depth: 5, caching_enabled: false }
        .solve_root_goal(&env, &goal);
    assert!(matches!(r, Err(SolveError::Malformed)));
}

#[test]
fn terms_eq_goal_unifies() {
    let env = Environment { clauses: List::Nil };
    // exists x. x == A, provable through the equality hypothesis clause.
    let eq_hyp = clause(
        vec![3],
        DomainGoal::TermsEq { a: Ty::Bound(3), b: Ty::Bound(3) },
        vec![],
    );
    let goal = Goal::Implies(
        list(vec![eq_hyp]),
        Box::new(Goal::Exists(
            7,
            Box::new(Goal::Domain(DomainGoal::TermsEq {
                a: Ty::Bound(7),
                b: app(10, vec![]),
            })),
        )),
    );
    let r = SolverChoice::Recursive { overflow_depth: 5, caching_enabled: false }
        .solve_root_goal(&env, &goal);
    assert_eq!(render_result(&r), "Unique");
}

#[test]
fn unify_occurs_check_refuses_self_reference() {
    let s: Vec<Option<Ty>> = vec![None];
    let r = unify(s, &Ty::Var(0), &app(4, vec![Ty::Var(0)]));
    assert!(r.is_none());
}

#[test]
fn unify_binds_and_round_trips() {
    // Solve, take the unique substitution, re-apply it to the goal's term,
    // and unify against the original term: no change, no further subgoals.
    let env = tiny_program().environment();
    let goal = Goal::Exists(7, Box::new(Goal::Domain(implemented(1, vec![Ty::Bound(7)]))));
    let r = SolverChoice::Recursive { overflow_depth: 5, caching_enabled: false }
        .solve_root_goal(&env, &goal);
    let subst_list = match r {
        Ok(Some(Solution::Unique { subst, .. })) => subst,
        _ => panic!("expected a unique solution"),
    };
    let mut s: Vec<Option<Ty>> = Vec::new();
    let mut cur = &subst_list;
    loop {
        match cur {
            List::Nil => break,
            List::Cons(x, rest) => {
                s.push(match x {
                    Some(t) => Some(t.clone_for_test()),
                    None => None,
                });
                cur = rest;
            },
        }
    }
    // The goal's variable, after canonicalization, is variable 0.
    let t = Ty::Var(0);
    let applied = apply(&s, &t);
    let s_before = clone_subst(&s);
    let unified = unify(s, &applied, &t);
    match unified {
        Some(s_after) => assert!(eq_subst(&s_after, &s_before)),
        None => panic!("round trip must unify"),
    }
}

#[test]
fn cycley_without_peeling() {
    // The solver instantiates a root universal quantifier itself; peeling
    // first is the front end's convention, not a requirement.
    let program = cycley_program();
    let env = program.environment();
    let goal = cycley_goal();
    let r = SolverChoice::Recursive { overflow_depth: 20, caching_enabled: false }
        .solve_root_goal(&env, &goal);
    assert_eq!(render_result(&r), "Unique");
}

#[test]
fn conjunction_threads_bindings() {
    // F holds of A; G holds of A alone. exists x. F(x) and G(x) is unique,
    // and exists x. F(x) and H(x) has no solution.
    let program = Program {
        traits: list(vec![
            trait_decl(1, vec![0], vec![]),
            trait_decl(2, vec![0], vec![]),
            trait_decl(3, vec![0], vec![]),
        ]),
        impls: list(vec![
            impl_decl(vec![], 1, vec![app(10, vec![])], vec![]),
            impl_decl(vec![], 2, vec![app(10, vec![])], vec![]),
            impl_decl(vec![], 3, vec![app(11, vec![])], vec![]),
        ]),
    };
    let env = program.environment();
    let both = Goal::Exists(
        7,
        Box::new(Goal::And(
            Box::new(Goal::Domain(implemented(1, vec![Ty::Bound(7)]))),
            Box::new(Goal::Domain(implemented(2, vec![Ty::Bound(7)]))),
        )),
    );
    let r = SolverChoice::Recursive { overflow_depth: 8, caching_enabled: false }
        .solve_root_goal(&env, &both);
    assert_eq!(render_result(&r), "Unique");
    let clash = Goal::Exists(
        7,
        Box::new(Goal::And(
            Box::new(Goal::Domain(implemented(1, vec![Ty::Bound(7)]))),
            Box::new(Goal::Domain(implemented(3, vec![Ty::Bound(7)]))),
        )),
    );
    let r2 = SolverChoice::Recursive { overflow_depth: 8, caching_enabled: false }
        .solve_root_goal(&env, &clash);
    assert_eq!(render_result(&r2), "No possible solution");
}

fn list_to_vec<T>(mut l: List<T>) -> Vec<T> {
    let mut v: Vec<T> = Vec::new();
    loop {
        match l {
            List::Nil => break,
            List::Cons(x, rest) => {
                v.push(x);
                l = *rest;
            },
        }
    }
    v
}

fn reversed_program(p: Program) -> Program {
    let mut traits = list_to_vec(p.traits);
    let mut impls = list_to_vec(p.impls);
    traits.reverse();
    impls.reverse();
    Program { traits: list(traits), impls: list(impls) }
}

#[test]
fn clause_order_preserves_classification() {
    // The same program with its declarations reversed: clause order changes
    // the enumeration order, not the classification, on these queries.
    let peeled = into_peeled_goal(cycley_goal(), 0);
    for reorder in [false, true] {
        let program = if reorder {
            reversed_program(cycley_program())
        } else {
            cycley_program()
        };
        let env = program.environment();
        let rec = SolverChoice::Recursive { overflow_depth: 20, caching_enabled: false }
            .solve_root_goal(&env, &peeled);
        assert_eq!(render_result(&rec), "Unique");
        let slg = SolverChoice::SLG { max_size: 20 }.solve_root_goal(&env, &peeled);
        assert_eq!(render_result(&slg), "No possible solution");
    }
    // An ambiguous query stays ambiguous under reordering, for both
    // strategies.
    let mk_two = || Program {
        traits: list(vec![trait_decl(1, vec![0], vec![])]),
        impls: list(vec![
            impl_decl(vec![], 1, vec![app(10, vec![])], vec![]),
            impl_decl(vec![], 1, vec![app(11, vec![])], vec![]),
        ]),
    };
    let goal = Goal::Exists(7, Box::new(Goal::Domain(implemented(1, vec![Ty::Bound(7)]))));
    for program in [mk_two(), reversed_program(mk_two())] {
        let env = program.environment();
        let rec = SolverChoice::Recursive { overflow_depth: 8, caching_enabled: false }
            .solve_root_goal(&env, &goal);
        assert_eq!(render_result(&rec), "Ambiguous");
        let slg = SolverChoice::SLG { max_size: 8 }.solve_root_goal(&env, &goal);
        assert_eq!(render_result(&slg), "Ambiguous");
    }
}

#[test]
fn rendering_is_exact() {
    let ok_none: Result<Option<Solution>, SolveError> = Ok(None);
    assert_eq!(render_result(&ok_none), "No possible solution");
    let ambiguous: Result<Option<Solution>, SolveError> = Ok(Some(Solution::Ambiguous));
    assert_eq!(render_result(&ambiguous), "Ambiguous");
    let overflow: Result<Option<Solution>, SolveError> = Err(SolveError::Overflow);
    assert_eq!(render_result(&overflow), "Overflow");
    let unique: Result<Option<Solution>, SolveError> = Ok(Some(Solution::Unique {
        subst: List::Nil,
        constraints: List::Nil,
    }));
    assert!(render_result(&unique).starts_with("Unique"));
}
