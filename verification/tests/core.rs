use slg_core::infer::{InferenceTable, VarInfo};
use slg_core::invalidate::may_invalidate;
use slg_core::key::ucanonical_goal_eq;
use slg_core::resolvent::ResolventOps;
use slg_core::slg::{SlgContext, SlgContextOps, TruncateOps, TruncatingInferenceTable, UnificationOps};
use slg_core::tables::{Table, TableIndex, Tables};
use slg_core::term::{
    AnswerSubst, Binders, BoundVar, Canonical, CanonicalVarKind, DomainGoal, Environment,
    ExClause, Fatal, GenericArg, Goal, InEnvironment, Lifetime, Literal, NoSolution,
    ProgramClause, ProjectionTy, Substitution, Ty, UCanonical, VarKind,
};

fn empty_env() -> Environment {
    Environment { clauses: vec![] }
}

fn scalar_arg(v: u32) -> GenericArg {
    GenericArg::Ty(Ty::Scalar(v))
}

fn wildcard_arg() -> GenericArg {
    GenericArg::Ty(Ty::BoundVar(BoundVar { debruijn: 0, index: 0 }))
}

fn holds(id: u32, subst: Substitution) -> Goal {
    Goal::Domain(DomainGoal::Holds(id, subst))
}

fn in_env(goal: Goal) -> InEnvironment<Goal> {
    InEnvironment { environment: empty_env(), goal }
}

fn canonical_subst(args: Substitution) -> Canonical<Substitution> {
    Canonical { value: args, binders: vec![] }
}

fn ucanonical_goal(goal: Goal) -> UCanonical<InEnvironment<Goal>> {
    UCanonical { canonical: Canonical { value: in_env(goal), binders: vec![] }, universes: 1 }
}

fn table_for(goal: Goal) -> Table {
    Table { table_goal: ucanonical_goal(goal), coinductive_goal: false, answers: vec![] }
}

fn fresh_ops() -> TruncatingInferenceTable {
    TruncatingInferenceTable::new(10, InferenceTable::new())
}

fn nested_ty(depth: u32) -> Ty {
    if depth <= 1 {
        Ty::Scalar(1)
    } else {
        Ty::Adt(0, vec![GenericArg::Ty(nested_ty(depth - 1))])
    }
}

fn empty_ex_clause() -> ExClause {
    ExClause { subst: vec![], constraints: vec![], subgoals: vec![], delayed_subgoals: vec![] }
}

#[test]
fn invalidation_wildcard_asymmetry() {
    // A concrete answer never invalidates a position the aggregate already
    // holds open; an open position in the new answer always may.
    let r = may_invalidate(&vec![scalar_arg(7)], &canonical_subst(vec![wildcard_arg()]));
    assert_eq!(r, Ok(false));
    let r = may_invalidate(&vec![wildcard_arg()], &canonical_subst(vec![scalar_arg(7)]));
    assert_eq!(r, Ok(true));
}

#[test]
fn invalidation_scalar_leaves() {
    let r = may_invalidate(&vec![scalar_arg(7)], &canonical_subst(vec![scalar_arg(7)]));
    assert_eq!(r, Ok(false));
    let r = may_invalidate(&vec![scalar_arg(7)], &canonical_subst(vec![scalar_arg(8)]));
    assert_eq!(r, Ok(true));
}

#[test]
fn invalidation_structural_composites() {
    let slice7 = GenericArg::Ty(Ty::Slice(Box::new(Ty::Scalar(7))));
    let slice8 = GenericArg::Ty(Ty::Slice(Box::new(Ty::Scalar(8))));
    let r = may_invalidate(&vec![slice7], &canonical_subst(vec![slice8]));
    assert_eq!(r, Ok(true));
    let str1 = GenericArg::Ty(Ty::Str);
    let str2 = GenericArg::Ty(Ty::Str);
    assert_eq!(may_invalidate(&vec![str1], &canonical_subst(vec![str2])), Ok(false));
    // Entirely mismatched shapes conservatively may invalidate.
    let num = GenericArg::Ty(Ty::Scalar(3));
    let tup = GenericArg::Ty(Ty::Tuple(0, vec![]));
    assert_eq!(may_invalidate(&vec![num], &canonical_subst(vec![tup])), Ok(true));
}

#[test]
fn invalidation_kind_mismatch_is_fatal() {
    // Comparing a type against a lifetime is a broken invariant: the
    // outcome is the fatal channel, not a recoverable "no solution".
    let lt = GenericArg::Lifetime(Lifetime::Static);
    let r = may_invalidate(&vec![scalar_arg(7)], &canonical_subst(vec![lt]));
    assert_eq!(r, Err(Fatal::KindMismatch));
}

#[test]
fn invalidation_free_inference_var_is_fatal() {
    let iv = GenericArg::Ty(Ty::InferenceVar(0));
    let r = may_invalidate(&vec![iv], &canonical_subst(vec![scalar_arg(7)]));
    assert_eq!(r, Err(Fatal::FreeInferenceVar));
}

#[test]
fn invalidation_subst_length_mismatch_is_fatal() {
    let a = GenericArg::Ty(Ty::Adt(1, vec![scalar_arg(1)]));
    let b = GenericArg::Ty(Ty::Adt(1, vec![scalar_arg(1), scalar_arg(2)]));
    let r = may_invalidate(&vec![a], &canonical_subst(vec![b]));
    assert_eq!(r, Err(Fatal::SubstLengthMismatch));
}

#[test]
fn fatal_path_distinct_from_no_solution() {
    // Unifying two rigid scalars that differ is a recoverable failure; a
    // kind mismatch aborts through the separate fatal channel.
    let mut ops = fresh_ops();
    let mut ex = empty_ex_clause();
    let env = empty_env();
    let r = ops.unify_generic_args_into_ex_clause(&env, &scalar_arg(1), &scalar_arg(2), &mut ex);
    assert_eq!(r, Ok(Err(NoSolution)));
    let lt = GenericArg::Lifetime(Lifetime::Static);
    let r = ops.unify_generic_args_into_ex_clause(&env, &scalar_arg(1), &lt, &mut ex);
    assert_eq!(r, Err(Fatal::KindMismatch));
}

#[test]
fn unify_failure_leaves_ex_clause_unchanged() {
    let mut ops = fresh_ops();
    let mut ex = empty_ex_clause();
    ex.subgoals.push(Literal::Positive(in_env(holds(1, vec![]))));
    ex.subgoals.push(Literal::Negative(in_env(holds(2, vec![]))));
    let env = empty_env();
    let r = ops.unify_generic_args_into_ex_clause(&env, &scalar_arg(1), &scalar_arg(2), &mut ex);
    assert_eq!(r, Ok(Err(NoSolution)));
    assert_eq!(ex.subgoals.len(), 2);
    assert_eq!(ex.constraints.len(), 0);
}

#[test]
fn unify_success_appends_residual_subgoals() {
    // A projection cannot be compared structurally: it is deferred as one
    // residual positive alias-equality subgoal.
    let mut ops = fresh_ops();
    let mut ex = empty_ex_clause();
    ex.subgoals.push(Literal::Positive(in_env(holds(1, vec![]))));
    let env = empty_env();
    let proj = GenericArg::Ty(Ty::Projection(ProjectionTy {
        associated_ty_id: 5,
        substitution: vec![],
    }));
    let r = ops.unify_generic_args_into_ex_clause(&env, &proj, &scalar_arg(3), &mut ex);
    assert_eq!(r, Ok(Ok(())));
    assert_eq!(ex.subgoals.len(), 2);
    match &ex.subgoals[1] {
        Literal::Positive(g) => match &g.goal {
            Goal::Domain(DomainGoal::AliasEq(p, t)) => {
                assert_eq!(p.associated_ty_id, 5);
                assert!(matches!(t, Ty::Scalar(3)));
            }
            _ => panic!("expected an alias-equality residual"),
        },
        _ => panic!("residual subgoals are always positive"),
    }
}

#[test]
fn unify_binds_variables_without_new_subgoals() {
    let mut infer = InferenceTable::new();
    infer.vars.push(VarInfo { kind: VarKind::Ty, universe: 0, binding: None });
    let mut ops = TruncatingInferenceTable::new(10, infer);
    let mut ex = empty_ex_clause();
    let env = empty_env();
    let var = GenericArg::Ty(Ty::InferenceVar(0));
    let r = ops.unify_generic_args_into_ex_clause(&env, &var, &scalar_arg(9), &mut ex);
    assert_eq!(r, Ok(Ok(())));
    assert_eq!(ex.subgoals.len(), 0);
    assert!(matches!(
        ops.infer.vars[0].binding,
        Some(GenericArg::Ty(Ty::Scalar(9)))
    ));
}

#[test]
fn placeholders_unify_only_with_themselves() {
    let mut ops = fresh_ops();
    let mut ex = empty_ex_clause();
    let env = empty_env();
    let p1 = GenericArg::Ty(Ty::Placeholder(slg_core::term::PlaceholderIndex { ui: 1, idx: 0 }));
    let p2 = GenericArg::Ty(Ty::Placeholder(slg_core::term::PlaceholderIndex { ui: 1, idx: 0 }));
    let p3 = GenericArg::Ty(Ty::Placeholder(slg_core::term::PlaceholderIndex { ui: 2, idx: 0 }));
    assert_eq!(ops.unify_generic_args_into_ex_clause(&env, &p1, &p2, &mut ex), Ok(Ok(())));
    assert_eq!(
        ops.unify_generic_args_into_ex_clause(&env, &p1, &p3, &mut ex),
        Ok(Err(NoSolution))
    );
}

#[test]
fn truncation_depth_budgets() {
    // A goal of structural depth five is over a budget of three and
    // within a budget of ten.
    let goal = holds(9, vec![GenericArg::Ty(nested_ty(5))]);
    let mut small = TruncatingInferenceTable::new(3, InferenceTable::new());
    assert!(small.goal_needs_truncation(&in_env(goal)));
    let goal = holds(9, vec![GenericArg::Ty(nested_ty(5))]);
    let mut large = TruncatingInferenceTable::new(10, InferenceTable::new());
    assert!(!large.goal_needs_truncation(&in_env(goal)));
}

#[test]
fn truncation_answer_budgets() {
    let subst = vec![GenericArg::Ty(nested_ty(5))];
    let mut small = TruncatingInferenceTable::new(3, InferenceTable::new());
    assert!(small.answer_needs_truncation(&subst));
    let mut large = TruncatingInferenceTable::new(10, InferenceTable::new());
    assert!(!large.answer_needs_truncation(&subst));
}

#[test]
fn truncation_resolves_bindings() {
    // A substitution holding one variable, where that variable is bound
    // to a deep term, is over a small budget once resolved.
    let deep = nested_ty(5);
    let mut infer = InferenceTable::new();
    infer.vars.push(VarInfo {
        kind: VarKind::Ty,
        universe: 0,
        binding: Some(GenericArg::Ty(deep)),
    });
    let subst = vec![GenericArg::Ty(Ty::InferenceVar(0))];
    let mut small = TruncatingInferenceTable::new(3, infer);
    assert!(small.answer_needs_truncation(&subst));

    let deep = nested_ty(5);
    let mut infer = InferenceTable::new();
    infer.vars.push(VarInfo {
        kind: VarKind::Ty,
        universe: 0,
        binding: Some(GenericArg::Ty(deep)),
    });
    let mut large = TruncatingInferenceTable::new(10, infer);
    let goal = holds(9, vec![GenericArg::Ty(Ty::InferenceVar(0))]);
    assert!(!large.goal_needs_truncation(&in_env(goal)));
}

#[test]
fn residual_subgoals_keep_their_order() {
    // Unifying a tuple of two projections against a tuple of two scalars
    // defers two alias equations, in argument order.
    let mut ops = fresh_ops();
    let mut ex = empty_ex_clause();
    let env = empty_env();
    let projs = GenericArg::Ty(Ty::Tuple(
        2,
        vec![
            GenericArg::Ty(Ty::Projection(ProjectionTy {
                associated_ty_id: 5,
                substitution: vec![],
            })),
            GenericArg::Ty(Ty::Projection(ProjectionTy {
                associated_ty_id: 6,
                substitution: vec![],
            })),
        ],
    ));
    let scalars = GenericArg::Ty(Ty::Tuple(2, vec![scalar_arg(1), scalar_arg(2)]));
    let r = ops.unify_generic_args_into_ex_clause(&env, &projs, &scalars, &mut ex);
    assert_eq!(r, Ok(Ok(())));
    assert_eq!(ex.subgoals.len(), 2);
    let head_of = |lit: &Literal| -> u32 {
        match lit {
            Literal::Positive(g) => match &g.goal {
                Goal::Domain(DomainGoal::AliasEq(p, _)) => p.associated_ty_id,
                _ => panic!("expected an alias-equality residual"),
            },
            _ => panic!("residual subgoals are positive"),
        }
    };
    assert_eq!(head_of(&ex.subgoals[0]), 5);
    assert_eq!(head_of(&ex.subgoals[1]), 6);
}

#[test]
fn registry_append_only() {
    let mut tables = Tables::new();
    let a = table_for(holds(1, vec![]));
    let b = table_for(holds(2, vec![]));
    let ia = tables.insert(a);
    let ib = tables.insert(b);
    assert_eq!(ia, TableIndex { value: 0 });
    assert_eq!(ib, TableIndex { value: 1 });
    assert_eq!(tables.index_of(&ucanonical_goal(holds(1, vec![]))), Some(ia));
    assert_eq!(tables.index_of(&ucanonical_goal(holds(2, vec![]))), Some(ib));
    assert_eq!(tables.index_of(&ucanonical_goal(holds(3, vec![]))), None);
    assert!(ucanonical_goal_eq(
        &tables.index(ia).table_goal,
        &ucanonical_goal(holds(1, vec![]))
    ));
    assert!(ucanonical_goal_eq(
        &tables.index(ib).table_goal,
        &ucanonical_goal(holds(2, vec![]))
    ));
}

#[test]
fn registry_does_not_deduplicate() {
    // Two insertions of one goal create two live entries, and lookups
    // resolve to the newer one; a caller that wants one entry per goal
    // consults index_of first and inserts only on a miss.
    let mut tables = Tables::new();
    let i0 = tables.insert(table_for(holds(1, vec![])));
    let i1 = tables.insert(table_for(holds(1, vec![])));
    assert_ne!(i0, i1);
    assert_eq!(tables.len(), 2);
    assert_eq!(tables.index_of(&ucanonical_goal(holds(1, vec![]))), Some(i1));
    // Caller-side deduplication: a hit means no second insertion.
    let probe = ucanonical_goal(holds(1, vec![]));
    let handle = match tables.index_of(&probe) {
        Some(h) => h,
        None => tables.insert(table_for(holds(1, vec![]))),
    };
    assert_eq!(handle, i1);
    assert_eq!(tables.len(), 2);
}

#[test]
fn registry_next_index_is_pure() {
    let mut tables = Tables::new();
    assert_eq!(tables.next_index(), TableIndex { value: 0 });
    assert_eq!(tables.next_index(), TableIndex { value: 0 });
    let i0 = tables.insert(table_for(holds(1, vec![])));
    assert_eq!(i0, TableIndex { value: 0 });
    assert_eq!(tables.next_index(), TableIndex { value: 1 });
}

#[test]
fn registry_index_replace() {
    let mut tables = Tables::new();
    let i0 = tables.insert(table_for(holds(1, vec![])));
    let replaced = tables.index_replace(i0, table_for(holds(4, vec![])));
    assert!(ucanonical_goal_eq(&replaced.table_goal, &ucanonical_goal(holds(1, vec![]))));
    assert!(ucanonical_goal_eq(
        &tables.index(i0).table_goal,
        &ucanonical_goal(holds(4, vec![]))
    ));
}

#[test]
fn canonical_stability_under_renaming() {
    // Two goals that differ only in inference-variable numbering
    // canonicalize to one memo key.
    let mut t1 = TruncatingInferenceTable::new(
        10,
        InferenceTable {
            vars: vec![VarInfo { kind: VarKind::Ty, universe: 0, binding: None }],
            max_universe: 0,
        },
    );
    let g1 = in_env(holds(1, vec![GenericArg::Ty(Ty::InferenceVar(0))]));
    let (c1, m1) = t1.fully_canonicalize_goal(&g1);

    let mut t2 = TruncatingInferenceTable::new(
        10,
        InferenceTable {
            vars: vec![
                VarInfo { kind: VarKind::Lifetime, universe: 0, binding: None },
                VarInfo { kind: VarKind::Ty, universe: 0, binding: None },
            ],
            max_universe: 0,
        },
    );
    let g2 = in_env(holds(1, vec![GenericArg::Ty(Ty::InferenceVar(1))]));
    let (c2, m2) = t2.fully_canonicalize_goal(&g2);

    assert!(ucanonical_goal_eq(&c1, &c2));
    assert_eq!(m1.universes, vec![0]);
    assert_eq!(m2.universes, vec![0]);
    assert_eq!(c1.canonical.binders.len(), 1);
    assert_eq!(c1.canonical.binders[0], CanonicalVarKind { kind: VarKind::Ty, universe: 0 });
    match &c1.canonical.value.goal {
        Goal::Domain(DomainGoal::Holds(1, s)) => {
            assert!(matches!(
                s[0],
                GenericArg::Ty(Ty::BoundVar(BoundVar { debruijn: 0, index: 0 }))
            ));
        }
        _ => panic!("canonical goal should keep its head"),
    }

    // Inserting both canonical goals without deduplication yields two
    // handles; deduplicating through index_of yields the first.
    let mut tables = Tables::new();
    let i1 = tables.insert(Table { table_goal: c1, coinductive_goal: false, answers: vec![] });
    let probe = {
        let mut t3 = TruncatingInferenceTable::new(
            10,
            InferenceTable {
                vars: vec![VarInfo { kind: VarKind::Ty, universe: 0, binding: None }],
                max_universe: 0,
            },
        );
        let g3 = in_env(holds(1, vec![GenericArg::Ty(Ty::InferenceVar(0))]));
        t3.fully_canonicalize_goal(&g3).0
    };
    assert_eq!(tables.index_of(&probe), Some(i1));
    let i2 = tables.insert(Table { table_goal: c2, coinductive_goal: false, answers: vec![] });
    assert_ne!(i1, i2);
}

#[test]
fn canonicalization_compresses_universes() {
    let mut t = TruncatingInferenceTable::new(
        10,
        InferenceTable {
            vars: vec![VarInfo { kind: VarKind::Ty, universe: 7, binding: None }],
            max_universe: 7,
        },
    );
    let g = in_env(holds(1, vec![GenericArg::Ty(Ty::InferenceVar(0))]));
    let (c, m) = t.fully_canonicalize_goal(&g);
    assert_eq!(m.universes, vec![0, 7]);
    assert_eq!(c.universes, 2);
    assert_eq!(c.canonical.binders[0], CanonicalVarKind { kind: VarKind::Ty, universe: 1 });
}

#[test]
fn instantiate_binders_universally_makes_placeholders() {
    let mut ops = fresh_ops();
    let binders = Binders {
        binders: vec![VarKind::Ty],
        value: holds(1, vec![GenericArg::Ty(Ty::BoundVar(BoundVar { debruijn: 0, index: 0 }))]),
    };
    let g = ops.instantiate_binders_universally(&binders);
    match g {
        Goal::Domain(DomainGoal::Holds(1, s)) => {
            assert!(matches!(
                s[0],
                GenericArg::Ty(Ty::Placeholder(slg_core::term::PlaceholderIndex { ui: 1, idx: 0 }))
            ));
        }
        _ => panic!("instantiation keeps the goal's shape"),
    }
    assert_eq!(ops.infer.max_universe, 1);
}

#[test]
fn instantiate_binders_existentially_makes_variables() {
    let mut ops = fresh_ops();
    let binders = Binders {
        binders: vec![VarKind::Ty],
        value: holds(1, vec![GenericArg::Ty(Ty::BoundVar(BoundVar { debruijn: 0, index: 0 }))]),
    };
    let g = ops.instantiate_binders_existentially(&binders);
    match g {
        Goal::Domain(DomainGoal::Holds(1, s)) => {
            assert!(matches!(s[0], GenericArg::Ty(Ty::InferenceVar(0))));
        }
        _ => panic!("instantiation keeps the goal's shape"),
    }
    assert_eq!(ops.infer.vars.len(), 1);
    assert!(ops.infer.vars[0].binding.is_none());
}

#[test]
fn invert_goal_refuses_open_goals() {
    let mut ops = fresh_ops();
    let open_goal = in_env(holds(1, vec![GenericArg::Ty(Ty::InferenceVar(0))]));
    assert!(ops.invert_goal(&open_goal).is_none());
    let closed = in_env(holds(1, vec![scalar_arg(7)]));
    let inverted = ops.invert_goal(&closed);
    assert!(inverted.is_some());
}

#[test]
fn identity_constrained_subst_maps_each_slot_to_itself() {
    let ops = SlgContextOps::new(10, None);
    let goal = UCanonical {
        canonical: Canonical {
            value: in_env(holds(1, vec![])),
            binders: vec![
                CanonicalVarKind { kind: VarKind::Ty, universe: 0 },
                CanonicalVarKind { kind: VarKind::Lifetime, universe: 0 },
            ],
        },
        universes: 1,
    };
    let ident = ops.identity_constrained_subst(&goal);
    assert_eq!(ident.value.constraints.len(), 0);
    assert_eq!(ident.value.subst.len(), 2);
    assert!(matches!(
        ident.value.subst[0],
        GenericArg::Ty(Ty::BoundVar(BoundVar { debruijn: 0, index: 0 }))
    ));
    assert!(matches!(
        ident.value.subst[1],
        GenericArg::Lifetime(Lifetime::BoundVar(BoundVar { debruijn: 0, index: 1 }))
    ));
    assert_eq!(ops.max_size(), 10);
}

#[test]
fn next_subgoal_index_picks_the_last() {
    let mut ex = empty_ex_clause();
    ex.subgoals.push(Literal::Positive(in_env(holds(1, vec![]))));
    ex.subgoals.push(Literal::Positive(in_env(holds(2, vec![]))));
    assert_eq!(SlgContext::next_subgoal_index(&ex), 1);
}

#[test]
fn resolvent_clause_carries_conditions() {
    let mut ops = fresh_ops();
    let env = empty_env();
    let goal = DomainGoal::Holds(1, vec![scalar_arg(7)]);
    let clause = ProgramClause {
        binders: vec![VarKind::Ty],
        consequence: DomainGoal::Holds(
            1,
            vec![GenericArg::Ty(Ty::BoundVar(BoundVar { debruijn: 0, index: 0 }))],
        ),
        conditions: vec![holds(
            2,
            vec![GenericArg::Ty(Ty::BoundVar(BoundVar { debruijn: 0, index: 0 }))],
        )],
    };
    let subst: Substitution = vec![scalar_arg(7)];
    let r = ops.resolvent_clause(&env, &goal, &subst, &clause);
    match r {
        Ok(Ok(ex)) => {
            assert_eq!(ex.subgoals.len(), 1);
            assert_eq!(ex.delayed_subgoals.len(), 0);
            match &ex.subgoals[0] {
                Literal::Positive(g) => match &g.goal {
                    Goal::Domain(DomainGoal::Holds(2, s)) => {
                        assert!(matches!(s[0], GenericArg::Ty(Ty::InferenceVar(0))));
                    }
                    _ => panic!("the clause body becomes the new subgoal"),
                },
                _ => panic!("clause conditions are positive subgoals"),
            }
            // The head unification bound the clause's variable to the goal's
            // scalar argument.
            assert!(matches!(
                ops.infer.vars[0].binding,
                Some(GenericArg::Ty(Ty::Scalar(7)))
            ));
        }
        _ => panic!("matching heads must resolve"),
    }
}

#[test]
fn resolvent_clause_resolves_matching_bare_heads() {
    let mut ops = fresh_ops();
    let env = empty_env();
    let goal = DomainGoal::Holds(1, vec![]);
    let clause = ProgramClause {
        binders: vec![],
        consequence: DomainGoal::Holds(1, vec![]),
        conditions: vec![],
    };
    let r = ops.resolvent_clause(&env, &goal, &vec![], &clause);
    assert!(matches!(r, Ok(Ok(_))));
}

#[test]
fn resolvent_clause_rejects_mismatched_heads() {
    let mut ops = fresh_ops();
    let env = empty_env();
    let goal = DomainGoal::Holds(1, vec![]);
    let clause = ProgramClause {
        binders: vec![],
        consequence: DomainGoal::Holds(2, vec![]),
        conditions: vec![],
    };
    let r = ops.resolvent_clause(&env, &goal, &vec![], &clause);
    assert!(matches!(r, Ok(Err(NoSolution))));
}

#[test]
fn apply_answer_subst_merges_answer_state() {
    let mut ops = fresh_ops();
    let mut ex = empty_ex_clause();
    let selected = in_env(holds(1, vec![scalar_arg(7)]));
    let answer_table_goal = Canonical {
        value: in_env(holds(
            1,
            vec![GenericArg::Ty(Ty::BoundVar(BoundVar { debruijn: 0, index: 0 }))],
        )),
        binders: vec![CanonicalVarKind { kind: VarKind::Ty, universe: 0 }],
    };
    let answer = Canonical {
        value: AnswerSubst {
            subst: vec![scalar_arg(7)],
            constraints: vec![],
            delayed_subgoals: vec![in_env(holds(3, vec![]))],
        },
        binders: vec![],
    };
    let r = ops.apply_answer_subst(&mut ex, &selected, &answer_table_goal, &answer);
    assert_eq!(r, Ok(Ok(())));
    assert_eq!(ex.delayed_subgoals.len(), 1);

    // An answer that contradicts the selected goal fails recoverably and
    // leaves the derivation untouched.
    let mut ex2 = empty_ex_clause();
    let answer2 = Canonical {
        value: AnswerSubst {
            subst: vec![scalar_arg(8)],
            constraints: vec![],
            delayed_subgoals: vec![],
        },
        binders: vec![],
    };
    let r = ops.apply_answer_subst(&mut ex2, &selected, &answer_table_goal, &answer2);
    assert_eq!(r, Ok(Err(NoSolution)));
    assert_eq!(ex2.delayed_subgoals.len(), 0);
    assert_eq!(ex2.subgoals.len(), 0);
}

#[test]
fn unify_consts_compare_values() {
    let mut ops = fresh_ops();
    let mut ex = empty_ex_clause();
    let env = empty_env();
    let c = |v: u64| -> GenericArg {
        GenericArg::Const(slg_core::term::Const {
            ty: Box::new(Ty::Scalar(0)),
            value: slg_core::term::ConstValue::Concrete(v),
        })
    };
    assert_eq!(ops.unify_generic_args_into_ex_clause(&env, &c(4), &c(4), &mut ex), Ok(Ok(())));
    assert_eq!(
        ops.unify_generic_args_into_ex_clause(&env, &c(4), &c(5), &mut ex),
        Ok(Err(NoSolution))
    );
}

#[test]
fn unify_binds_lifetime_variables() {
    let mut infer = InferenceTable::new();
    infer.vars.push(VarInfo { kind: VarKind::Lifetime, universe: 0, binding: None });
    let mut ops = TruncatingInferenceTable::new(10, infer);
    let mut ex = empty_ex_clause();
    let env = empty_env();
    let la = GenericArg::Lifetime(Lifetime::InferenceVar(0));
    let lb = GenericArg::Lifetime(Lifetime::Static);
    let r = ops.unify_generic_args_into_ex_clause(&env, &la, &lb, &mut ex);
    assert_eq!(r, Ok(Ok(())));
    assert!(matches!(
        ops.infer.vars[0].binding,
        Some(GenericArg::Lifetime(Lifetime::Static))
    ));
    assert_eq!(ex.constraints.len(), 0);
}

#[test]
fn unify_emits_region_constraints() {
    let mut ops = fresh_ops();
    let mut ex = empty_ex_clause();
    let env = empty_env();
    let r1 = GenericArg::Ty(Ty::Ref(
        slg_core::term::Mutability::Not,
        Lifetime::Placeholder(slg_core::term::PlaceholderIndex { ui: 1, idx: 0 }),
        Box::new(Ty::Scalar(1)),
    ));
    let r2 = GenericArg::Ty(Ty::Ref(
        slg_core::term::Mutability::Not,
        Lifetime::Placeholder(slg_core::term::PlaceholderIndex { ui: 1, idx: 1 }),
        Box::new(Ty::Scalar(1)),
    ));
    let r = ops.unify_generic_args_into_ex_clause(&env, &r1, &r2, &mut ex);
    assert_eq!(r, Ok(Ok(())));
    assert_eq!(ex.constraints.len(), 2);
}
