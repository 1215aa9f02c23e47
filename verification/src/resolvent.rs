//! Resolvent operations: combining a selected subgoal with a program
//! clause into the next partial derivation, and splicing a sub-table's
//! canonical answer back into a waiting derivation.

use vstd::prelude::*;
use crate::canonical::{rw_constraint, rw_constraints_exec, rw_in_env_goal, rw_in_env_goals_exec};
use crate::infer::VarInfo;
use crate::key::{copy_args, copy_environment, same_args};
use crate::rewrite::{rw_args_exec, rw_domain_goal_exec, rw_goal, rw_goal_exec, RwOp};
use crate::slg::{
    constraint_under, deferred_alias_literal, into_ex_clause, residual_literal,
    TruncatingInferenceTable,
};
use crate::term::{
    AnswerSubst, Canonical, Constraint, DomainGoal, Environment, ExClause, Fallible, Fatal, Goal,
    InEnvironment, Literal, NoSolution, ProgramClause, Substitution,
};

verus! {

/// The literal is the clause condition `cond`, instantiated with the
/// fresh inference variables numbered from `base`, positive, under (a
/// copy of) the given environment.
pub open spec fn condition_literal(l: Literal, cond: Goal, base: u32, env: Environment) -> bool {
    match l {
        Literal::Positive(ie) => crate::key::same_environment(ie.environment, env) && rw_goal(
            RwOp::InstExistential { base },
            cond,
            ie.goal,
            0,
        ),
        Literal::Negative(_) => false,
    }
}

/// Resolvent construction and answer splicing, acting through the
/// inference table owned by the active derivation attempt.
pub trait ResolventOps: Sized {
    spec fn r_vars(&self) -> Seq<VarInfo>;

    /// Combines the selected goal (instantiated within this table) with a
    /// program clause: the clause's binder is instantiated with fresh
    /// inference variables, its consequence is unified with the goal, and
    /// its conditions become the new derivation's subgoals. Returns the
    /// recoverable "no solution" when the heads cannot match.
    fn resolvent_clause(
        &mut self,
        environment: &Environment,
        goal: &DomainGoal,
        subst: &Substitution,
        clause: &ProgramClause,
    ) -> (r: Result<Fallible<ExClause>, Fatal>)
        requires
            old(self).r_vars().len() + clause.binders@.len() <= u32::MAX,
        ensures
            r matches Ok(Ok(ex)) ==> {
                &&& same_args(ex.subst, *subst)
                &&& ex.delayed_subgoals@.len() == 0
                &&& ex.subgoals@.len() >= clause.conditions@.len()
                &&& forall|j: int|
                    0 <= j < clause.conditions@.len() ==> condition_literal(
                        ex.subgoals@[j],
                        clause.conditions@[j],
                        old(self).r_vars().len() as u32,
                        *environment,
                    )
                &&& forall|j: int|
                    clause.conditions@.len() <= j < ex.subgoals@.len() ==> deferred_alias_literal(
                        ex.subgoals@[j],
                        *environment,
                    )
                &&& forall|j: int|
                    0 <= j < ex.constraints@.len() ==> crate::key::same_environment(
                        ex.constraints@[j].environment,
                        *environment,
                    )
            },
            // For a bare head obligation against a closed bare-head clause,
            // resolution is decided by the head: an equal head resolves, an
            // unequal one fails recoverably.
            *goal matches DomainGoal::Holds(id1, s1) ==> clause.consequence matches
                DomainGoal::Holds(id2, s2) ==> (clause.binders@.len() == 0
                && clause.conditions@.len() == 0 && s1@.len() == 0 && s2@.len() == 0) ==> ((id1
                == id2 ==> (r matches Ok(Ok(_)))) && (id1 != id2 ==> r == Ok::<
                Fallible<ExClause>,
                Fatal,
            >(Err::<ExClause, NoSolution>(NoSolution)))),
    ;

    /// Translates a sub-table's canonical answer substitution into this
    /// derivation: the answer's variables are instantiated afresh, the
    /// answer is applied to the sub-table's goal, that goal is unified
    /// with the selected goal, and the answer's constraints and delayed
    /// subgoals are merged in — constraints are unioned, never dropped.
    /// On a recoverable failure the ex-clause is left exactly as it was.
    fn apply_answer_subst(
        &mut self,
        ex_clause: &mut ExClause,
        selected_goal: &InEnvironment<Goal>,
        answer_table_goal: &Canonical<InEnvironment<Goal>>,
        canonical_answer_subst: &Canonical<AnswerSubst>,
    ) -> (r: Result<Fallible<()>, Fatal>)
        requires
            old(self).r_vars().len() + canonical_answer_subst.binders@.len() <= u32::MAX,
        ensures
            r != Ok::<Fallible<()>, Fatal>(Ok::<(), NoSolution>(())) ==> *final(ex_clause) == *old(
                ex_clause,
            ),
            r == Ok::<Fallible<()>, Fatal>(Ok::<(), NoSolution>(())) ==> {
                &&& final(ex_clause).subst == old(ex_clause).subst
                &&& final(ex_clause).subgoals@.len() >= old(ex_clause).subgoals@.len()
                &&& forall|j: int|
                    0 <= j < old(ex_clause).subgoals@.len() ==> final(ex_clause).subgoals@[j]
                        == old(ex_clause).subgoals@[j]
                &&& final(ex_clause).constraints@.len() >= old(ex_clause).constraints@.len()
                    + canonical_answer_subst.value.constraints@.len()
                &&& forall|j: int|
                    0 <= j < old(ex_clause).constraints@.len() ==> final(ex_clause).constraints@[j]
                        == old(ex_clause).constraints@[j]
                &&& final(ex_clause).delayed_subgoals@.len() == old(
                    ex_clause,
                ).delayed_subgoals@.len() + canonical_answer_subst.value.delayed_subgoals@.len()
                &&& forall|j: int|
                    0 <= j < old(ex_clause).delayed_subgoals@.len()
                        ==> final(ex_clause).delayed_subgoals@[j] == old(
                        ex_clause,
                    ).delayed_subgoals@[j]
                // The merged delayed subgoals are exactly the answer's,
                // instantiated with the fresh variables, in order.
                &&& forall|j: int|
                    0 <= j < canonical_answer_subst.value.delayed_subgoals@.len()
                        ==> rw_in_env_goal(
                        RwOp::InstExistential { base: old(self).r_vars().len() as u32 },
                        canonical_answer_subst.value.delayed_subgoals@[j],
                        final(ex_clause).delayed_subgoals@[old(
                            ex_clause,
                        ).delayed_subgoals@.len() + j],
                    )
                // The answer's constraints stand, instantiated, at the end
                // of the constraint list, in order.
                &&& forall|j: int|
                    0 <= j < canonical_answer_subst.value.constraints@.len() ==> rw_constraint(
                        RwOp::InstExistential { base: old(self).r_vars().len() as u32 },
                        canonical_answer_subst.value.constraints@[j],
                        final(ex_clause).constraints@[final(ex_clause).constraints@.len()
                            - canonical_answer_subst.value.constraints@.len() + j],
                    )
            },
            // For bare head obligations the splice is decided by the head:
            // an equal head succeeds, an unequal one fails recoverably.
            selected_goal.goal matches Goal::Domain(dg1) ==> answer_table_goal.value.goal matches
                Goal::Domain(dg2) ==> dg1 matches DomainGoal::Holds(id1, s1) ==> dg2 matches
                DomainGoal::Holds(id2, s2) ==> (s1@.len() == 0 && s2@.len() == 0) ==> ((id1 == id2
                ==> r == Ok::<Fallible<()>, Fatal>(Ok::<(), NoSolution>(()))) && (id1 != id2 ==> r
                == Ok::<Fallible<()>, Fatal>(Err::<(), NoSolution>(NoSolution)))),
    ;
}

impl ResolventOps for TruncatingInferenceTable {
    open spec fn r_vars(&self) -> Seq<VarInfo> {
        self.infer.vars@
    }

    fn resolvent_clause(
        &mut self,
        environment: &Environment,
        goal: &DomainGoal,
        subst: &Substitution,
        clause: &ProgramClause,
    ) -> (r: Result<Fallible<ExClause>, Fatal>) {
        let base = self.infer.vars.len() as u32;
        proof {
            assert(base == old(self).r_vars().len() as u32);
        }
        let universe = self.infer.max_universe;
        let n = clause.binders.len();
        let mut i: usize = 0;
        while i < n
            invariant
                i <= n,
                n == clause.binders@.len(),
                self.infer.vars@.len() == old(self).infer.vars@.len() + i,
                old(self).infer.vars@.len() + n <= u32::MAX,
                base == old(self).r_vars().len() as u32,
                self.max_size == old(self).max_size,
            decreases n - i,
        {
            let _v = self.infer.new_variable(clause.binders[i], universe);
            i = i + 1;
        }
        let op = RwOp::InstExistential { base };
        let consequence = rw_domain_goal_exec(&op, &clause.consequence, 0);
        let mut out_goals: Vec<DomainGoal> = Vec::new();
        let mut out_constraints: Vec<Constraint> = Vec::new();
        let fuel = self.infer.vars.len();
        let unified = match (goal, &consequence) {
            (DomainGoal::Holds(id1, s1), DomainGoal::Holds(id2, s2)) => {
                if *id1 != *id2 {
                    return Ok(Err(NoSolution));
                }
                self.infer.unify_substs(s1, s2, fuel, &mut out_goals, &mut out_constraints)
            },
            (DomainGoal::AliasEq(p1, t1), DomainGoal::AliasEq(p2, t2)) => {
                if p1.associated_ty_id != p2.associated_ty_id {
                    return Ok(Err(NoSolution));
                }
                match self.infer.unify_substs(
                    &p1.substitution,
                    &p2.substitution,
                    fuel,
                    &mut out_goals,
                    &mut out_constraints,
                ) {
                    Err(f) => Err(f),
                    Ok(Err(ns)) => Ok(Err(ns)),
                    Ok(Ok(())) => self.infer.unify_ty(
                        t1,
                        t2,
                        fuel,
                        &mut out_goals,
                        &mut out_constraints,
                    ),
                }
            },
            _ => {
                return Ok(Err(NoSolution));
            },
        };
        match unified {
            Err(f) => {
                return Err(f);
            },
            Ok(Err(ns)) => {
                return Ok(Err(ns));
            },
            Ok(Ok(())) => {},
        }
        let mut ex_clause = ExClause {
            subst: copy_args(subst),
            constraints: Vec::new(),
            subgoals: Vec::new(),
            delayed_subgoals: Vec::new(),
        };
        let m = clause.conditions.len();
        let mut j: usize = 0;
        while j < m
            invariant
                j <= m,
                m == clause.conditions@.len(),
                base == old(self).r_vars().len() as u32,
                same_args(ex_clause.subst, *subst),
                ex_clause.delayed_subgoals@.len() == 0,
                ex_clause.constraints@.len() == 0,
                ex_clause.subgoals@.len() == j,
                forall|k: int|
                    0 <= k < j ==> condition_literal(
                        ex_clause.subgoals@[k],
                        clause.conditions@[k],
                        base,
                        *environment,
                    ),
            decreases m - j,
        {
            let op2 = RwOp::InstExistential { base };
            let condition = rw_goal_exec(&op2, &clause.conditions[j], 0);
            let environment2 = copy_environment(environment);
            let lit = Literal::Positive(
                InEnvironment { environment: environment2, goal: condition },
            );
            proof {
                assert(condition_literal(lit, clause.conditions@[j as int], base, *environment));
            }
            let ghost pre = ex_clause.subgoals@;
            ex_clause.subgoals.push(lit);
            proof {
                assert(forall|k: int| 0 <= k < pre.len() ==> ex_clause.subgoals@[k] == pre[k]);
            }
            j = j + 1;
        }
        let ghost g0 = out_goals@;
        let ghost c0 = out_constraints@;
        let ghost pre_subgoals = ex_clause.subgoals@;
        into_ex_clause(environment, out_goals, out_constraints, &mut ex_clause);
        proof {
            assert forall|k: int|
                clause.conditions@.len() <= k < ex_clause.subgoals@.len() implies
                deferred_alias_literal(ex_clause.subgoals@[k], *environment) by {
                let k2 = k - pre_subgoals.len();
                assert(residual_literal(ex_clause.subgoals@[k], g0[k2], *environment));
                assert(g0[k2] matches DomainGoal::AliasEq(_, _));
            }
            assert forall|k: int|
                0 <= k < ex_clause.constraints@.len() implies crate::key::same_environment(
                ex_clause.constraints@[k].environment,
                *environment,
            ) by {
                assert(constraint_under(ex_clause.constraints@[k], c0[k], *environment));
            }
        }
        Ok(Ok(ex_clause))
    }

    fn apply_answer_subst(
        &mut self,
        ex_clause: &mut ExClause,
        selected_goal: &InEnvironment<Goal>,
        answer_table_goal: &Canonical<InEnvironment<Goal>>,
        canonical_answer_subst: &Canonical<AnswerSubst>,
    ) -> (r: Result<Fallible<()>, Fatal>) {
        let base = self.infer.vars.len() as u32;
        let universe = self.infer.max_universe;
        let n = canonical_answer_subst.binders.len();
        let mut i: usize = 0;
        while i < n
            invariant
                i <= n,
                n == canonical_answer_subst.binders@.len(),
                self.infer.vars@.len() == old(self).infer.vars@.len() + i,
                old(self).infer.vars@.len() + n <= u32::MAX,
            decreases n - i,
        {
            let _v = self.infer.new_variable(
                canonical_answer_subst.binders[i].kind,
                canonical_answer_subst.binders[i].universe,
            );
            i = i + 1;
        }
        let op_inst = RwOp::InstExistential { base };
        let answer_args = rw_args_exec(&op_inst, &canonical_answer_subst.value.subst, 0);
        let answer_constraints = rw_constraints_exec(
            &op_inst,
            &canonical_answer_subst.value.constraints,
        );
        let answer_delayed = rw_in_env_goals_exec(
            &op_inst,
            &canonical_answer_subst.value.delayed_subgoals,
        );
        let op_subst = RwOp::SubstArgs { args: answer_args };
        let answer_goal = rw_goal_exec(&op_subst, &answer_table_goal.value.goal, 0);
        let mut out_goals: Vec<DomainGoal> = Vec::new();
        let mut out_constraints: Vec<Constraint> = Vec::new();
        let fuel = self.infer.vars.len();
        match self.infer.unify_goal(
            &selected_goal.goal,
            &answer_goal,
            fuel,
            &mut out_goals,
            &mut out_constraints,
        ) {
            Err(f) => {
                return Err(f);
            },
            Ok(Err(ns)) => {
                return Ok(Err(ns));
            },
            Ok(Ok(())) => {},
        }
        into_ex_clause(&selected_goal.environment, out_goals, out_constraints, ex_clause);
        let ghost sub_mid = ex_clause.subgoals@;
        let ghost con_mid = ex_clause.constraints@;
        let ghost del_mid = ex_clause.delayed_subgoals@;
        let ghost subst_mid = ex_clause.subst;
        let ghost orig_ac = answer_constraints@;
        let mut answer_constraints = answer_constraints;
        while answer_constraints.len() > 0
            invariant
                ex_clause.subst == subst_mid,
                ex_clause.subgoals@ == sub_mid,
                ex_clause.delayed_subgoals@ == del_mid,
                con_mid.len() <= ex_clause.constraints@.len(),
                ex_clause.constraints@.len() + answer_constraints@.len() == con_mid.len()
                    + orig_ac.len(),
                ex_clause.constraints@.subrange(0, con_mid.len() as int) == con_mid,
                answer_constraints@ == orig_ac.subrange(
                    ex_clause.constraints@.len() - con_mid.len(),
                    orig_ac.len() as int,
                ),
                forall|j: int|
                    0 <= j < ex_clause.constraints@.len() - con_mid.len()
                        ==> ex_clause.constraints@[con_mid.len() + j] == orig_ac[j],
            decreases answer_constraints@.len(),
        {
            let ghost k = ex_clause.constraints@.len() - con_mid.len();
            let c = answer_constraints.remove(0);
            proof {
                assert(c == orig_ac[k]);
                assert(answer_constraints@ =~= orig_ac.subrange(k + 1, orig_ac.len() as int));
            }
            let ghost pre = ex_clause.constraints@;
            ex_clause.constraints.push(c);
            proof {
                assert(ex_clause.constraints@.subrange(0, con_mid.len() as int) =~= con_mid);
                assert(forall|j: int| 0 <= j < pre.len() ==> ex_clause.constraints@[j] == pre[j]);
                assert(ex_clause.constraints@[pre.len() as int] == c);
            }
        }
        let ghost con_mid2 = ex_clause.constraints@;
        let ghost orig_del = answer_delayed@;
        let mut answer_delayed = answer_delayed;
        while answer_delayed.len() > 0
            invariant
                ex_clause.subst == subst_mid,
                ex_clause.subgoals@ == sub_mid,
                ex_clause.constraints@ == con_mid2,
                ex_clause.delayed_subgoals@.len() + answer_delayed@.len() == del_mid.len()
                    + orig_del.len(),
                del_mid.len() <= ex_clause.delayed_subgoals@.len(),
                ex_clause.delayed_subgoals@.subrange(0, del_mid.len() as int) == del_mid,
                answer_delayed@ == orig_del.subrange(
                    ex_clause.delayed_subgoals@.len() - del_mid.len(),
                    orig_del.len() as int,
                ),
                forall|j: int|
                    0 <= j < ex_clause.delayed_subgoals@.len() - del_mid.len()
                        ==> ex_clause.delayed_subgoals@[del_mid.len() + j] == orig_del[j],
            decreases answer_delayed@.len(),
        {
            let ghost k = ex_clause.delayed_subgoals@.len() - del_mid.len();
            let g = answer_delayed.remove(0);
            proof {
                assert(g == orig_del[k]);
                assert(answer_delayed@ =~= orig_del.subrange(k + 1, orig_del.len() as int));
            }
            let ghost pre = ex_clause.delayed_subgoals@;
            ex_clause.delayed_subgoals.push(g);
            proof {
                assert(ex_clause.delayed_subgoals@.subrange(0, del_mid.len() as int) =~= del_mid);
                assert(forall|j: int|
                    0 <= j < pre.len() ==> ex_clause.delayed_subgoals@[j] == pre[j]);
                assert(ex_clause.delayed_subgoals@[pre.len() as int] == g);
            }
        }
        proof {
            assert forall|j: int| 0 <= j < old(ex_clause).subgoals@.len() implies
                ex_clause.subgoals@[j] == old(ex_clause).subgoals@[j] by {}
            assert forall|j: int| 0 <= j < old(ex_clause).constraints@.len() implies
                ex_clause.constraints@[j] == old(ex_clause).constraints@[j] by {
                assert(ex_clause.constraints@.subrange(0, con_mid.len() as int)[j]
                    == con_mid[j]);
                assert(con_mid.subrange(0, old(ex_clause).constraints@.len() as int)[j]
                    == old(ex_clause).constraints@[j]);
            }
            assert forall|j: int| 0 <= j < old(ex_clause).delayed_subgoals@.len() implies
                ex_clause.delayed_subgoals@[j] == old(ex_clause).delayed_subgoals@[j] by {
                assert(ex_clause.delayed_subgoals@.subrange(0, del_mid.len() as int)[j]
                    == del_mid[j]);
            }
            assert forall|j: int|
                0 <= j < canonical_answer_subst.value.delayed_subgoals@.len() implies
                rw_in_env_goal(
                RwOp::InstExistential { base: old(self).r_vars().len() as u32 },
                canonical_answer_subst.value.delayed_subgoals@[j],
                ex_clause.delayed_subgoals@[old(ex_clause).delayed_subgoals@.len() + j],
            ) by {
                assert(ex_clause.delayed_subgoals@[del_mid.len() + j] == orig_del[j]);
            }
            assert forall|j: int|
                0 <= j < canonical_answer_subst.value.constraints@.len() implies rw_constraint(
                RwOp::InstExistential { base: old(self).r_vars().len() as u32 },
                canonical_answer_subst.value.constraints@[j],
                ex_clause.constraints@[ex_clause.constraints@.len()
                    - canonical_answer_subst.value.constraints@.len() + j],
            ) by {
                assert(ex_clause.constraints@[con_mid.len() + j] == orig_ac[j]);
            }
        }
        Ok(Ok(()))
    }
}

} // verus!
