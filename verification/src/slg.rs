//! The capability interfaces a resolution step is built from — truncation,
//! unification and canonicalization, resolvents — and the inference-table
//! session type implementing them.

use vstd::prelude::*;
use crate::canonical::{
    canonicalize_answer_subst, canonicalize_constrained_subst, canonicalize_ex_clause,
    cv_answer_subst, cv_constrained_subst, cv_ex_clause, cv_goal, fully_canonicalize_goal,
    goal_has_inference_var, invert_goal, rw_constraint, rw_in_env_goal, rw_literal, slots_for,
};
use crate::infer::{arg_kind, bindings_extend, InferenceTable, VarInfo};
use crate::key::{copy_environment, same_environment, same_goal_in_environment};
use crate::rewrite::{rw_args, rw_goal, RwOp};
use crate::term::{
    AnswerSubst, Binders, BoundVar, Canonical, CanonicalVarKind, Constraint, ConstrainedSubst,
    DomainGoal, Environment, ExClause, Fallible, Fatal, GenericArg, Goal, InEnvironment, Lifetime,
    Literal, NoSolution, Substitution, Ty, UCanonical, UniverseMap, VarKind,
};
use crate::truncate::{args_depth, goal_depth, args_depth_exceeds, goal_depth_exceeds};

verus! {

/// The subgoal-selection policy: always the most recently added subgoal.
/// A documented placeholder, not a tuned heuristic; no contract above
/// depends on which subgoal is picked.
pub struct SlgContext {}

impl SlgContext {
    /// The index of the subgoal a step works on next.
    pub fn next_subgoal_index(ex_clause: &ExClause) -> (r: usize)
        requires
            ex_clause.subgoals@.len() > 0,
        ensures
            r == ex_clause.subgoals@.len() - 1,
    {
        ex_clause.subgoals.len() - 1
    }
}

/// Per-session parameters the driver supplies: the size budget for the
/// truncation gate and an optional cap on the number of answers.
pub struct SlgContextOps {
    pub max_size: usize,
    pub expected_answers: Option<usize>,
}

/// The identity argument for slot `i` of a canonical template.
pub open spec fn identity_arg(kind: VarKind, i: int) -> GenericArg {
    match kind {
        VarKind::Ty => GenericArg::Ty(Ty::BoundVar(BoundVar { debruijn: 0, index: i as u32 })),
        VarKind::Lifetime => GenericArg::Lifetime(
            Lifetime::BoundVar(BoundVar { debruijn: 0, index: i as u32 }),
        ),
        VarKind::Const => GenericArg::Const(
            crate::term::Const {
                ty: Box::new(Ty::Error),
                value: crate::term::ConstValue::BoundVar(BoundVar { debruijn: 0, index: i as u32 }),
            },
        ),
    }
}

impl SlgContextOps {
    pub fn new(max_size: usize, expected_answers: Option<usize>) -> (r: SlgContextOps)
        ensures
            r.max_size == max_size,
            r.expected_answers == expected_answers,
    {
        SlgContextOps { max_size, expected_answers }
    }

    pub fn max_size(&self) -> (r: usize)
        ensures
            r == self.max_size,
    {
        self.max_size
    }

    /// The identity constrained substitution of a goal: each of the goal's
    /// own slots mapped to itself, under no constraints. It seeds a
    /// table's record before any clause has fired.
    pub fn identity_constrained_subst(&self, goal: &UCanonical<InEnvironment<Goal>>) -> (r:
        Canonical<ConstrainedSubst>)
        requires
            goal.canonical.binders@.len() <= u32::MAX,
        ensures
            r.binders@ == goal.canonical.binders@,
            r.value.constraints@.len() == 0,
            r.value.subst@.len() == goal.canonical.binders@.len(),
            forall|i: int|
                0 <= i < goal.canonical.binders@.len() ==> r.value.subst@[i] == identity_arg(
                    goal.canonical.binders@[i].kind,
                    i,
                ),
    {
        let n = goal.canonical.binders.len();
        let mut subst: Substitution = Vec::new();
        let mut binders: Vec<CanonicalVarKind> = Vec::new();
        let mut i: usize = 0;
        while i < n
            invariant
                i <= n,
                n == goal.canonical.binders@.len(),
                n <= u32::MAX,
                subst@.len() == i,
                binders@.len() == i,
                forall|j: int| 0 <= j < i ==> binders@[j] == goal.canonical.binders@[j],
                forall|j: int|
                    0 <= j < i ==> subst@[j] == identity_arg(goal.canonical.binders@[j].kind, j),
            decreases n - i,
        {
            let kind = goal.canonical.binders[i].kind;
            let arg = match kind {
                VarKind::Ty => GenericArg::Ty(
                    Ty::BoundVar(BoundVar { debruijn: 0, index: i as u32 }),
                ),
                VarKind::Lifetime => GenericArg::Lifetime(
                    Lifetime::BoundVar(BoundVar { debruijn: 0, index: i as u32 }),
                ),
                VarKind::Const => GenericArg::Const(
                    crate::term::Const {
                        ty: Box::new(Ty::Error),
                        value: crate::term::ConstValue::BoundVar(
                            BoundVar { debruijn: 0, index: i as u32 },
                        ),
                    },
                ),
            };
            subst.push(arg);
            binders.push(goal.canonical.binders[i]);
            i = i + 1;
        }
        proof {
            assert(binders@ =~= goal.canonical.binders@);
        }
        Canonical { value: ConstrainedSubst { subst, constraints: Vec::new() }, binders }
    }
}

/// The literal is a deferred alias-equality obligation: positive, under
/// (a copy of) the given environment, and its goal is an alias-equality
/// domain goal — the only residual obligation unification produces.
pub open spec fn deferred_alias_literal(l: Literal, env: Environment) -> bool {
    match l {
        Literal::Positive(g) => same_environment(g.environment, env) && (g.goal matches
            Goal::Domain(dg) && dg matches DomainGoal::AliasEq(_, _)),
        Literal::Negative(_) => false,
    }
}

/// The truncation gate: whether a goal or an answer substitution has grown
/// past the session's size budget. The size is measured after resolving
/// inference variables through the session's inference table; resolution
/// carries fuel equal to the number of variables, which suffices for any
/// acyclic set of bindings.
pub trait TruncateOps: Sized {
    spec fn truncate_budget(&self) -> usize;

    spec fn truncate_vars(&self) -> Seq<VarInfo>;

    /// Whether the subgoal, resolved through the table, is too large to
    /// keep expanding.
    fn goal_needs_truncation(&mut self, subgoal: &InEnvironment<Goal>) -> (r: bool)
        ensures
            *final(self) == *old(self),
            r == (goal_depth(
                old(self).truncate_vars(),
                subgoal.goal,
                old(self).truncate_vars().len(),
            ) > old(self).truncate_budget()),
    ;

    /// Whether the answer substitution, resolved through the table, is too
    /// large to keep.
    fn answer_needs_truncation(&mut self, subst: &Substitution) -> (r: bool)
        ensures
            *final(self) == *old(self),
            r == (args_depth(
                old(self).truncate_vars(),
                *subst,
                old(self).truncate_vars().len(),
                0,
            ) > old(self).truncate_budget()),
    ;
}

/// Methods for unifying and manipulating terms and binders, acting through
/// the inference table owned by the active derivation attempt.
pub trait UnificationOps: Sized {
    spec fn u_vars(&self) -> Seq<VarInfo>;

    spec fn u_max_universe(&self) -> u32;

    /// Instantiates a quantified goal's binder universally: each bound
    /// variable becomes a rigid placeholder in a freshly minted universe.
    /// Used when a universally quantified goal is being assumed.
    fn instantiate_binders_universally(&mut self, arg: &Binders) -> (r: Goal)
        requires
            old(self).u_max_universe() < u32::MAX,
        ensures
            final(self).u_vars() == old(self).u_vars(),
            final(self).u_max_universe() == old(self).u_max_universe() + 1,
            rw_goal(
                RwOp::InstUniversal { universe: (old(self).u_max_universe() + 1) as u32 },
                arg.value,
                r,
                0,
            ),
    ;

    /// Instantiates a quantified goal's binder existentially: each bound
    /// variable becomes a fresh, unifiable inference variable. Used when
    /// the goal is being proven and its variables are unknowns to solve.
    fn instantiate_binders_existentially(&mut self, arg: &Binders) -> (r: Goal)
        requires
            old(self).u_vars().len() + arg.binders@.len() <= u32::MAX,
        ensures
            final(self).u_max_universe() == old(self).u_max_universe(),
            final(self).u_vars().len() == old(self).u_vars().len() + arg.binders@.len(),
            forall|j: int|
                0 <= j < old(self).u_vars().len() ==> final(self).u_vars()[j] == old(
                    self,
                ).u_vars()[j],
            forall|j: int|
                0 <= j < arg.binders@.len() ==> final(self).u_vars()[old(self).u_vars().len() + j]
                    == (VarInfo {
                    kind: arg.binders@[j],
                    universe: old(self).u_max_universe(),
                    binding: None::<GenericArg>,
                }),
            rw_goal(
                RwOp::InstExistential { base: old(self).u_vars().len() as u32 },
                arg.value,
                r,
                0,
            ),
    ;

    /// Canonicalizes a goal fully, quantifying over its universes; the
    /// returned map translates the compressed universes back.
    fn fully_canonicalize_goal(&mut self, value: &InEnvironment<Goal>) -> (r: (
        UCanonical<InEnvironment<Goal>>,
        UniverseMap,
    ))
        ensures
            *final(self) == *old(self),
            ({
                let (order, unis) = cv_goal(
                    old(self).u_vars(),
                    value.goal,
                    (Seq::<u32>::empty(), seq![0u32]),
                );
                &&& r.1.universes@ == unis
                &&& (unis.len() <= u32::MAX ==> r.0.universes == unis.len())
                &&& r.0.canonical.binders@.len() == order.len()
                &&& forall|j: int|
                    0 <= j < order.len() ==> r.0.canonical.binders@[j] == slots_for(
                        old(self).u_vars(),
                        order,
                        unis,
                        j,
                    )
                &&& same_environment(r.0.canonical.value.environment, value.environment)
                &&& exists|op1: RwOp, op2: RwOp, mid: Goal|
                    {
                        &&& op1 matches RwOp::Canonicalize { order: o } && o@ == order
                        &&& op2 matches RwOp::CompressUniverses { umap: u } && u@ == unis
                        &&& rw_goal(op1, value.goal, mid, 0)
                        &&& rw_goal(op2, mid, r.0.canonical.value.goal, 0)
                    }
            }),
    ;

    /// Canonicalizes a partial derivation whole.
    fn canonicalize_ex_clause(&mut self, value: &ExClause) -> (r: Canonical<ExClause>)
        ensures
            *final(self) == *old(self),
            ({
                let (order, _unis) = cv_ex_clause(old(self).u_vars(), *value);
                &&& r.binders@.len() == order.len()
                &&& forall|j: int|
                    0 <= j < order.len() ==> r.binders@[j] == slots_for(
                        old(self).u_vars(),
                        order,
                        Seq::<u32>::empty(),
                        j,
                    )
                &&& exists|op: RwOp|
                    {
                        &&& op matches RwOp::Canonicalize { order: o } && o@ == order
                        &&& rw_args(op, value.subst, r.value.subst, 0)
                        &&& r.value.constraints@.len() == value.constraints@.len()
                        &&& forall|j: int|
                            0 <= j < value.constraints@.len() ==> rw_constraint(
                                op,
                                value.constraints@[j],
                                r.value.constraints@[j],
                            )
                        &&& r.value.subgoals@.len() == value.subgoals@.len()
                        &&& forall|j: int|
                            0 <= j < value.subgoals@.len() ==> rw_literal(
                                op,
                                value.subgoals@[j],
                                r.value.subgoals@[j],
                            )
                        &&& r.value.delayed_subgoals@.len() == value.delayed_subgoals@.len()
                        &&& forall|j: int|
                            0 <= j < value.delayed_subgoals@.len() ==> rw_in_env_goal(
                                op,
                                value.delayed_subgoals@[j],
                                r.value.delayed_subgoals@[j],
                            )
                    }
            }),
    ;

    /// Canonicalizes a substitution with the constraints it was built
    /// under.
    fn canonicalize_constrained_subst(
        &mut self,
        subst: Substitution,
        constraints: Vec<InEnvironment<Constraint>>,
    ) -> (r: Canonical<ConstrainedSubst>)
        ensures
            *final(self) == *old(self),
            ({
                let (order, _unis) = cv_constrained_subst(old(self).u_vars(), subst, constraints);
                &&& r.binders@.len() == order.len()
                &&& forall|j: int|
                    0 <= j < order.len() ==> r.binders@[j] == slots_for(
                        old(self).u_vars(),
                        order,
                        Seq::<u32>::empty(),
                        j,
                    )
                &&& exists|op: RwOp|
                    {
                        &&& op matches RwOp::Canonicalize { order: o } && o@ == order
                        &&& rw_args(op, subst, r.value.subst, 0)
                        &&& r.value.constraints@.len() == constraints@.len()
                        &&& forall|j: int|
                            0 <= j < constraints@.len() ==> rw_constraint(
                                op,
                                constraints@[j],
                                r.value.constraints@[j],
                            )
                    }
            }),
    ;

    /// Canonicalizes an answer substitution together with its delayed
    /// subgoals.
    fn canonicalize_answer_subst(
        &mut self,
        subst: Substitution,
        constraints: Vec<InEnvironment<Constraint>>,
        delayed_subgoals: Vec<InEnvironment<Goal>>,
    ) -> (r: Canonical<AnswerSubst>)
        ensures
            *final(self) == *old(self),
            ({
                let (order, _unis) = cv_answer_subst(
                    old(self).u_vars(),
                    subst,
                    constraints,
                    delayed_subgoals,
                );
                &&& r.binders@.len() == order.len()
                &&& forall|j: int|
                    0 <= j < order.len() ==> r.binders@[j] == slots_for(
                        old(self).u_vars(),
                        order,
                        Seq::<u32>::empty(),
                        j,
                    )
                &&& exists|op: RwOp|
                    {
                        &&& op matches RwOp::Canonicalize { order: o } && o@ == order
                        &&& rw_args(op, subst, r.value.subst, 0)
                        &&& r.value.constraints@.len() == constraints@.len()
                        &&& forall|j: int|
                            0 <= j < constraints@.len() ==> rw_constraint(
                                op,
                                constraints@[j],
                                r.value.constraints@[j],
                            )
                        &&& r.value.delayed_subgoals@.len() == delayed_subgoals@.len()
                        &&& forall|j: int|
                            0 <= j < delayed_subgoals@.len() ==> rw_in_env_goal(
                                op,
                                delayed_subgoals@[j],
                                r.value.delayed_subgoals@[j],
                            )
                    }
            }),
    ;

    /// The inverted form of a goal for negative-subgoal handling, or none
    /// when the goal still contains unresolved existential variables.
    fn invert_goal(&mut self, value: &InEnvironment<Goal>) -> (r: Option<InEnvironment<Goal>>)
        ensures
            *final(self) == *old(self),
            match r {
                Some(g) => !goal_has_inference_var(value.goal) && same_goal_in_environment(
                    g,
                    *value,
                ),
                None => goal_has_inference_var(value.goal),
            },
    ;

    /// Unifies the two arguments; on success, appends the residual
    /// positive subgoals and the region constraints produced to the
    /// ex-clause. On any failure the ex-clause is left exactly as it was
    /// (no partial mutation); a kind mismatch between the two arguments is
    /// a fatal broken invariant, kept apart from the recoverable "no
    /// solution" outcome.
    fn unify_generic_args_into_ex_clause(
        &mut self,
        environment: &Environment,
        a: &GenericArg,
        b: &GenericArg,
        ex_clause: &mut ExClause,
    ) -> (r: Result<Fallible<()>, Fatal>)
        ensures
            final(self).u_max_universe() == old(self).u_max_universe(),
            bindings_extend(old(self).u_vars(), final(self).u_vars()),
            arg_kind(*a) != arg_kind(*b) ==> r == Err::<Fallible<()>, Fatal>(Fatal::KindMismatch),
            r != Ok::<Fallible<()>, Fatal>(Ok::<(), NoSolution>(())) ==> *final(ex_clause) == *old(
                ex_clause,
            ),
            r == Ok::<Fallible<()>, Fatal>(Ok::<(), NoSolution>(())) ==> {
                &&& final(ex_clause).subst == old(ex_clause).subst
                &&& final(ex_clause).delayed_subgoals == old(ex_clause).delayed_subgoals
                &&& final(ex_clause).subgoals@.len() >= old(ex_clause).subgoals@.len()
                &&& forall|j: int|
                    0 <= j < old(ex_clause).subgoals@.len() ==> final(ex_clause).subgoals@[j]
                        == old(ex_clause).subgoals@[j]
                &&& forall|j: int|
                    old(ex_clause).subgoals@.len() <= j < final(ex_clause).subgoals@.len()
                        ==> deferred_alias_literal(final(ex_clause).subgoals@[j], *environment)
                &&& final(ex_clause).constraints@.len() >= old(ex_clause).constraints@.len()
                &&& forall|j: int|
                    0 <= j < old(ex_clause).constraints@.len() ==> final(ex_clause).constraints@[j]
                        == old(ex_clause).constraints@[j]
                &&& forall|j: int|
                    old(ex_clause).constraints@.len() <= j < final(ex_clause).constraints@.len()
                        ==> same_environment(
                        final(ex_clause).constraints@[j].environment,
                        *environment,
                    )
            },
            // An unbound inference variable unifies with any term free of
            // inference variables: success is owed, the variable is bound
            // to that term, and nothing is appended.
            *a matches GenericArg::Ty(t1) ==> *b matches GenericArg::Ty(t2) ==> t1 matches
                Ty::InferenceVar(v) ==> ((v as int) < old(self).u_vars().len() && old(
                self,
            ).u_vars()[v as int].binding is None && !crate::infer::occ_ty(t2, None)) ==> (r == Ok::<
                Fallible<()>,
                Fatal,
            >(Ok::<(), NoSolution>(())) && crate::infer::var_bound_to_ty(final(self).u_vars(), v, t2)
                && final(ex_clause).subgoals@.len() == old(ex_clause).subgoals@.len()
                && final(ex_clause).constraints@.len() == old(ex_clause).constraints@.len()),
            *a matches GenericArg::Ty(t1) ==> *b matches GenericArg::Ty(t2) ==> t2 matches
                Ty::InferenceVar(w) ==> ((w as int) < old(self).u_vars().len() && old(
                self,
            ).u_vars()[w as int].binding is None && !crate::infer::occ_ty(t1, None)) ==> (r == Ok::<
                Fallible<()>,
                Fatal,
            >(Ok::<(), NoSolution>(())) && crate::infer::var_bound_to_ty(final(self).u_vars(), w, t1)
                && final(ex_clause).subgoals@.len() == old(ex_clause).subgoals@.len()
                && final(ex_clause).constraints@.len() == old(ex_clause).constraints@.len()),
            // A rigid placeholder unifies with nothing but an identical
            // placeholder: the failure is the recoverable one.
            *a matches GenericArg::Ty(t1) ==> *b matches GenericArg::Ty(t2) ==> ((t1 matches
                Ty::Placeholder(_) && crate::infer::rigid_non_placeholder(t2)) || (t2 matches
                Ty::Placeholder(_) && crate::infer::rigid_non_placeholder(t1))) ==> r == Ok::<
                Fallible<()>,
                Fatal,
            >(Err::<(), NoSolution>(NoSolution)),
            *a matches GenericArg::Ty(t1) ==> *b matches GenericArg::Ty(t2) ==> t1 matches
                Ty::Placeholder(p1) ==> t2 matches Ty::Placeholder(p2) ==> r == (if p1 == p2 {
                Ok::<Fallible<()>, Fatal>(Ok::<(), NoSolution>(()))
            } else {
                Ok::<Fallible<()>, Fatal>(Err::<(), NoSolution>(NoSolution))
            }),
            *a matches GenericArg::Ty(t1) ==> *b matches GenericArg::Ty(t2) ==> t1 matches
                Ty::Scalar(s1) ==> t2 matches Ty::Scalar(s2) ==> r == (if s1 == s2 {
                Ok::<Fallible<()>, Fatal>(Ok::<(), NoSolution>(()))
            } else {
                Ok::<Fallible<()>, Fatal>(Err::<(), NoSolution>(NoSolution))
            }),
    ;
}

/// An inference table paired with the session's truncation budget.
pub struct TruncatingInferenceTable {
    pub max_size: usize,
    pub infer: InferenceTable,
}

impl TruncatingInferenceTable {
    pub fn new(max_size: usize, infer: InferenceTable) -> (r: TruncatingInferenceTable)
        ensures
            r.max_size == max_size,
            r.infer.vars@ == infer.vars@,
            r.infer.max_universe == infer.max_universe,
    {
        TruncatingInferenceTable { max_size, infer }
    }
}

impl TruncateOps for TruncatingInferenceTable {
    open spec fn truncate_budget(&self) -> usize {
        self.max_size
    }

    open spec fn truncate_vars(&self) -> Seq<VarInfo> {
        self.infer.vars@
    }

    fn goal_needs_truncation(&mut self, subgoal: &InEnvironment<Goal>) -> (r: bool) {
        let fuel = self.infer.vars.len();
        goal_depth_exceeds(&self.infer.vars, &subgoal.goal, self.max_size, fuel)
    }

    fn answer_needs_truncation(&mut self, subst: &Substitution) -> (r: bool) {
        let fuel = self.infer.vars.len();
        args_depth_exceeds(&self.infer.vars, subst, self.max_size, fuel)
    }
}

impl UnificationOps for TruncatingInferenceTable {
    open spec fn u_vars(&self) -> Seq<VarInfo> {
        self.infer.vars@
    }

    open spec fn u_max_universe(&self) -> u32 {
        self.infer.max_universe
    }

    fn instantiate_binders_universally(&mut self, arg: &Binders) -> (r: Goal) {
        let universe = self.infer.new_universe();
        let op = RwOp::InstUniversal { universe };
        crate::rewrite::rw_goal_exec(&op, &arg.value, 0)
    }

    fn instantiate_binders_existentially(&mut self, arg: &Binders) -> (r: Goal) {
        let base = self.infer.vars.len() as u32;
        let universe = self.infer.max_universe;
        let n = arg.binders.len();
        let mut i: usize = 0;
        while i < n
            invariant
                i <= n,
                n == arg.binders@.len(),
                self.infer.vars@.len() == old(self).infer.vars@.len() + i,
                old(self).infer.vars@.len() + n <= u32::MAX,
                self.infer.max_universe == old(self).infer.max_universe,
                universe == old(self).infer.max_universe,
                forall|j: int|
                    0 <= j < old(self).infer.vars@.len() ==> self.infer.vars@[j] == old(
                        self,
                    ).infer.vars@[j],
                forall|j: int|
                    0 <= j < i ==> self.infer.vars@[old(self).infer.vars@.len() + j] == (VarInfo {
                        kind: arg.binders@[j],
                        universe: old(self).infer.max_universe,
                        binding: None::<GenericArg>,
                    }),
            decreases n - i,
        {
            let _v = self.infer.new_variable(arg.binders[i], universe);
            i = i + 1;
        }
        let op = RwOp::InstExistential { base };
        crate::rewrite::rw_goal_exec(&op, &arg.value, 0)
    }

    fn fully_canonicalize_goal(&mut self, value: &InEnvironment<Goal>) -> (r: (
        UCanonical<InEnvironment<Goal>>,
        UniverseMap,
    )) {
        fully_canonicalize_goal(&self.infer.vars, value)
    }

    fn canonicalize_ex_clause(&mut self, value: &ExClause) -> (r: Canonical<ExClause>) {
        canonicalize_ex_clause(&self.infer.vars, value)
    }

    fn canonicalize_constrained_subst(
        &mut self,
        subst: Substitution,
        constraints: Vec<InEnvironment<Constraint>>,
    ) -> (r: Canonical<ConstrainedSubst>) {
        canonicalize_constrained_subst(&self.infer.vars, &subst, &constraints)
    }

    fn canonicalize_answer_subst(
        &mut self,
        subst: Substitution,
        constraints: Vec<InEnvironment<Constraint>>,
        delayed_subgoals: Vec<InEnvironment<Goal>>,
    ) -> (r: Canonical<AnswerSubst>) {
        canonicalize_answer_subst(&self.infer.vars, &subst, &constraints, &delayed_subgoals)
    }

    fn invert_goal(&mut self, value: &InEnvironment<Goal>) -> (r: Option<InEnvironment<Goal>>) {
        invert_goal(value)
    }

    fn unify_generic_args_into_ex_clause(
        &mut self,
        environment: &Environment,
        a: &GenericArg,
        b: &GenericArg,
        ex_clause: &mut ExClause,
    ) -> (r: Result<Fallible<()>, Fatal>) {
        let mut goals: Vec<DomainGoal> = Vec::new();
        let mut constraints: Vec<Constraint> = Vec::new();
        let fuel = self.infer.vars.len();
        match self.infer.unify_arg(a, b, fuel, &mut goals, &mut constraints) {
            Err(f) => Err(f),
            Ok(Err(ns)) => Ok(Err(ns)),
            Ok(Ok(())) => {
                let ghost g0 = goals@;
                let ghost c0 = constraints@;
                into_ex_clause(environment, goals, constraints, ex_clause);
                proof {
                    assert forall|j: int|
                        old(ex_clause).subgoals@.len() <= j < ex_clause.subgoals@.len() implies
                        deferred_alias_literal(ex_clause.subgoals@[j], *environment) by {
                        let k = j - old(ex_clause).subgoals@.len();
                        assert(residual_literal(ex_clause.subgoals@[j], g0[k], *environment));
                        assert(g0[k] matches DomainGoal::AliasEq(_, _));
                    }
                    assert forall|j: int|
                        old(ex_clause).constraints@.len() <= j < ex_clause.constraints@.len()
                        implies same_environment(
                        ex_clause.constraints@[j].environment,
                        *environment,
                    ) by {
                        let k = j - old(ex_clause).constraints@.len();
                        assert(constraint_under(ex_clause.constraints@[j], c0[k], *environment));
                    }
                }
                Ok(Ok(()))
            },
        }
    }
}

/// The literal is the residual obligation `g`, positive, under (a copy
/// of) the given environment.
pub open spec fn residual_literal(l: Literal, g: DomainGoal, env: Environment) -> bool {
    match l {
        Literal::Positive(ie) => same_environment(ie.environment, env) && ie.goal == Goal::Domain(
            g,
        ),
        Literal::Negative(_) => false,
    }
}

/// The recorded constraint is `c`, under (a copy of) the given
/// environment.
pub open spec fn constraint_under(
    rc: InEnvironment<Constraint>,
    c: Constraint,
    env: Environment,
) -> bool {
    same_environment(rc.environment, env) && rc.goal == c
}

/// Folds a unification's residual obligations into an ex-clause: each
/// residual obligation becomes a positive subgoal under the given
/// environment, appended in order, and each region constraint is recorded
/// under it too, in order; everything already in the ex-clause is kept as
/// it was.
pub fn into_ex_clause(
    environment: &Environment,
    goals: Vec<DomainGoal>,
    constraints: Vec<Constraint>,
    ex_clause: &mut ExClause,
)
    ensures
        final(ex_clause).subst == old(ex_clause).subst,
        final(ex_clause).delayed_subgoals == old(ex_clause).delayed_subgoals,
        final(ex_clause).subgoals@.len() == old(ex_clause).subgoals@.len() + goals@.len(),
        forall|j: int|
            0 <= j < old(ex_clause).subgoals@.len() ==> final(ex_clause).subgoals@[j] == old(
                ex_clause,
            ).subgoals@[j],
        forall|j: int|
            0 <= j < goals@.len() ==> residual_literal(
                final(ex_clause).subgoals@[old(ex_clause).subgoals@.len() + j],
                goals@[j],
                *environment,
            ),
        final(ex_clause).constraints@.len() == old(ex_clause).constraints@.len()
            + constraints@.len(),
        forall|j: int|
            0 <= j < old(ex_clause).constraints@.len() ==> final(ex_clause).constraints@[j] == old(
                ex_clause,
            ).constraints@[j],
        forall|j: int|
            0 <= j < constraints@.len() ==> constraint_under(
                final(ex_clause).constraints@[old(ex_clause).constraints@.len() + j],
                constraints@[j],
                *environment,
            ),
{
    let ghost orig_goals = goals@;
    let ghost orig_constraints = constraints@;
    let ghost sub0 = ex_clause.subgoals@;
    let ghost con0 = ex_clause.constraints@;
    let ghost subst0 = ex_clause.subst;
    let ghost delayed0 = ex_clause.delayed_subgoals;
    let mut goals = goals;
    let mut constraints = constraints;
    while goals.len() > 0
        invariant
            ex_clause.subst == subst0,
            ex_clause.delayed_subgoals == delayed0,
            ex_clause.constraints@ == con0,
            sub0.len() <= ex_clause.subgoals@.len(),
            ex_clause.subgoals@.len() + goals@.len() == sub0.len() + orig_goals.len(),
            ex_clause.subgoals@.subrange(0, sub0.len() as int) == sub0,
            goals@ == orig_goals.subrange(
                ex_clause.subgoals@.len() - sub0.len(),
                orig_goals.len() as int,
            ),
            forall|j: int|
                0 <= j < ex_clause.subgoals@.len() - sub0.len() ==> residual_literal(
                    ex_clause.subgoals@[sub0.len() + j],
                    orig_goals[j],
                    *environment,
                ),
        decreases goals@.len(),
    {
        let ghost k = ex_clause.subgoals@.len() - sub0.len();
        let ghost pre_goals = goals@;
        let g = goals.remove(0);
        proof {
            assert(g == orig_goals[k]);
            assert(goals@ =~= orig_goals.subrange(k + 1, orig_goals.len() as int));
        }
        let environment2 = copy_environment(environment);
        let lit = Literal::Positive(
            InEnvironment { environment: environment2, goal: Goal::Domain(g) },
        );
        proof {
            assert(residual_literal(lit, orig_goals[k], *environment));
        }
        let ghost pre = ex_clause.subgoals@;
        ex_clause.subgoals.push(lit);
        proof {
            assert(ex_clause.subgoals@.subrange(0, sub0.len() as int) =~= sub0);
            assert(forall|j: int| 0 <= j < pre.len() ==> ex_clause.subgoals@[j] == pre[j]);
            assert(ex_clause.subgoals@[pre.len() as int] == lit);
        }
    }
    proof {
        assert forall|j: int| 0 <= j < sub0.len() implies ex_clause.subgoals@[j] == sub0[j] by {
            assert(ex_clause.subgoals@.subrange(0, sub0.len() as int)[j] == sub0[j]);
        }
    }
    let ghost sub1 = ex_clause.subgoals@;
    while constraints.len() > 0
        invariant
            ex_clause.subst == subst0,
            ex_clause.delayed_subgoals == delayed0,
            ex_clause.subgoals@ == sub1,
            con0.len() <= ex_clause.constraints@.len(),
            ex_clause.constraints@.len() + constraints@.len() == con0.len()
                + orig_constraints.len(),
            ex_clause.constraints@.subrange(0, con0.len() as int) == con0,
            constraints@ == orig_constraints.subrange(
                ex_clause.constraints@.len() - con0.len(),
                orig_constraints.len() as int,
            ),
            forall|j: int|
                0 <= j < ex_clause.constraints@.len() - con0.len() ==> constraint_under(
                    ex_clause.constraints@[con0.len() + j],
                    orig_constraints[j],
                    *environment,
                ),
        decreases constraints@.len(),
    {
        let ghost k = ex_clause.constraints@.len() - con0.len();
        let c = constraints.remove(0);
        proof {
            assert(c == orig_constraints[k]);
            assert(constraints@ =~= orig_constraints.subrange(k + 1, orig_constraints.len() as int));
        }
        let rc = InEnvironment { environment: copy_environment(environment), goal: c };
        proof {
            assert(constraint_under(rc, orig_constraints[k], *environment));
        }
        let ghost pre = ex_clause.constraints@;
        ex_clause.constraints.push(rc);
        proof {
            assert(ex_clause.constraints@.subrange(0, con0.len() as int) =~= con0);
            assert(forall|j: int| 0 <= j < pre.len() ==> ex_clause.constraints@[j] == pre[j]);
            assert(ex_clause.constraints@[pre.len() as int] == rc);
        }
    }
    proof {
        assert forall|j: int| 0 <= j < con0.len() implies ex_clause.constraints@[j] == con0[j] by {
            assert(ex_clause.constraints@.subrange(0, con0.len() as int)[j] == con0[j]);
        }
    }
}

} // verus!
