//! Memo-key equality: structural equality of canonical values.
//!
//! Two canonical values are memo-key-equal iff they are structurally
//! identical. The `same_*` spec functions define that relation; the `*_eq`
//! functions decide it and are proved to agree with it. The registry's
//! lookup is specified over this relation.

use vstd::prelude::*;
use crate::term::{
    Canonical, Const, DomainGoal, Environment, GenericArg, Goal, InEnvironment, Lifetime,
    OpaqueTy, ProgramClause, ProjectionTy, Substitution, Ty, UCanonical,
};

verus! {

pub open spec fn same_lifetime(a: Lifetime, b: Lifetime) -> bool {
    a == b
}

pub open spec fn same_arg(a: GenericArg, b: GenericArg) -> bool
    decreases a, 0nat,
{
    match (a, b) {
        (GenericArg::Ty(t1), GenericArg::Ty(t2)) => same_ty(t1, t2),
        (GenericArg::Lifetime(l1), GenericArg::Lifetime(l2)) => same_lifetime(l1, l2),
        (GenericArg::Const(c1), GenericArg::Const(c2)) => same_const(c1, c2),
        _ => false,
    }
}

pub open spec fn same_ty(a: Ty, b: Ty) -> bool
    decreases a, 1nat,
{
    match (a, b) {
        (Ty::BoundVar(v1), Ty::BoundVar(v2)) => v1 == v2,
        (Ty::InferenceVar(v1), Ty::InferenceVar(v2)) => v1 == v2,
        (Ty::Placeholder(p1), Ty::Placeholder(p2)) => p1 == p2,
        (Ty::Projection(p1), Ty::Projection(p2)) => same_projection(p1, p2),
        (Ty::Opaque(o1), Ty::Opaque(o2)) => same_opaque(o1, o2),
        (Ty::Adt(id1, s1), Ty::Adt(id2, s2)) => id1 == id2 && same_args(s1, s2),
        (Ty::AssociatedType(id1, s1), Ty::AssociatedType(id2, s2)) => id1 == id2 && same_args(
            s1,
            s2,
        ),
        (Ty::Scalar(a1), Ty::Scalar(b1)) => a1 == b1,
        (Ty::Str, Ty::Str) => true,
        (Ty::Tuple(a1, s1), Ty::Tuple(a2, s2)) => a1 == a2 && same_args(s1, s2),
        (Ty::Slice(t1), Ty::Slice(t2)) => same_ty(*t1, *t2),
        (Ty::FnDef(id1, s1), Ty::FnDef(id2, s2)) => id1 == id2 && same_args(s1, s2),
        (Ty::Ref(m1, l1, t1), Ty::Ref(m2, l2, t2)) => m1 == m2 && same_lifetime(l1, l2)
            && same_ty(*t1, *t2),
        (Ty::Raw(m1, t1), Ty::Raw(m2, t2)) => m1 == m2 && same_ty(*t1, *t2),
        (Ty::Never, Ty::Never) => true,
        (Ty::Array(t1, c1), Ty::Array(t2, c2)) => same_ty(*t1, *t2) && same_const(*c1, *c2),
        (Ty::Closure(id1, s1), Ty::Closure(id2, s2)) => id1 == id2 && same_args(s1, s2),
        (Ty::Foreign(a1), Ty::Foreign(b1)) => a1 == b1,
        (Ty::Error, Ty::Error) => true,
        _ => false,
    }
}

pub open spec fn same_const(a: Const, b: Const) -> bool
    decreases a, 1nat,
{
    same_ty(*a.ty, *b.ty) && a.value == b.value
}

pub open spec fn same_projection(a: ProjectionTy, b: ProjectionTy) -> bool
    decreases a, 2nat,
{
    a.associated_ty_id == b.associated_ty_id && same_args(a.substitution, b.substitution)
}

pub open spec fn same_opaque(a: OpaqueTy, b: OpaqueTy) -> bool
    decreases a, 2nat,
{
    a.opaque_ty_id == b.opaque_ty_id && same_args(a.substitution, b.substitution)
}

pub open spec fn same_args(a: Substitution, b: Substitution) -> bool
    decreases a, a@.len() + 1nat,
{
    a@.len() == b@.len() && same_args_from(a, b, 0)
}

pub open spec fn same_args_from(a: Substitution, b: Substitution, i: nat) -> bool
    decreases a, a@.len() - i,
{
    if i >= a@.len() || i >= b@.len() {
        true
    } else {
        same_arg(a[i as int], b[i as int]) && same_args_from(a, b, i + 1)
    }
}

pub open spec fn same_goal(a: Goal, b: Goal) -> bool
    decreases a,
{
    match (a, b) {
        (Goal::Domain(d1), Goal::Domain(d2)) => same_domain_goal(d1, d2),
        (Goal::And(l1, r1), Goal::And(l2, r2)) => same_goal(*l1, *l2) && same_goal(*r1, *r2),
        (Goal::Not(g1), Goal::Not(g2)) => same_goal(*g1, *g2),
        (Goal::Quantified(q1, k1, g1), Goal::Quantified(q2, k2, g2)) => q1 == q2 && k1@ == k2@
            && same_goal(*g1, *g2),
        _ => false,
    }
}

pub open spec fn same_domain_goal(a: DomainGoal, b: DomainGoal) -> bool {
    match (a, b) {
        (DomainGoal::Holds(id1, s1), DomainGoal::Holds(id2, s2)) => id1 == id2 && same_args(s1, s2),
        (DomainGoal::AliasEq(p1, t1), DomainGoal::AliasEq(p2, t2)) => same_projection(p1, p2)
            && same_ty(t1, t2),
        _ => false,
    }
}

pub open spec fn same_goals_from(a: Vec<Goal>, b: Vec<Goal>, i: nat) -> bool
    decreases a@.len() - i,
{
    if i >= a@.len() || i >= b@.len() {
        true
    } else {
        same_goal(a[i as int], b[i as int]) && same_goals_from(a, b, i + 1)
    }
}

pub open spec fn same_clause(a: ProgramClause, b: ProgramClause) -> bool {
    a.binders@ == b.binders@ && same_domain_goal(a.consequence, b.consequence)
        && a.conditions@.len() == b.conditions@.len() && same_goals_from(a.conditions, b.conditions, 0)
}

pub open spec fn same_clauses_from(a: Vec<ProgramClause>, b: Vec<ProgramClause>, i: nat) -> bool
    decreases a@.len() - i,
{
    if i >= a@.len() || i >= b@.len() {
        true
    } else {
        same_clause(a[i as int], b[i as int]) && same_clauses_from(a, b, i + 1)
    }
}

pub open spec fn same_environment(a: Environment, b: Environment) -> bool {
    a.clauses@.len() == b.clauses@.len() && same_clauses_from(a.clauses, b.clauses, 0)
}

pub open spec fn same_goal_in_environment(a: InEnvironment<Goal>, b: InEnvironment<Goal>) -> bool {
    same_environment(a.environment, b.environment) && same_goal(a.goal, b.goal)
}

/// Memo-key equality of two canonical goals: identical slot lists and
/// structurally identical values.
pub open spec fn same_canonical_goal(
    a: Canonical<InEnvironment<Goal>>,
    b: Canonical<InEnvironment<Goal>>,
) -> bool {
    a.binders@ == b.binders@ && same_goal_in_environment(a.value, b.value)
}

/// Memo-key equality of two universe-quantified canonical goals.
pub open spec fn same_ucanonical_goal(
    a: UCanonical<InEnvironment<Goal>>,
    b: UCanonical<InEnvironment<Goal>>,
) -> bool {
    a.universes == b.universes && same_canonical_goal(a.canonical, b.canonical)
}

pub fn arg_eq(a: &GenericArg, b: &GenericArg) -> (r: bool)
    ensures
        r == same_arg(*a, *b),
    decreases *a, 0nat,
{
    match (a, b) {
        (GenericArg::Ty(t1), GenericArg::Ty(t2)) => ty_eq(t1, t2),
        (GenericArg::Lifetime(l1), GenericArg::Lifetime(l2)) => l1 == l2,
        (GenericArg::Const(c1), GenericArg::Const(c2)) => const_eq(c1, c2),
        _ => false,
    }
}

pub fn ty_eq(a: &Ty, b: &Ty) -> (r: bool)
    ensures
        r == same_ty(*a, *b),
    decreases *a, 1nat,
{
    match (a, b) {
        (Ty::BoundVar(v1), Ty::BoundVar(v2)) => v1 == v2,
        (Ty::InferenceVar(v1), Ty::InferenceVar(v2)) => v1 == v2,
        (Ty::Placeholder(p1), Ty::Placeholder(p2)) => p1 == p2,
        (Ty::Projection(p1), Ty::Projection(p2)) => projection_eq(p1, p2),
        (Ty::Opaque(o1), Ty::Opaque(o2)) => opaque_eq(o1, o2),
        (Ty::Adt(id1, s1), Ty::Adt(id2, s2)) => *id1 == *id2 && args_eq(s1, s2),
        (Ty::AssociatedType(id1, s1), Ty::AssociatedType(id2, s2)) => *id1 == *id2 && args_eq(
            s1,
            s2,
        ),
        (Ty::Scalar(a1), Ty::Scalar(b1)) => a1 == b1,
        (Ty::Str, Ty::Str) => true,
        (Ty::Tuple(a1, s1), Ty::Tuple(a2, s2)) => *a1 == *a2 && args_eq(s1, s2),
        (Ty::Slice(t1), Ty::Slice(t2)) => ty_eq(t1, t2),
        (Ty::FnDef(id1, s1), Ty::FnDef(id2, s2)) => *id1 == *id2 && args_eq(s1, s2),
        (Ty::Ref(m1, l1, t1), Ty::Ref(m2, l2, t2)) => m1 == m2 && l1 == l2 && ty_eq(t1, t2),
        (Ty::Raw(m1, t1), Ty::Raw(m2, t2)) => m1 == m2 && ty_eq(t1, t2),
        (Ty::Never, Ty::Never) => true,
        (Ty::Array(t1, c1), Ty::Array(t2, c2)) => ty_eq(t1, t2) && const_eq(c1, c2),
        (Ty::Closure(id1, s1), Ty::Closure(id2, s2)) => *id1 == *id2 && args_eq(s1, s2),
        (Ty::Foreign(a1), Ty::Foreign(b1)) => a1 == b1,
        (Ty::Error, Ty::Error) => true,
        _ => false,
    }
}

pub fn const_eq(a: &Const, b: &Const) -> (r: bool)
    ensures
        r == same_const(*a, *b),
    decreases *a, 1nat,
{
    ty_eq(&a.ty, &b.ty) && a.value == b.value
}

pub fn projection_eq(a: &ProjectionTy, b: &ProjectionTy) -> (r: bool)
    ensures
        r == same_projection(*a, *b),
    decreases *a, 2nat,
{
    a.associated_ty_id == b.associated_ty_id && args_eq(&a.substitution, &b.substitution)
}

pub fn opaque_eq(a: &OpaqueTy, b: &OpaqueTy) -> (r: bool)
    ensures
        r == same_opaque(*a, *b),
    decreases *a, 2nat,
{
    a.opaque_ty_id == b.opaque_ty_id && args_eq(&a.substitution, &b.substitution)
}

pub fn args_eq(a: &Substitution, b: &Substitution) -> (r: bool)
    ensures
        r == same_args(*a, *b),
    decreases *a, a@.len() + 1nat,
{
    let n = a.len();
    if n != b.len() {
        return false;
    }
    let mut i: usize = 0;
    loop
        invariant
            i <= n,
            n == a@.len(),
            n == b@.len(),
            same_args_from(*a, *b, 0) == same_args_from(*a, *b, i as nat),
        decreases n - i,
    {
        if i >= n {
            return true;
        }
        if !arg_eq(&a[i], &b[i]) {
            return false;
        }
        i = i + 1;
    }
}

pub fn goal_eq(a: &Goal, b: &Goal) -> (r: bool)
    ensures
        r == same_goal(*a, *b),
    decreases *a,
{
    match (a, b) {
        (Goal::Domain(d1), Goal::Domain(d2)) => domain_goal_eq(d1, d2),
        (Goal::And(l1, r1), Goal::And(l2, r2)) => goal_eq(l1, l2) && goal_eq(r1, r2),
        (Goal::Not(g1), Goal::Not(g2)) => goal_eq(g1, g2),
        (Goal::Quantified(q1, k1, g1), Goal::Quantified(q2, k2, g2)) => {
            *q1 == *q2 && var_kinds_eq(k1, k2) && goal_eq(g1, g2)
        },
        _ => false,
    }
}

fn var_kinds_eq(a: &Vec<crate::term::VarKind>, b: &Vec<crate::term::VarKind>) -> (r: bool)
    ensures
        r == (a@ == b@),
{
    let n = a.len();
    if n != b.len() {
        proof {
            assert(a@.len() != b@.len());
        }
        return false;
    }
    let mut i: usize = 0;
    loop
        invariant
            i <= n,
            n == a@.len(),
            n == b@.len(),
            forall|j: int| 0 <= j < i ==> a@[j] == b@[j],
        decreases n - i,
    {
        if i >= n {
            proof {
                assert(a@ =~= b@);
            }
            return true;
        }
        if a[i] != b[i] {
            return false;
        }
        i = i + 1;
    }
}

pub fn domain_goal_eq(a: &DomainGoal, b: &DomainGoal) -> (r: bool)
    ensures
        r == same_domain_goal(*a, *b),
{
    match (a, b) {
        (DomainGoal::Holds(id1, s1), DomainGoal::Holds(id2, s2)) => *id1 == *id2 && args_eq(
            s1,
            s2,
        ),
        (DomainGoal::AliasEq(p1, t1), DomainGoal::AliasEq(p2, t2)) => projection_eq(p1, p2)
            && ty_eq(t1, t2),
        _ => false,
    }
}

pub fn clause_eq(a: &ProgramClause, b: &ProgramClause) -> (r: bool)
    ensures
        r == same_clause(*a, *b),
{
    if !var_kinds_eq(&a.binders, &b.binders) {
        return false;
    }
    if !domain_goal_eq(&a.consequence, &b.consequence) {
        return false;
    }
    let n = a.conditions.len();
    if n != b.conditions.len() {
        return false;
    }
    let mut i: usize = 0;
    loop
        invariant
            i <= n,
            n == a.conditions@.len(),
            n == b.conditions@.len(),
            a.binders@ == b.binders@,
            same_domain_goal(a.consequence, b.consequence),
            same_goals_from(a.conditions, b.conditions, 0) == same_goals_from(
                a.conditions,
                b.conditions,
                i as nat,
            ),
        decreases n - i,
    {
        if i >= n {
            return true;
        }
        if !goal_eq(&a.conditions[i], &b.conditions[i]) {
            return false;
        }
        i = i + 1;
    }
}

pub fn environment_eq(a: &Environment, b: &Environment) -> (r: bool)
    ensures
        r == same_environment(*a, *b),
{
    let n = a.clauses.len();
    if n != b.clauses.len() {
        return false;
    }
    let mut i: usize = 0;
    loop
        invariant
            i <= n,
            n == a.clauses@.len(),
            n == b.clauses@.len(),
            same_clauses_from(a.clauses, b.clauses, 0) == same_clauses_from(
                a.clauses,
                b.clauses,
                i as nat,
            ),
        decreases n - i,
    {
        if i >= n {
            return true;
        }
        if !clause_eq(&a.clauses[i], &b.clauses[i]) {
            return false;
        }
        i = i + 1;
    }
}

pub fn goal_in_environment_eq(a: &InEnvironment<Goal>, b: &InEnvironment<Goal>) -> (r: bool)
    ensures
        r == same_goal_in_environment(*a, *b),
{
    environment_eq(&a.environment, &b.environment) && goal_eq(&a.goal, &b.goal)
}

fn canonical_var_kinds_eq(
    a: &Vec<crate::term::CanonicalVarKind>,
    b: &Vec<crate::term::CanonicalVarKind>,
) -> (r: bool)
    ensures
        r == (a@ == b@),
{
    let n = a.len();
    if n != b.len() {
        proof {
            assert(a@.len() != b@.len());
        }
        return false;
    }
    let mut i: usize = 0;
    loop
        invariant
            i <= n,
            n == a@.len(),
            n == b@.len(),
            forall|j: int| 0 <= j < i ==> a@[j] == b@[j],
        decreases n - i,
    {
        if i >= n {
            proof {
                assert(a@ =~= b@);
            }
            return true;
        }
        if a[i] != b[i] {
            return false;
        }
        i = i + 1;
    }
}

pub fn canonical_goal_eq(
    a: &Canonical<InEnvironment<Goal>>,
    b: &Canonical<InEnvironment<Goal>>,
) -> (r: bool)
    ensures
        r == same_canonical_goal(*a, *b),
{
    canonical_var_kinds_eq(&a.binders, &b.binders) && goal_in_environment_eq(&a.value, &b.value)
}

/// Decides memo-key equality of two universe-quantified canonical goals.
pub fn ucanonical_goal_eq(
    a: &UCanonical<InEnvironment<Goal>>,
    b: &UCanonical<InEnvironment<Goal>>,
) -> (r: bool)
    ensures
        r == same_ucanonical_goal(*a, *b),
{
    a.universes == b.universes && canonical_goal_eq(&a.canonical, &b.canonical)
}

/// Pointwise matching arguments from `i` on match as lists.
pub proof fn lemma_same_args_from_pointwise(a: Substitution, b: Substitution, i: nat)
    requires
        a@.len() == b@.len(),
        forall|j: int| i <= j < a@.len() ==> same_arg(a@[j], b@[j]),
    ensures
        same_args_from(a, b, i),
    decreases a@.len() - i,
{
    if i < a@.len() {
        lemma_same_args_from_pointwise(a, b, i + 1);
    }
}

pub proof fn lemma_same_goals_from_pointwise(a: Vec<Goal>, b: Vec<Goal>, i: nat)
    requires
        a@.len() == b@.len(),
        forall|j: int| i <= j < a@.len() ==> same_goal(a@[j], b@[j]),
    ensures
        same_goals_from(a, b, i),
    decreases a@.len() - i,
{
    if i < a@.len() {
        lemma_same_goals_from_pointwise(a, b, i + 1);
    }
}

pub proof fn lemma_same_clauses_from_pointwise(a: Vec<ProgramClause>, b: Vec<ProgramClause>, i: nat)
    requires
        a@.len() == b@.len(),
        forall|j: int| i <= j < a@.len() ==> same_clause(a@[j], b@[j]),
    ensures
        same_clauses_from(a, b, i),
    decreases a@.len() - i,
{
    if i < a@.len() {
        lemma_same_clauses_from_pointwise(a, b, i + 1);
    }
}

/// Duplicates a generic argument; the copy is memo-key-equal to the
/// original.
pub fn copy_arg(a: &GenericArg) -> (r: GenericArg)
    ensures
        same_arg(r, *a),
    decreases *a, 0nat,
{
    match a {
        GenericArg::Ty(t) => GenericArg::Ty(copy_ty(t)),
        GenericArg::Lifetime(l) => GenericArg::Lifetime(*l),
        GenericArg::Const(c) => GenericArg::Const(copy_const(c)),
    }
}

pub fn copy_ty(t: &Ty) -> (r: Ty)
    ensures
        same_ty(r, *t),
    decreases *t, 1nat,
{
    match t {
        Ty::BoundVar(v) => Ty::BoundVar(*v),
        Ty::InferenceVar(v) => Ty::InferenceVar(*v),
        Ty::Placeholder(p) => Ty::Placeholder(*p),
        Ty::Projection(p) => Ty::Projection(copy_projection(p)),
        Ty::Opaque(o) => Ty::Opaque(copy_opaque(o)),
        Ty::Adt(id, s) => Ty::Adt(*id, copy_args(s)),
        Ty::AssociatedType(id, s) => Ty::AssociatedType(*id, copy_args(s)),
        Ty::Scalar(v) => Ty::Scalar(*v),
        Ty::Str => Ty::Str,
        Ty::Tuple(a1, s) => Ty::Tuple(*a1, copy_args(s)),
        Ty::Slice(t1) => Ty::Slice(Box::new(copy_ty(t1))),
        Ty::FnDef(id, s) => Ty::FnDef(*id, copy_args(s)),
        Ty::Ref(m, l, t1) => Ty::Ref(*m, *l, Box::new(copy_ty(t1))),
        Ty::Raw(m, t1) => Ty::Raw(*m, Box::new(copy_ty(t1))),
        Ty::Never => Ty::Never,
        Ty::Array(t1, c1) => Ty::Array(Box::new(copy_ty(t1)), Box::new(copy_const(c1))),
        Ty::Closure(id, s) => Ty::Closure(*id, copy_args(s)),
        Ty::Foreign(v) => Ty::Foreign(*v),
        Ty::Error => Ty::Error,
    }
}

pub fn copy_const(c: &Const) -> (r: Const)
    ensures
        same_const(r, *c),
    decreases *c, 1nat,
{
    Const { ty: Box::new(copy_ty(&c.ty)), value: c.value }
}

pub fn copy_projection(p: &ProjectionTy) -> (r: ProjectionTy)
    ensures
        same_projection(r, *p),
    decreases *p, 2nat,
{
    ProjectionTy {
        associated_ty_id: p.associated_ty_id,
        substitution: copy_args(&p.substitution),
    }
}

pub fn copy_opaque(o: &OpaqueTy) -> (r: OpaqueTy)
    ensures
        same_opaque(r, *o),
    decreases *o, 2nat,
{
    OpaqueTy { opaque_ty_id: o.opaque_ty_id, substitution: copy_args(&o.substitution) }
}

pub fn copy_args(s: &Substitution) -> (r: Substitution)
    ensures
        same_args(r, *s),
        r@.len() == s@.len(),
    decreases *s, s@.len() + 1nat,
{
    let n = s.len();
    let mut r: Substitution = Vec::new();
    let mut i: usize = 0;
    loop
        invariant
            i <= n,
            n == s@.len(),
            r@.len() == i,
            forall|j: int| 0 <= j < i ==> same_arg(r@[j], s@[j]),
        decreases n - i,
    {
        if i >= n {
            proof {
                lemma_same_args_from_pointwise(r, *s, 0);
            }
            return r;
        }
        r.push(copy_arg(&s[i]));
        i = i + 1;
    }
}

pub fn copy_goal(g: &Goal) -> (r: Goal)
    ensures
        same_goal(r, *g),
    decreases *g,
{
    match g {
        Goal::Domain(d) => Goal::Domain(copy_domain_goal(d)),
        Goal::And(l, r1) => Goal::And(Box::new(copy_goal(l)), Box::new(copy_goal(r1))),
        Goal::Not(g1) => Goal::Not(Box::new(copy_goal(g1))),
        Goal::Quantified(q, k, g1) => {
            let mut kinds: Vec<crate::term::VarKind> = Vec::new();
            let n = k.len();
            let mut i: usize = 0;
            while i < n
                invariant
                    i <= n,
                    n == k@.len(),
                    kinds@.len() == i,
                    forall|j: int| 0 <= j < i ==> kinds@[j] == k@[j],
                decreases n - i,
            {
                kinds.push(k[i]);
                i = i + 1;
            }
            proof {
                assert(kinds@ =~= k@);
            }
            Goal::Quantified(*q, kinds, Box::new(copy_goal(g1)))
        },
    }
}

pub fn copy_domain_goal(d: &DomainGoal) -> (r: DomainGoal)
    ensures
        same_domain_goal(r, *d),
{
    match d {
        DomainGoal::Holds(id, s) => DomainGoal::Holds(*id, copy_args(s)),
        DomainGoal::AliasEq(p, t) => DomainGoal::AliasEq(copy_projection(p), copy_ty(t)),
    }
}

pub fn copy_clause(c: &ProgramClause) -> (r: ProgramClause)
    ensures
        same_clause(r, *c),
{
    let mut binders: Vec<crate::term::VarKind> = Vec::new();
    let nb = c.binders.len();
    let mut i: usize = 0;
    while i < nb
        invariant
            i <= nb,
            nb == c.binders@.len(),
            binders@.len() == i,
            forall|j: int| 0 <= j < i ==> binders@[j] == c.binders@[j],
        decreases nb - i,
    {
        binders.push(c.binders[i]);
        i = i + 1;
    }
    proof {
        assert(binders@ =~= c.binders@);
    }
    let consequence = copy_domain_goal(&c.consequence);
    let mut conditions: Vec<Goal> = Vec::new();
    let n = c.conditions.len();
    let mut j: usize = 0;
    while j < n
        invariant
            j <= n,
            n == c.conditions@.len(),
            conditions@.len() == j,
            forall|k2: int| 0 <= k2 < j ==> same_goal(conditions@[k2], c.conditions@[k2]),
        decreases n - j,
    {
        conditions.push(copy_goal(&c.conditions[j]));
        j = j + 1;
    }
    proof {
        lemma_same_goals_from_pointwise(conditions, c.conditions, 0);
    }
    ProgramClause { binders, consequence, conditions }
}

pub fn copy_environment(e: &Environment) -> (r: Environment)
    ensures
        same_environment(r, *e),
{
    let mut clauses: Vec<ProgramClause> = Vec::new();
    let n = e.clauses.len();
    let mut i: usize = 0;
    while i < n
        invariant
            i <= n,
            n == e.clauses@.len(),
            clauses@.len() == i,
            forall|j: int| 0 <= j < i ==> same_clause(clauses@[j], e.clauses@[j]),
        decreases n - i,
    {
        clauses.push(copy_clause(&e.clauses[i]));
        i = i + 1;
    }
    proof {
        lemma_same_clauses_from_pointwise(clauses, e.clauses, 0);
    }
    Environment { clauses }
}

pub fn copy_goal_in_environment(g: &InEnvironment<Goal>) -> (r: InEnvironment<Goal>)
    ensures
        same_goal_in_environment(r, *g),
{
    InEnvironment { environment: copy_environment(&g.environment), goal: copy_goal(&g.goal) }
}

/// Memo-key equality is reflexive: every generic argument matches itself.
pub proof fn lemma_same_arg_refl(a: GenericArg)
    ensures
        same_arg(a, a),
    decreases a, 0nat,
{
    match a {
        GenericArg::Ty(t) => lemma_same_ty_refl(t),
        GenericArg::Lifetime(_) => {},
        GenericArg::Const(c) => lemma_same_const_refl(c),
    }
}

pub proof fn lemma_same_ty_refl(a: Ty)
    ensures
        same_ty(a, a),
    decreases a, 1nat,
{
    match a {
        Ty::Projection(p) => lemma_same_projection_refl(p),
        Ty::Opaque(o) => lemma_same_opaque_refl(o),
        Ty::Adt(_, s) => lemma_same_args_refl(s),
        Ty::AssociatedType(_, s) => lemma_same_args_refl(s),
        Ty::Tuple(_, s) => lemma_same_args_refl(s),
        Ty::Slice(t) => lemma_same_ty_refl(*t),
        Ty::FnDef(_, s) => lemma_same_args_refl(s),
        Ty::Ref(_, _, t) => lemma_same_ty_refl(*t),
        Ty::Raw(_, t) => lemma_same_ty_refl(*t),
        Ty::Array(t, c) => {
            lemma_same_ty_refl(*t);
            lemma_same_const_refl(*c);
        },
        Ty::Closure(_, s) => lemma_same_args_refl(s),
        _ => {},
    }
}

pub proof fn lemma_same_const_refl(a: Const)
    ensures
        same_const(a, a),
    decreases a, 1nat,
{
    lemma_same_ty_refl(*a.ty);
}

pub proof fn lemma_same_projection_refl(a: ProjectionTy)
    ensures
        same_projection(a, a),
    decreases a, 2nat,
{
    lemma_same_args_refl(a.substitution);
}

pub proof fn lemma_same_opaque_refl(a: OpaqueTy)
    ensures
        same_opaque(a, a),
    decreases a, 2nat,
{
    lemma_same_args_refl(a.substitution);
}

pub proof fn lemma_same_args_refl(a: Substitution)
    ensures
        same_args(a, a),
    decreases a, a@.len() + 1nat,
{
    lemma_same_args_from_refl(a, 0);
}

pub proof fn lemma_same_args_from_refl(a: Substitution, i: nat)
    ensures
        same_args_from(a, a, i),
    decreases a, a@.len() - i,
{
    if i < a@.len() {
        lemma_same_arg_refl(a[i as int]);
        lemma_same_args_from_refl(a, i + 1);
    }
}

pub proof fn lemma_same_goal_refl(a: Goal)
    ensures
        same_goal(a, a),
    decreases a,
{
    match a {
        Goal::Domain(d) => lemma_same_domain_goal_refl(d),
        Goal::And(l, r) => {
            lemma_same_goal_refl(*l);
            lemma_same_goal_refl(*r);
        },
        Goal::Not(g) => lemma_same_goal_refl(*g),
        Goal::Quantified(_, _, g) => lemma_same_goal_refl(*g),
    }
}

pub proof fn lemma_same_domain_goal_refl(a: DomainGoal)
    ensures
        same_domain_goal(a, a),
{
    match a {
        DomainGoal::Holds(_, s) => lemma_same_args_refl(s),
        DomainGoal::AliasEq(p, t) => {
            lemma_same_projection_refl(p);
            lemma_same_ty_refl(t);
        },
    }
}

pub proof fn lemma_same_goals_from_refl(a: Vec<Goal>, i: nat)
    ensures
        same_goals_from(a, a, i),
    decreases a@.len() - i,
{
    if i < a@.len() {
        lemma_same_goal_refl(a[i as int]);
        lemma_same_goals_from_refl(a, i + 1);
    }
}

pub proof fn lemma_same_clause_refl(a: ProgramClause)
    ensures
        same_clause(a, a),
{
    lemma_same_domain_goal_refl(a.consequence);
    lemma_same_goals_from_refl(a.conditions, 0);
}

pub proof fn lemma_same_clauses_from_refl(a: Vec<ProgramClause>, i: nat)
    ensures
        same_clauses_from(a, a, i),
    decreases a@.len() - i,
{
    if i < a@.len() {
        lemma_same_clause_refl(a[i as int]);
        lemma_same_clauses_from_refl(a, i + 1);
    }
}

pub proof fn lemma_same_environment_refl(a: Environment)
    ensures
        same_environment(a, a),
{
    lemma_same_clauses_from_refl(a.clauses, 0);
}

/// Memo-key equality is reflexive on canonical goals.
pub proof fn lemma_same_ucanonical_goal_refl(a: UCanonical<InEnvironment<Goal>>)
    ensures
        same_ucanonical_goal(a, a),
{
    lemma_same_environment_refl(a.canonical.value.environment);
    lemma_same_goal_refl(a.canonical.value.goal);
}

} // verus!
