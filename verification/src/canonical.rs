//! Canonicalization: replacing every free inference variable of a value
//! with a bound-variable slot, in first-occurrence order, and renumbering
//! the universes in use to a compact prefix.
//!
//! Canonicalization is deterministic and maps any two values that differ
//! only in variable numbering or universe numbering, but agree
//! structurally, to one canonical value — the property the table
//! registry's memo keys rely on.
//!
//! A deliberate simplification: canonicalization works on the value as
//! written and does not first substitute the bindings the inference table
//! has accumulated, so a variable that unification has already bound still
//! canonicalizes to a slot of its own. This is sound — an answer spliced
//! back into a waiting derivation is re-unified against the selected goal
//! — but two goals that agree only after resolving bindings get distinct
//! memo keys, so less sharing between tables than a resolving
//! canonicalizer would give. The truncation gate, by contrast, does
//! resolve bindings, since the termination bound must see through them.

use vstd::prelude::*;
use crate::infer::{occ_args, occ_args_exec, VarInfo};
use crate::key::{
    copy_environment, same_environment, same_goal_in_environment, copy_goal_in_environment,
};
use crate::rewrite::{
    deeper, first_index, rw_args, rw_args_exec, rw_goal, rw_goal_exec, rw_lifetime,
    rw_lifetime_exec, rw_ty, RwOp,
};
use crate::term::{
    AnswerSubst, Canonical, CanonicalVarKind, Constraint, ConstrainedSubst, Const, ConstValue,
    DomainGoal, ExClause, GenericArg, Goal, InEnvironment, Lifetime, Literal, Substitution, Ty,
    UCanonical, UniverseMap, VarKind,
};

verus! {

/// Appends `v` unless it is already present.
pub open spec fn push_if_absent(s: Seq<u32>, v: u32) -> Seq<u32> {
    if s.contains(v) {
        s
    } else {
        s.push(v)
    }
}

/// The universe a variable of the table lives in (the root universe for an
/// index the table does not know).
pub open spec fn var_universe(vars: Seq<VarInfo>, v: u32) -> u32 {
    if (v as int) < vars.len() {
        vars[v as int].universe
    } else {
        0
    }
}

/// The kind a variable of the table has.
pub open spec fn var_kind(vars: Seq<VarInfo>, v: u32) -> VarKind {
    if (v as int) < vars.len() {
        vars[v as int].kind
    } else {
        VarKind::Ty
    }
}

/// Records one variable occurrence: the variable in first-occurrence
/// order, and its universe among the universes in use.
pub open spec fn note_var(vars: Seq<VarInfo>, v: u32, acc: (Seq<u32>, Seq<u32>)) -> (
    Seq<u32>,
    Seq<u32>,
) {
    if acc.0.contains(v) {
        acc
    } else {
        (acc.0.push(v), push_if_absent(acc.1, var_universe(vars, v)))
    }
}

/// Collects, left to right, the free inference variables of a type and the
/// universes its variables and placeholders use.
pub open spec fn cv_ty(vars: Seq<VarInfo>, t: Ty, acc: (Seq<u32>, Seq<u32>)) -> (Seq<u32>, Seq<u32>)
    decreases t, 1nat,
{
    match t {
        Ty::BoundVar(_) => acc,
        Ty::InferenceVar(v) => note_var(vars, v, acc),
        Ty::Placeholder(p) => (acc.0, push_if_absent(acc.1, p.ui)),
        Ty::Projection(p) => cv_args(vars, p.substitution, acc, 0),
        Ty::Opaque(o) => cv_args(vars, o.substitution, acc, 0),
        Ty::Adt(_, s) => cv_args(vars, s, acc, 0),
        Ty::AssociatedType(_, s) => cv_args(vars, s, acc, 0),
        Ty::Scalar(_) => acc,
        Ty::Str => acc,
        Ty::Tuple(_, s) => cv_args(vars, s, acc, 0),
        Ty::Slice(t1) => cv_ty(vars, *t1, acc),
        Ty::FnDef(_, s) => cv_args(vars, s, acc, 0),
        Ty::Ref(_, l, t1) => cv_ty(vars, *t1, cv_lifetime(vars, l, acc)),
        Ty::Raw(_, t1) => cv_ty(vars, *t1, acc),
        Ty::Never => acc,
        Ty::Array(t1, c1) => cv_const(vars, *c1, cv_ty(vars, *t1, acc)),
        Ty::Closure(_, s) => cv_args(vars, s, acc, 0),
        Ty::Foreign(_) => acc,
        Ty::Error => acc,
    }
}

pub open spec fn cv_lifetime(vars: Seq<VarInfo>, l: Lifetime, acc: (Seq<u32>, Seq<u32>)) -> (
    Seq<u32>,
    Seq<u32>,
) {
    match l {
        Lifetime::InferenceVar(v) => note_var(vars, v, acc),
        Lifetime::Placeholder(p) => (acc.0, push_if_absent(acc.1, p.ui)),
        _ => acc,
    }
}

pub open spec fn cv_const(vars: Seq<VarInfo>, c: Const, acc: (Seq<u32>, Seq<u32>)) -> (
    Seq<u32>,
    Seq<u32>,
)
    decreases c, 1nat,
{
    let acc1 = cv_ty(vars, *c.ty, acc);
    match c.value {
        ConstValue::InferenceVar(v) => note_var(vars, v, acc1),
        ConstValue::Placeholder(p) => (acc1.0, push_if_absent(acc1.1, p.ui)),
        _ => acc1,
    }
}

pub open spec fn cv_arg(vars: Seq<VarInfo>, a: GenericArg, acc: (Seq<u32>, Seq<u32>)) -> (
    Seq<u32>,
    Seq<u32>,
)
    decreases a, 2nat,
{
    match a {
        GenericArg::Ty(t) => cv_ty(vars, t, acc),
        GenericArg::Lifetime(l) => cv_lifetime(vars, l, acc),
        GenericArg::Const(c) => cv_const(vars, c, acc),
    }
}

pub open spec fn cv_args(
    vars: Seq<VarInfo>,
    s: Substitution,
    acc: (Seq<u32>, Seq<u32>),
    i: nat,
) -> (Seq<u32>, Seq<u32>)
    decreases s, s@.len() - i,
{
    if i >= s@.len() {
        acc
    } else {
        cv_args(vars, s, cv_arg(vars, s[i as int], acc), i + 1)
    }
}

pub open spec fn cv_domain_goal(vars: Seq<VarInfo>, d: DomainGoal, acc: (Seq<u32>, Seq<u32>)) -> (
    Seq<u32>,
    Seq<u32>,
) {
    match d {
        DomainGoal::Holds(_, s) => cv_args(vars, s, acc, 0),
        DomainGoal::AliasEq(p, t) => cv_ty(vars, t, cv_args(vars, p.substitution, acc, 0)),
    }
}

pub open spec fn cv_goal(vars: Seq<VarInfo>, g: Goal, acc: (Seq<u32>, Seq<u32>)) -> (
    Seq<u32>,
    Seq<u32>,
)
    decreases g,
{
    match g {
        Goal::Domain(d) => cv_domain_goal(vars, d, acc),
        Goal::And(l, r) => cv_goal(vars, *r, cv_goal(vars, *l, acc)),
        Goal::Not(g1) => cv_goal(vars, *g1, acc),
        Goal::Quantified(_, _, g1) => cv_goal(vars, *g1, acc),
    }
}

/// Collects the variables of a type into the two accumulators.
pub fn cv_ty_exec(vars: &Vec<VarInfo>, t: &Ty, vs: &mut Vec<u32>, us: &mut Vec<u32>)
    ensures
        (final(vs)@, final(us)@) == cv_ty(vars@, *t, (old(vs)@, old(us)@)),
    decreases *t, 1nat,
{
    match t {
        Ty::InferenceVar(v) => note_var_exec(vars, *v, vs, us),
        Ty::Placeholder(p) => push_if_absent_exec(us, p.ui),
        Ty::Projection(p) => cv_args_exec(vars, &p.substitution, vs, us),
        Ty::Opaque(o) => cv_args_exec(vars, &o.substitution, vs, us),
        Ty::Adt(_, s) => cv_args_exec(vars, s, vs, us),
        Ty::AssociatedType(_, s) => cv_args_exec(vars, s, vs, us),
        Ty::Tuple(_, s) => cv_args_exec(vars, s, vs, us),
        Ty::Slice(t1) => cv_ty_exec(vars, t1, vs, us),
        Ty::FnDef(_, s) => cv_args_exec(vars, s, vs, us),
        Ty::Ref(_, l, t1) => {
            cv_lifetime_exec(vars, l, vs, us);
            cv_ty_exec(vars, t1, vs, us);
        },
        Ty::Raw(_, t1) => cv_ty_exec(vars, t1, vs, us),
        Ty::Array(t1, c1) => {
            cv_ty_exec(vars, t1, vs, us);
            cv_const_exec(vars, c1, vs, us);
        },
        Ty::Closure(_, s) => cv_args_exec(vars, s, vs, us),
        _ => {},
    }
}

fn contains_exec(s: &Vec<u32>, v: u32) -> (r: bool)
    ensures
        r == s@.contains(v),
{
    let n = s.len();
    let mut i: usize = 0;
    loop
        invariant
            i <= n,
            n == s@.len(),
            forall|j: int| 0 <= j < i ==> s@[j] != v,
        decreases n - i,
    {
        if i >= n {
            proof {
                assert(!s@.contains(v));
            }
            return false;
        }
        if s[i] == v {
            return true;
        }
        i = i + 1;
    }
}

fn push_if_absent_exec(s: &mut Vec<u32>, v: u32)
    ensures
        final(s)@ == push_if_absent(old(s)@, v),
{
    if !contains_exec(s, v) {
        s.push(v);
    }
}

fn note_var_exec(vars: &Vec<VarInfo>, v: u32, vs: &mut Vec<u32>, us: &mut Vec<u32>)
    ensures
        (final(vs)@, final(us)@) == note_var(vars@, v, (old(vs)@, old(us)@)),
{
    if !contains_exec(vs, v) {
        vs.push(v);
        let universe = if (v as usize) < vars.len() {
            vars[v as usize].universe
        } else {
            0
        };
        proof {
            assert(universe == var_universe(vars@, v));
        }
        push_if_absent_exec(us, universe);
    }
}

pub fn cv_lifetime_exec(vars: &Vec<VarInfo>, l: &Lifetime, vs: &mut Vec<u32>, us: &mut Vec<u32>)
    ensures
        (final(vs)@, final(us)@) == cv_lifetime(vars@, *l, (old(vs)@, old(us)@)),
{
    match l {
        Lifetime::InferenceVar(v) => note_var_exec(vars, *v, vs, us),
        Lifetime::Placeholder(p) => push_if_absent_exec(us, p.ui),
        _ => {},
    }
}

pub fn cv_const_exec(vars: &Vec<VarInfo>, c: &Const, vs: &mut Vec<u32>, us: &mut Vec<u32>)
    ensures
        (final(vs)@, final(us)@) == cv_const(vars@, *c, (old(vs)@, old(us)@)),
    decreases *c, 1nat,
{
    cv_ty_exec(vars, &c.ty, vs, us);
    match &c.value {
        ConstValue::InferenceVar(v) => note_var_exec(vars, *v, vs, us),
        ConstValue::Placeholder(p) => push_if_absent_exec(us, p.ui),
        _ => {},
    }
}

pub fn cv_arg_exec(vars: &Vec<VarInfo>, a: &GenericArg, vs: &mut Vec<u32>, us: &mut Vec<u32>)
    ensures
        (final(vs)@, final(us)@) == cv_arg(vars@, *a, (old(vs)@, old(us)@)),
    decreases *a, 2nat,
{
    match a {
        GenericArg::Ty(t) => cv_ty_exec(vars, t, vs, us),
        GenericArg::Lifetime(l) => cv_lifetime_exec(vars, l, vs, us),
        GenericArg::Const(c) => cv_const_exec(vars, c, vs, us),
    }
}

pub fn cv_args_exec(vars: &Vec<VarInfo>, s: &Substitution, vs: &mut Vec<u32>, us: &mut Vec<u32>)
    ensures
        (final(vs)@, final(us)@) == cv_args(vars@, *s, (old(vs)@, old(us)@), 0),
    decreases *s, s@.len() + 1nat,
{
    let n = s.len();
    let mut i: usize = 0;
    loop
        invariant
            i <= n,
            n == s@.len(),
            cv_args(vars@, *s, (old(vs)@, old(us)@), 0) == cv_args(
                vars@,
                *s,
                (vs@, us@),
                i as nat,
            ),
        decreases n - i,
    {
        if i >= n {
            return ;
        }
        cv_arg_exec(vars, &s[i], vs, us);
        i = i + 1;
    }
}

pub fn cv_domain_goal_exec(vars: &Vec<VarInfo>, d: &DomainGoal, vs: &mut Vec<u32>, us: &mut Vec<u32>)
    ensures
        (final(vs)@, final(us)@) == cv_domain_goal(vars@, *d, (old(vs)@, old(us)@)),
{
    match d {
        DomainGoal::Holds(_, s) => cv_args_exec(vars, s, vs, us),
        DomainGoal::AliasEq(p, t) => {
            cv_args_exec(vars, &p.substitution, vs, us);
            cv_ty_exec(vars, t, vs, us);
        },
    }
}

/// Collects the variables of a goal into the two accumulators.
pub fn cv_goal_exec(vars: &Vec<VarInfo>, g: &Goal, vs: &mut Vec<u32>, us: &mut Vec<u32>)
    ensures
        (final(vs)@, final(us)@) == cv_goal(vars@, *g, (old(vs)@, old(us)@)),
    decreases *g,
{
    match g {
        Goal::Domain(d) => cv_domain_goal_exec(vars, d, vs, us),
        Goal::And(l, r) => {
            cv_goal_exec(vars, l, vs, us);
            cv_goal_exec(vars, r, vs, us);
        },
        Goal::Not(g1) => cv_goal_exec(vars, g1, vs, us),
        Goal::Quantified(_, _, g1) => cv_goal_exec(vars, g1, vs, us),
    }
}

pub open spec fn cv_constraint(
    vars: Seq<VarInfo>,
    c: InEnvironment<Constraint>,
    acc: (Seq<u32>, Seq<u32>),
) -> (Seq<u32>, Seq<u32>) {
    match c.goal {
        Constraint::LifetimeOutlives(a, b) => cv_lifetime(vars, b, cv_lifetime(vars, a, acc)),
    }
}

pub open spec fn cv_constraints(
    vars: Seq<VarInfo>,
    cs: Vec<InEnvironment<Constraint>>,
    acc: (Seq<u32>, Seq<u32>),
    i: nat,
) -> (Seq<u32>, Seq<u32>)
    decreases cs@.len() - i,
{
    if i >= cs@.len() {
        acc
    } else {
        cv_constraints(vars, cs, cv_constraint(vars, cs[i as int], acc), i + 1)
    }
}

pub fn cv_constraints_exec(
    vars: &Vec<VarInfo>,
    cs: &Vec<InEnvironment<Constraint>>,
    vs: &mut Vec<u32>,
    us: &mut Vec<u32>,
)
    ensures
        (final(vs)@, final(us)@) == cv_constraints(vars@, *cs, (old(vs)@, old(us)@), 0),
{
    let n = cs.len();
    let mut i: usize = 0;
    loop
        invariant
            i <= n,
            n == cs@.len(),
            cv_constraints(vars@, *cs, (old(vs)@, old(us)@), 0) == cv_constraints(
                vars@,
                *cs,
                (vs@, us@),
                i as nat,
            ),
        decreases n - i,
    {
        if i >= n {
            return ;
        }
        match &cs[i].goal {
            Constraint::LifetimeOutlives(a, b) => {
                cv_lifetime_exec(vars, a, vs, us);
                cv_lifetime_exec(vars, b, vs, us);
            },
        }
        i = i + 1;
    }
}

/// How a universe is renumbered by a compression list.
pub open spec fn compress_universe(umap: Seq<u32>, u: u32) -> u32 {
    if umap.contains(u) && first_index(umap, u) <= u32::MAX {
        first_index(umap, u) as u32
    } else {
        u
    }
}

/// The canonical slot list for a collected variable order: each variable's
/// kind and (compressed) universe, in order.
pub open spec fn slots_for(vars: Seq<VarInfo>, order: Seq<u32>, umap: Seq<u32>, j: int) -> CanonicalVarKind {
    CanonicalVarKind {
        kind: var_kind(vars, order[j]),
        universe: compress_universe(umap, var_universe(vars, order[j])),
    }
}

fn first_index_u32(s: &Vec<u32>, v: u32) -> (r: u32)
    ensures
        r == compress_universe(s@, v),
{
    let n = s.len();
    let mut i: usize = 0;
    proof {
        assert(s@.subrange(0, n as int) =~= s@);
    }
    loop
        invariant
            i <= n,
            n == s@.len(),
            forall|j: int| 0 <= j < i ==> s@[j] != v,
            first_index(s@, v) == i + first_index(s@.subrange(i as int, n as int), v),
        decreases n - i,
    {
        if i >= n {
            proof {
                assert(!s@.contains(v));
            }
            return v;
        }
        if s[i] == v {
            proof {
                let tail = s@.subrange(i as int, n as int);
                assert(tail[0] == s@[i as int]);
                assert(first_index(tail, v) == 0);
                assert(s@[i as int] == v);
            }
            if i <= u32::MAX as usize {
                return i as u32;
            }
            return v;
        }
        proof {
            let tail = s@.subrange(i as int, n as int);
            let tail2 = s@.subrange(i + 1, n as int);
            assert(tail[0] == s@[i as int]);
            assert(tail.subrange(1, tail.len() as int) =~= tail2);
        }
        i = i + 1;
    }
}

/// Builds the canonical slot list for a variable order.
fn build_slots(vars: &Vec<VarInfo>, order: &Vec<u32>, umap: &Vec<u32>) -> (r: Vec<CanonicalVarKind>)
    ensures
        r@.len() == order@.len(),
        forall|j: int| 0 <= j < order@.len() ==> r@[j] == slots_for(vars@, order@, umap@, j),
{
    let n = order.len();
    let mut r: Vec<CanonicalVarKind> = Vec::new();
    let mut i: usize = 0;
    while i < n
        invariant
            i <= n,
            n == order@.len(),
            r@.len() == i,
            forall|j: int| 0 <= j < i ==> r@[j] == slots_for(vars@, order@, umap@, j),
        decreases n - i,
    {
        let v = order[i];
        let kind = if (v as usize) < vars.len() {
            vars[v as usize].kind
        } else {
            VarKind::Ty
        };
        let raw_universe = if (v as usize) < vars.len() {
            vars[v as usize].universe
        } else {
            0
        };
        let universe = first_index_u32(umap, raw_universe);
        r.push(CanonicalVarKind { kind, universe });
        i = i + 1;
    }
    r
}

/// Duplicates a list of variable or universe numbers.
fn copy_u32_vec(s: &Vec<u32>) -> (r: Vec<u32>)
    ensures
        r@ == s@,
{
    let n = s.len();
    let mut r: Vec<u32> = Vec::new();
    let mut i: usize = 0;
    while i < n
        invariant
            i <= n,
            n == s@.len(),
            r@.len() == i,
            forall|j: int| 0 <= j < i ==> r@[j] == s@[j],
        decreases n - i,
    {
        r.push(s[i]);
        i = i + 1;
    }
    proof {
        assert(r@ =~= s@);
    }
    r
}

/// An identity compression list: every universe maps to itself. Used where
/// a plain canonical value (no universe renumbering) is wanted.
fn no_compression() -> (r: Vec<u32>)
    ensures
        r@.len() == 0,
        forall|u: u32| compress_universe(r@, u) == u,
{
    let r: Vec<u32> = Vec::new();
    proof {
        assert forall|u: u32| compress_universe(r@, u) == u by {
            assert(!r@.contains(u));
        }
    }
    r
}

/// Canonicalizes a goal fully: free inference variables become slots in
/// first-occurrence order, and the universes in use are renumbered to a
/// compact prefix, with the returned map translating new universes back to
/// the old ones. The environment is carried through unchanged.
pub fn fully_canonicalize_goal(vars: &Vec<VarInfo>, v: &InEnvironment<Goal>) -> (r: (
    UCanonical<InEnvironment<Goal>>,
    UniverseMap,
))
    ensures
        ({
            let (order, unis) = cv_goal(vars@, v.goal, (Seq::<u32>::empty(), seq![0u32]));
            &&& r.1.universes@ == unis
            &&& (unis.len() <= u32::MAX ==> r.0.universes == unis.len())
            &&& r.0.canonical.binders@.len() == order.len()
            &&& forall|j: int|
                0 <= j < order.len() ==> r.0.canonical.binders@[j] == slots_for(
                    vars@,
                    order,
                    unis,
                    j,
                )
            &&& same_environment(r.0.canonical.value.environment, v.environment)
            &&& exists|op1: RwOp, op2: RwOp, mid: Goal|
                {
                    &&& op1 matches RwOp::Canonicalize { order: o } && o@ == order
                    &&& op2 matches RwOp::CompressUniverses { umap: u } && u@ == unis
                    &&& rw_goal(op1, v.goal, mid, 0)
                    &&& rw_goal(op2, mid, r.0.canonical.value.goal, 0)
                }
        }),
{
    let mut order: Vec<u32> = Vec::new();
    let mut unis: Vec<u32> = Vec::new();
    unis.push(0);
    proof {
        assert(unis@ =~= seq![0u32]);
    }
    cv_goal_exec(vars, &v.goal, &mut order, &mut unis);
    let order2 = copy_u32_vec(&order);
    let unis2 = copy_u32_vec(&unis);
    let binders = build_slots(vars, &order2, &unis2);
    let op1 = RwOp::Canonicalize { order };
    let mid = rw_goal_exec(&op1, &v.goal, 0);
    let op2 = RwOp::CompressUniverses { umap: unis };
    let goal2 = rw_goal_exec(&op2, &mid, 0);
    let unis = unis2;
    let n_universes = if unis.len() <= u32::MAX as usize {
        unis.len() as u32
    } else {
        u32::MAX
    };
    let environment = copy_environment(&v.environment);
    let result = (
        UCanonical {
            canonical: Canonical {
                value: InEnvironment { environment, goal: goal2 },
                binders,
            },
            universes: n_universes,
        },
        UniverseMap { universes: unis },
    );
    proof {
        assert(rw_goal(op1, v.goal, mid, 0));
        assert(rw_goal(op2, mid, result.0.canonical.value.goal, 0));
    }
    result
}

/// `b` is the constraint `a` with the rewrite applied (environment kept).
pub open spec fn rw_constraint(
    op: RwOp,
    a: InEnvironment<Constraint>,
    b: InEnvironment<Constraint>,
) -> bool {
    same_environment(b.environment, a.environment) && match a.goal {
        Constraint::LifetimeOutlives(x, y) => b.goal == Constraint::LifetimeOutlives(
            rw_lifetime(op, x, 0),
            rw_lifetime(op, y, 0),
        ),
    }
}

/// `b` is the goal-in-environment `a` with the rewrite applied to the goal.
pub open spec fn rw_in_env_goal(op: RwOp, a: InEnvironment<Goal>, b: InEnvironment<Goal>) -> bool {
    same_environment(b.environment, a.environment) && rw_goal(op, a.goal, b.goal, 0)
}

/// `b` is the literal `a` with the rewrite applied, keeping its sign.
pub open spec fn rw_literal(op: RwOp, a: Literal, b: Literal) -> bool {
    match a {
        Literal::Positive(g) => match b {
            Literal::Positive(g2) => rw_in_env_goal(op, g, g2),
            _ => false,
        },
        Literal::Negative(g) => match b {
            Literal::Negative(g2) => rw_in_env_goal(op, g, g2),
            _ => false,
        },
    }
}

pub fn rw_constraints_exec(op: &RwOp, cs: &Vec<InEnvironment<Constraint>>) -> (r: Vec<
    InEnvironment<Constraint>,
>)
    ensures
        r@.len() == cs@.len(),
        forall|j: int| 0 <= j < cs@.len() ==> rw_constraint(*op, cs@[j], r@[j]),
{
    let n = cs.len();
    let mut r: Vec<InEnvironment<Constraint>> = Vec::new();
    let mut i: usize = 0;
    while i < n
        invariant
            i <= n,
            n == cs@.len(),
            r@.len() == i,
            forall|j: int| 0 <= j < i ==> rw_constraint(*op, cs@[j], r@[j]),
        decreases n - i,
    {
        let environment = copy_environment(&cs[i].environment);
        let goal = match &cs[i].goal {
            Constraint::LifetimeOutlives(x, y) => Constraint::LifetimeOutlives(
                rw_lifetime_exec(op, x, 0),
                rw_lifetime_exec(op, y, 0),
            ),
        };
        r.push(InEnvironment { environment, goal });
        i = i + 1;
    }
    r
}

pub fn rw_in_env_goals_exec(op: &RwOp, gs: &Vec<InEnvironment<Goal>>) -> (r: Vec<InEnvironment<Goal>>)
    ensures
        r@.len() == gs@.len(),
        forall|j: int| 0 <= j < gs@.len() ==> rw_in_env_goal(*op, gs@[j], r@[j]),
{
    let n = gs.len();
    let mut r: Vec<InEnvironment<Goal>> = Vec::new();
    let mut i: usize = 0;
    while i < n
        invariant
            i <= n,
            n == gs@.len(),
            r@.len() == i,
            forall|j: int| 0 <= j < i ==> rw_in_env_goal(*op, gs@[j], r@[j]),
        decreases n - i,
    {
        let environment = copy_environment(&gs[i].environment);
        let goal = rw_goal_exec(op, &gs[i].goal, 0);
        r.push(InEnvironment { environment, goal });
        i = i + 1;
    }
    r
}

fn rw_literals_exec(op: &RwOp, ls: &Vec<Literal>) -> (r: Vec<Literal>)
    ensures
        r@.len() == ls@.len(),
        forall|j: int| 0 <= j < ls@.len() ==> rw_literal(*op, ls@[j], r@[j]),
{
    let n = ls.len();
    let mut r: Vec<Literal> = Vec::new();
    let mut i: usize = 0;
    while i < n
        invariant
            i <= n,
            n == ls@.len(),
            r@.len() == i,
            forall|j: int| 0 <= j < i ==> rw_literal(*op, ls@[j], r@[j]),
        decreases n - i,
    {
        let lit = match &ls[i] {
            Literal::Positive(g) => Literal::Positive(
                InEnvironment {
                    environment: copy_environment(&g.environment),
                    goal: rw_goal_exec(op, &g.goal, 0),
                },
            ),
            Literal::Negative(g) => Literal::Negative(
                InEnvironment {
                    environment: copy_environment(&g.environment),
                    goal: rw_goal_exec(op, &g.goal, 0),
                },
            ),
        };
        r.push(lit);
        i = i + 1;
    }
    r
}

/// Variables collected from a vector of goals-in-environment.
pub open spec fn cv_in_env_goals(
    vars: Seq<VarInfo>,
    gs: Vec<InEnvironment<Goal>>,
    acc: (Seq<u32>, Seq<u32>),
    i: nat,
) -> (Seq<u32>, Seq<u32>)
    decreases gs@.len() - i,
{
    if i >= gs@.len() {
        acc
    } else {
        cv_in_env_goals(vars, gs, cv_goal(vars, gs[i as int].goal, acc), i + 1)
    }
}

fn cv_in_env_goals_exec(
    vars: &Vec<VarInfo>,
    gs: &Vec<InEnvironment<Goal>>,
    vs: &mut Vec<u32>,
    us: &mut Vec<u32>,
)
    ensures
        (final(vs)@, final(us)@) == cv_in_env_goals(vars@, *gs, (old(vs)@, old(us)@), 0),
{
    let n = gs.len();
    let mut i: usize = 0;
    loop
        invariant
            i <= n,
            n == gs@.len(),
            cv_in_env_goals(vars@, *gs, (old(vs)@, old(us)@), 0) == cv_in_env_goals(
                vars@,
                *gs,
                (vs@, us@),
                i as nat,
            ),
        decreases n - i,
    {
        if i >= n {
            return ;
        }
        cv_goal_exec(vars, &gs[i].goal, vs, us);
        i = i + 1;
    }
}

/// Variables collected from a vector of literals.
pub open spec fn cv_literals(
    vars: Seq<VarInfo>,
    ls: Vec<Literal>,
    acc: (Seq<u32>, Seq<u32>),
    i: nat,
) -> (Seq<u32>, Seq<u32>)
    decreases ls@.len() - i,
{
    if i >= ls@.len() {
        acc
    } else {
        let g = match ls[i as int] {
            Literal::Positive(g) => g.goal,
            Literal::Negative(g) => g.goal,
        };
        cv_literals(vars, ls, cv_goal(vars, g, acc), i + 1)
    }
}

fn cv_literals_exec(vars: &Vec<VarInfo>, ls: &Vec<Literal>, vs: &mut Vec<u32>, us: &mut Vec<u32>)
    ensures
        (final(vs)@, final(us)@) == cv_literals(vars@, *ls, (old(vs)@, old(us)@), 0),
{
    let n = ls.len();
    let mut i: usize = 0;
    loop
        invariant
            i <= n,
            n == ls@.len(),
            cv_literals(vars@, *ls, (old(vs)@, old(us)@), 0) == cv_literals(
                vars@,
                *ls,
                (vs@, us@),
                i as nat,
            ),
        decreases n - i,
    {
        if i >= n {
            return ;
        }
        match &ls[i] {
            Literal::Positive(g) => cv_goal_exec(vars, &g.goal, vs, us),
            Literal::Negative(g) => cv_goal_exec(vars, &g.goal, vs, us),
        }
        i = i + 1;
    }
}

/// The collected variable order of a constrained substitution.
pub open spec fn cv_constrained_subst(
    vars: Seq<VarInfo>,
    subst: Substitution,
    constraints: Vec<InEnvironment<Constraint>>,
) -> (Seq<u32>, Seq<u32>) {
    cv_constraints(vars, constraints, cv_args(vars, subst, (Seq::empty(), seq![0u32]), 0), 0)
}

/// Canonicalizes a substitution with its constraints: every free inference
/// variable becomes a slot in first-occurrence order; universes are not
/// renumbered.
pub fn canonicalize_constrained_subst(
    vars: &Vec<VarInfo>,
    subst: &Substitution,
    constraints: &Vec<InEnvironment<Constraint>>,
) -> (r: Canonical<ConstrainedSubst>)
    ensures
        ({
            let (order, _unis) = cv_constrained_subst(vars@, *subst, *constraints);
            &&& r.binders@.len() == order.len()
            &&& forall|j: int|
                0 <= j < order.len() ==> r.binders@[j] == slots_for(
                    vars@,
                    order,
                    Seq::<u32>::empty(),
                    j,
                )
            &&& exists|op: RwOp|
                {
                    &&& op matches RwOp::Canonicalize { order: o } && o@ == order
                    &&& rw_args(op, *subst, r.value.subst, 0)
                    &&& r.value.constraints@.len() == constraints@.len()
                    &&& forall|j: int|
                        0 <= j < constraints@.len() ==> rw_constraint(
                            op,
                            constraints@[j],
                            r.value.constraints@[j],
                        )
                }
        }),
{
    let mut order: Vec<u32> = Vec::new();
    let mut unis: Vec<u32> = Vec::new();
    unis.push(0);
    proof {
        assert(unis@ =~= seq![0u32]);
    }
    cv_args_exec(vars, subst, &mut order, &mut unis);
    cv_constraints_exec(vars, constraints, &mut order, &mut unis);
    let order2 = copy_u32_vec(&order);
    let empty_umap = no_compression();
    let binders = build_slots(vars, &order2, &empty_umap);
    let op = RwOp::Canonicalize { order };
    let new_subst = rw_args_exec(&op, subst, 0);
    let new_constraints = rw_constraints_exec(&op, constraints);
    let r = Canonical {
        value: ConstrainedSubst { subst: new_subst, constraints: new_constraints },
        binders,
    };
    proof {
        assert(rw_args(op, *subst, r.value.subst, 0));
        assert(empty_umap@ =~= Seq::<u32>::empty());
    }
    r
}

/// The collected variable order of an answer substitution.
pub open spec fn cv_answer_subst(
    vars: Seq<VarInfo>,
    subst: Substitution,
    constraints: Vec<InEnvironment<Constraint>>,
    delayed_subgoals: Vec<InEnvironment<Goal>>,
) -> (Seq<u32>, Seq<u32>) {
    cv_in_env_goals(
        vars,
        delayed_subgoals,
        cv_constraints(vars, constraints, cv_args(vars, subst, (Seq::empty(), seq![0u32]), 0), 0),
        0,
    )
}

/// Canonicalizes an answer substitution: the substitution, its
/// constraints, and its delayed subgoals, over one slot list.
pub fn canonicalize_answer_subst(
    vars: &Vec<VarInfo>,
    subst: &Substitution,
    constraints: &Vec<InEnvironment<Constraint>>,
    delayed_subgoals: &Vec<InEnvironment<Goal>>,
) -> (r: Canonical<AnswerSubst>)
    ensures
        ({
            let (order, _unis) = cv_answer_subst(vars@, *subst, *constraints, *delayed_subgoals);
            &&& r.binders@.len() == order.len()
            &&& forall|j: int|
                0 <= j < order.len() ==> r.binders@[j] == slots_for(
                    vars@,
                    order,
                    Seq::<u32>::empty(),
                    j,
                )
            &&& exists|op: RwOp|
                {
                    &&& op matches RwOp::Canonicalize { order: o } && o@ == order
                    &&& rw_args(op, *subst, r.value.subst, 0)
                    &&& r.value.constraints@.len() == constraints@.len()
                    &&& forall|j: int|
                        0 <= j < constraints@.len() ==> rw_constraint(
                            op,
                            constraints@[j],
                            r.value.constraints@[j],
                        )
                    &&& r.value.delayed_subgoals@.len() == delayed_subgoals@.len()
                    &&& forall|j: int|
                        0 <= j < delayed_subgoals@.len() ==> rw_in_env_goal(
                            op,
                            delayed_subgoals@[j],
                            r.value.delayed_subgoals@[j],
                        )
                }
        }),
{
    let mut order: Vec<u32> = Vec::new();
    let mut unis: Vec<u32> = Vec::new();
    unis.push(0);
    proof {
        assert(unis@ =~= seq![0u32]);
    }
    cv_args_exec(vars, subst, &mut order, &mut unis);
    cv_constraints_exec(vars, constraints, &mut order, &mut unis);
    cv_in_env_goals_exec(vars, delayed_subgoals, &mut order, &mut unis);
    let order2 = copy_u32_vec(&order);
    let empty_umap = no_compression();
    let binders = build_slots(vars, &order2, &empty_umap);
    let op = RwOp::Canonicalize { order };
    let new_subst = rw_args_exec(&op, subst, 0);
    let new_constraints = rw_constraints_exec(&op, constraints);
    let new_delayed = rw_in_env_goals_exec(&op, delayed_subgoals);
    let r = Canonical {
        value: AnswerSubst {
            subst: new_subst,
            constraints: new_constraints,
            delayed_subgoals: new_delayed,
        },
        binders,
    };
    proof {
        assert(rw_args(op, *subst, r.value.subst, 0));
        assert(empty_umap@ =~= Seq::<u32>::empty());
    }
    r
}

/// The collected variable order of a partial derivation.
pub open spec fn cv_ex_clause(vars: Seq<VarInfo>, ex: ExClause) -> (Seq<u32>, Seq<u32>) {
    cv_in_env_goals(
        vars,
        ex.delayed_subgoals,
        cv_literals(
            vars,
            ex.subgoals,
            cv_constraints(
                vars,
                ex.constraints,
                cv_args(vars, ex.subst, (Seq::empty(), seq![0u32]), 0),
                0,
            ),
            0,
        ),
        0,
    )
}

/// Canonicalizes a partial derivation whole: its substitution,
/// constraints, pending subgoals, and delayed subgoals, over one slot
/// list.
pub fn canonicalize_ex_clause(vars: &Vec<VarInfo>, ex: &ExClause) -> (r: Canonical<ExClause>)
    ensures
        ({
            let (order, _unis) = cv_ex_clause(vars@, *ex);
            &&& r.binders@.len() == order.len()
            &&& forall|j: int|
                0 <= j < order.len() ==> r.binders@[j] == slots_for(
                    vars@,
                    order,
                    Seq::<u32>::empty(),
                    j,
                )
            &&& exists|op: RwOp|
                {
                    &&& op matches RwOp::Canonicalize { order: o } && o@ == order
                    &&& rw_args(op, ex.subst, r.value.subst, 0)
                    &&& r.value.constraints@.len() == ex.constraints@.len()
                    &&& forall|j: int|
                        0 <= j < ex.constraints@.len() ==> rw_constraint(
                            op,
                            ex.constraints@[j],
                            r.value.constraints@[j],
                        )
                    &&& r.value.subgoals@.len() == ex.subgoals@.len()
                    &&& forall|j: int|
                        0 <= j < ex.subgoals@.len() ==> rw_literal(
                            op,
                            ex.subgoals@[j],
                            r.value.subgoals@[j],
                        )
                    &&& r.value.delayed_subgoals@.len() == ex.delayed_subgoals@.len()
                    &&& forall|j: int|
                        0 <= j < ex.delayed_subgoals@.len() ==> rw_in_env_goal(
                            op,
                            ex.delayed_subgoals@[j],
                            r.value.delayed_subgoals@[j],
                        )
                }
        }),
{
    let mut order: Vec<u32> = Vec::new();
    let mut unis: Vec<u32> = Vec::new();
    unis.push(0);
    proof {
        assert(unis@ =~= seq![0u32]);
    }
    cv_args_exec(vars, &ex.subst, &mut order, &mut unis);
    cv_constraints_exec(vars, &ex.constraints, &mut order, &mut unis);
    cv_literals_exec(vars, &ex.subgoals, &mut order, &mut unis);
    cv_in_env_goals_exec(vars, &ex.delayed_subgoals, &mut order, &mut unis);
    let order2 = copy_u32_vec(&order);
    let empty_umap = no_compression();
    let binders = build_slots(vars, &order2, &empty_umap);
    let op = RwOp::Canonicalize { order };
    let new_subst = rw_args_exec(&op, &ex.subst, 0);
    let new_constraints = rw_constraints_exec(&op, &ex.constraints);
    let new_subgoals = rw_literals_exec(&op, &ex.subgoals);
    let new_delayed = rw_in_env_goals_exec(&op, &ex.delayed_subgoals);
    let r = Canonical {
        value: ExClause {
            subst: new_subst,
            constraints: new_constraints,
            subgoals: new_subgoals,
            delayed_subgoals: new_delayed,
        },
        binders,
    };
    proof {
        assert(rw_args(op, ex.subst, r.value.subst, 0));
        assert(empty_umap@ =~= Seq::<u32>::empty());
    }
    r
}

/// Whether the inference variable `v` occurs in the goal (`None` asks for
/// any inference variable at all).
pub open spec fn occ_goal(g: Goal, v: Option<u32>) -> bool
    decreases g,
{
    match g {
        Goal::Domain(d) => match d {
            DomainGoal::Holds(_, s) => occ_args(s, v, 0),
            DomainGoal::AliasEq(p, t) => occ_args(p.substitution, v, 0) || crate::infer::occ_ty(
                t,
                v,
            ),
        },
        Goal::And(l, r) => occ_goal(*l, v) || occ_goal(*r, v),
        Goal::Not(g1) => occ_goal(*g1, v),
        Goal::Quantified(_, _, g1) => occ_goal(*g1, v),
    }
}

/// Whether a goal contains any free inference variable.
pub open spec fn goal_has_inference_var(g: Goal) -> bool {
    occ_goal(g, None)
}

fn goal_has_inference_var_exec(g: &Goal) -> (r: bool)
    ensures
        r == goal_has_inference_var(*g),
    decreases *g,
{
    match g {
        Goal::Domain(d) => match d {
            DomainGoal::Holds(_, s) => occ_args_exec(s, None),
            DomainGoal::AliasEq(p, t) => occ_args_exec(&p.substitution, None)
                || crate::infer::occ_ty_exec(t, None),
        },
        Goal::And(l, r1) => goal_has_inference_var_exec(l) || goal_has_inference_var_exec(r1),
        Goal::Not(g1) => goal_has_inference_var_exec(g1),
        Goal::Quantified(_, _, g1) => goal_has_inference_var_exec(g1),
    }
}

/// Produces the goal to use for negative-subgoal handling, or none when
/// inversion is not well-defined: a goal that still contains unresolved
/// existential variables cannot soundly be negated and is refused rather
/// than approximated.
pub fn invert_goal(v: &InEnvironment<Goal>) -> (r: Option<InEnvironment<Goal>>)
    ensures
        match r {
            Some(g) => !goal_has_inference_var(v.goal) && same_goal_in_environment(g, *v),
            None => goal_has_inference_var(v.goal),
        },
{
    if goal_has_inference_var_exec(&v.goal) {
        None
    } else {
        Some(copy_goal_in_environment(v))
    }
}


/// A listed value has a position within the list.
proof fn lemma_first_index_in_range(s: Seq<u32>, v: u32)
    requires
        s.contains(v),
    ensures
        0 <= first_index(s, v) < s.len(),
    decreases s.len(),
{
    if s.len() > 0 && s[0] != v {
        let i = choose|i: int| 0 <= i < s.len() && s[i] == v;
        let tail = s.subrange(1, s.len() as int);
        assert(tail[i - 1] == s[i]);
        assert(tail.contains(v));
        lemma_first_index_in_range(tail, v);
    }
}

/// Canonicalization replaces every listed inference variable: a type all
/// of whose variables are listed rewrites to a variable-free type.
pub proof fn lemma_canonical_ty_var_free(order: Vec<u32>, a: Ty, b: Ty, d: u32)
    requires
        order@.len() <= u32::MAX,
        rw_ty(RwOp::Canonicalize { order }, a, b, d),
        forall|v: u32| crate::infer::occ_ty(a, Some(v)) ==> order@.contains(v),
    ensures
        !crate::infer::occ_ty(b, None),
    decreases a, 1nat,
{
    let op = RwOp::Canonicalize { order };
    match a {
        Ty::InferenceVar(v) => {
            assert(crate::infer::occ_ty(a, Some(v)));
            lemma_first_index_in_range(order@, v);
        },
        Ty::Projection(p) => {
            assert forall|v: u32| occ_args(p.substitution, Some(v), 0) implies order@.contains(
                v,
            ) by {
                assert(crate::infer::occ_ty(a, Some(v)));
            }
            match b {
                Ty::Projection(p2) => {
                    assert(rw_args(RwOp::Canonicalize { order }, p.substitution, p2.substitution, d));
                    lemma_canonical_args_var_free(order, p.substitution, p2.substitution, d, 0);
                },
                _ => {},
            }
        },
        Ty::Opaque(o) => {
            assert forall|v: u32| occ_args(o.substitution, Some(v), 0) implies order@.contains(
                v,
            ) by {
                assert(crate::infer::occ_ty(a, Some(v)));
            }
            match b {
                Ty::Opaque(o2) => {
                    assert(rw_args(RwOp::Canonicalize { order }, o.substitution, o2.substitution, d));
                    lemma_canonical_args_var_free(order, o.substitution, o2.substitution, d, 0);
                },
                _ => {},
            }
        },
        Ty::Adt(_, s) => {
            assert forall|v: u32| occ_args(s, Some(v), 0) implies order@.contains(v) by {
                assert(crate::infer::occ_ty(a, Some(v)));
            }
            match b {
                Ty::Adt(_, s2) => {
                    assert(rw_args(RwOp::Canonicalize { order }, s, s2, d));
                    lemma_canonical_args_var_free(order, s, s2, d, 0);
                },
                _ => {},
            }
        },
        Ty::AssociatedType(_, s) => {
            assert forall|v: u32| occ_args(s, Some(v), 0) implies order@.contains(v) by {
                assert(crate::infer::occ_ty(a, Some(v)));
            }
            match b {
                Ty::AssociatedType(_, s2) => {
                    assert(rw_args(RwOp::Canonicalize { order }, s, s2, d));
                    lemma_canonical_args_var_free(order, s, s2, d, 0);
                },
                _ => {},
            }
        },
        Ty::Tuple(_, s) => {
            assert forall|v: u32| occ_args(s, Some(v), 0) implies order@.contains(v) by {
                assert(crate::infer::occ_ty(a, Some(v)));
            }
            match b {
                Ty::Tuple(_, s2) => {
                    assert(rw_args(RwOp::Canonicalize { order }, s, s2, d));
                    lemma_canonical_args_var_free(order, s, s2, d, 0);
                },
                _ => {},
            }
        },
        Ty::Slice(t1) => {
            assert forall|v: u32| crate::infer::occ_ty(*t1, Some(v)) implies order@.contains(
                v,
            ) by {
                assert(crate::infer::occ_ty(a, Some(v)));
            }
            match b {
                Ty::Slice(t2) => {
                    lemma_canonical_ty_var_free(order, *t1, *t2, d);
                },
                _ => {},
            }
        },
        Ty::FnDef(_, s) => {
            assert forall|v: u32| occ_args(s, Some(v), 0) implies order@.contains(v) by {
                assert(crate::infer::occ_ty(a, Some(v)));
            }
            match b {
                Ty::FnDef(_, s2) => {
                    assert(rw_args(RwOp::Canonicalize { order }, s, s2, d));
                    lemma_canonical_args_var_free(order, s, s2, d, 0);
                },
                _ => {},
            }
        },
        Ty::Ref(_, l, t1) => {
            assert forall|v: u32| crate::infer::occ_ty(*t1, Some(v)) implies order@.contains(
                v,
            ) by {
                assert(crate::infer::occ_ty(a, Some(v)));
            }
            match b {
                Ty::Ref(_, l2, t2) => {
                    if let Lifetime::InferenceVar(v) = l {
                        assert(crate::infer::occ_lifetime(l, Some(v)));
                        assert(crate::infer::occ_ty(a, Some(v)));
                        lemma_first_index_in_range(order@, v);
                    }
                    lemma_canonical_ty_var_free(order, *t1, *t2, d);
                },
                _ => {},
            }
        },
        Ty::Raw(_, t1) => {
            assert forall|v: u32| crate::infer::occ_ty(*t1, Some(v)) implies order@.contains(
                v,
            ) by {
                assert(crate::infer::occ_ty(a, Some(v)));
            }
            match b {
                Ty::Raw(_, t2) => {
                    lemma_canonical_ty_var_free(order, *t1, *t2, d);
                },
                _ => {},
            }
        },
        Ty::Array(t1, c1) => {
            assert forall|v: u32| crate::infer::occ_ty(*t1, Some(v)) implies order@.contains(
                v,
            ) by {
                assert(crate::infer::occ_ty(a, Some(v)));
            }
            assert forall|v: u32| crate::infer::occ_const(*c1, Some(v)) implies order@.contains(
                v,
            ) by {
                assert(crate::infer::occ_ty(a, Some(v)));
            }
            match b {
                Ty::Array(t2, c2) => {
                    lemma_canonical_ty_var_free(order, *t1, *t2, d);
                    lemma_canonical_const_var_free(order, *c1, *c2, d);
                },
                _ => {},
            }
        },
        Ty::Closure(_, s) => {
            assert forall|v: u32| occ_args(s, Some(v), 0) implies order@.contains(v) by {
                assert(crate::infer::occ_ty(a, Some(v)));
            }
            match b {
                Ty::Closure(_, s2) => {
                    assert(rw_args(RwOp::Canonicalize { order }, s, s2, d));
                    lemma_canonical_args_var_free(order, s, s2, d, 0);
                },
                _ => {},
            }
        },
        _ => {},
    }
}

pub proof fn lemma_canonical_const_var_free(order: Vec<u32>, a: Const, b: Const, d: u32)
    requires
        order@.len() <= u32::MAX,
        crate::rewrite::rw_const(RwOp::Canonicalize { order }, a, b, d),
        forall|v: u32| crate::infer::occ_const(a, Some(v)) ==> order@.contains(v),
    ensures
        !crate::infer::occ_const(b, None),
    decreases a, 2nat,
{
    assert forall|v: u32| crate::infer::occ_ty(*a.ty, Some(v)) implies order@.contains(v) by {
        assert(crate::infer::occ_const(a, Some(v)));
    }
    lemma_canonical_ty_var_free(order, *a.ty, *b.ty, d);
    if let ConstValue::InferenceVar(v) = a.value {
        assert(crate::infer::occ_const(a, Some(v)));
        lemma_first_index_in_range(order@, v);
    }
}

pub proof fn lemma_canonical_arg_var_free(order: Vec<u32>, a: GenericArg, b: GenericArg, d: u32)
    requires
        order@.len() <= u32::MAX,
        crate::rewrite::rw_arg(RwOp::Canonicalize { order }, a, b, d),
        forall|v: u32| crate::infer::occ_arg(a, Some(v)) ==> order@.contains(v),
    ensures
        !crate::infer::occ_arg(b, None),
    decreases a, 3nat,
{
    match a {
        GenericArg::Ty(t1) => {
            assert forall|v: u32| crate::infer::occ_ty(t1, Some(v)) implies order@.contains(v) by {
                assert(crate::infer::occ_arg(a, Some(v)));
            }
            match b {
                GenericArg::Ty(t2) => {
                    lemma_canonical_ty_var_free(order, t1, t2, d);
                },
                _ => {},
            }
        },
        GenericArg::Lifetime(l) => {
            if let Lifetime::InferenceVar(v) = l {
                assert(crate::infer::occ_lifetime(l, Some(v)));
                assert(crate::infer::occ_arg(a, Some(v)));
                lemma_first_index_in_range(order@, v);
            }
        },
        GenericArg::Const(c1) => {
            assert forall|v: u32| crate::infer::occ_const(c1, Some(v)) implies order@.contains(
                v,
            ) by {
                assert(crate::infer::occ_arg(a, Some(v)));
            }
            match b {
                GenericArg::Const(c2) => {
                    lemma_canonical_const_var_free(order, c1, c2, d);
                },
                _ => {},
            }
        },
    }
}

pub proof fn lemma_canonical_args_var_free(
    order: Vec<u32>,
    a: Substitution,
    b: Substitution,
    d: u32,
    i: nat,
)
    requires
        order@.len() <= u32::MAX,
        a@.len() == b@.len(),
        crate::rewrite::rw_args_from(RwOp::Canonicalize { order }, a, b, d, i),
        forall|v: u32| occ_args(a, Some(v), i) ==> order@.contains(v),
    ensures
        !occ_args(b, None, i),
    decreases a, a@.len() - i,
{
    if i < a@.len() {
        assert forall|v: u32| crate::infer::occ_arg(a[i as int], Some(v)) implies order@.contains(
            v,
        ) by {
            assert(occ_args(a, Some(v), i));
        }
        assert forall|v: u32| occ_args(a, Some(v), i + 1) implies order@.contains(v) by {
            assert(occ_args(a, Some(v), i));
        }
        lemma_canonical_arg_var_free(order, a[i as int], b[i as int], d);
        lemma_canonical_args_var_free(order, a, b, d, i + 1);
    }
}

/// The canonical-form invariant for goals: a goal all of whose free
/// inference variables are listed in `order` — in particular one whose
/// order was collected by the canonicalization pass itself — rewrites to a
/// goal with no free inference variable at all.
pub proof fn lemma_canonical_goal_var_free(order: Vec<u32>, a: Goal, b: Goal, d: u32)
    requires
        order@.len() <= u32::MAX,
        rw_goal(RwOp::Canonicalize { order }, a, b, d),
        forall|v: u32| occ_goal(a, Some(v)) ==> order@.contains(v),
    ensures
        !goal_has_inference_var(b),
    decreases a,
{
    match a {
        Goal::Domain(dg) => match dg {
            DomainGoal::Holds(_, s) => {
                assert forall|v: u32| occ_args(s, Some(v), 0) implies order@.contains(v) by {
                    assert(occ_goal(a, Some(v)));
                }
                match b {
                    Goal::Domain(DomainGoal::Holds(_, s2)) => {
                        assert(rw_args(RwOp::Canonicalize { order }, s, s2, d));
                        lemma_canonical_args_var_free(order, s, s2, d, 0);
                    },
                    _ => {},
                }
            },
            DomainGoal::AliasEq(p, t) => {
                assert forall|v: u32| occ_args(p.substitution, Some(v), 0) implies order@.contains(
                    v,
                ) by {
                    assert(occ_goal(a, Some(v)));
                }
                assert forall|v: u32| crate::infer::occ_ty(t, Some(v)) implies order@.contains(
                    v,
                ) by {
                    assert(occ_goal(a, Some(v)));
                }
                match b {
                    Goal::Domain(DomainGoal::AliasEq(p2, t2)) => {
                        assert(rw_args(RwOp::Canonicalize { order }, p.substitution, p2.substitution, d));
                        lemma_canonical_args_var_free(order, p.substitution, p2.substitution, d, 0);
                        lemma_canonical_ty_var_free(order, t, t2, d);
                    },
                    _ => {},
                }
            },
        },
        Goal::And(l, r) => {
            assert forall|v: u32| occ_goal(*l, Some(v)) implies order@.contains(v) by {
                assert(occ_goal(a, Some(v)));
            }
            assert forall|v: u32| occ_goal(*r, Some(v)) implies order@.contains(v) by {
                assert(occ_goal(a, Some(v)));
            }
            match b {
                Goal::And(l2, r2) => {
                    lemma_canonical_goal_var_free(order, *l, *l2, d);
                    lemma_canonical_goal_var_free(order, *r, *r2, d);
                },
                _ => {},
            }
        },
        Goal::Not(g1) => {
            assert forall|v: u32| occ_goal(*g1, Some(v)) implies order@.contains(v) by {
                assert(occ_goal(a, Some(v)));
            }
            match b {
                Goal::Not(g2) => {
                    lemma_canonical_goal_var_free(order, *g1, *g2, d);
                },
                _ => {},
            }
        },
        Goal::Quantified(_, _, g1) => {
            assert forall|v: u32| occ_goal(*g1, Some(v)) implies order@.contains(v) by {
                assert(occ_goal(a, Some(v)));
            }
            match b {
                Goal::Quantified(_, _, g2) => {
                    lemma_canonical_goal_var_free(order, *g1, *g2, deeper(d));
                },
                _ => {},
            }
        },
    }
}


/// Pushing keeps earlier entries listed.
proof fn lemma_push_keeps_contains(s: Seq<u32>, x: u32, v: u32)
    requires
        s.contains(v),
    ensures
        s.push(x).contains(v),
{
    let i = choose|i: int| 0 <= i < s.len() && s[i] == v;
    assert(s.push(x)[i] == v);
}

/// The collection pass never drops a variable the accumulator already
/// lists.
proof fn lemma_note_var_mono(vars: Seq<VarInfo>, w: u32, acc: (Seq<u32>, Seq<u32>), v: u32)
    requires
        acc.0.contains(v),
    ensures
        note_var(vars, w, acc).0.contains(v),
{
    if !acc.0.contains(w) {
        lemma_push_keeps_contains(acc.0, w, v);
    }
}

proof fn lemma_cv_ty_mono(vars: Seq<VarInfo>, t: Ty, acc: (Seq<u32>, Seq<u32>), v: u32)
    requires
        acc.0.contains(v),
    ensures
        cv_ty(vars, t, acc).0.contains(v),
    decreases t, 1nat,
{
    match t {
        Ty::InferenceVar(w) => lemma_note_var_mono(vars, w, acc, v),
        Ty::Projection(p) => lemma_cv_args_mono(vars, p.substitution, acc, 0, v),
        Ty::Opaque(o) => lemma_cv_args_mono(vars, o.substitution, acc, 0, v),
        Ty::Adt(_, s) => lemma_cv_args_mono(vars, s, acc, 0, v),
        Ty::AssociatedType(_, s) => lemma_cv_args_mono(vars, s, acc, 0, v),
        Ty::Tuple(_, s) => lemma_cv_args_mono(vars, s, acc, 0, v),
        Ty::Slice(t1) => lemma_cv_ty_mono(vars, *t1, acc, v),
        Ty::FnDef(_, s) => lemma_cv_args_mono(vars, s, acc, 0, v),
        Ty::Ref(_, l, t1) => {
            lemma_cv_lifetime_mono(vars, l, acc, v);
            lemma_cv_ty_mono(vars, *t1, cv_lifetime(vars, l, acc), v);
        },
        Ty::Raw(_, t1) => lemma_cv_ty_mono(vars, *t1, acc, v),
        Ty::Array(t1, c1) => {
            lemma_cv_ty_mono(vars, *t1, acc, v);
            lemma_cv_const_mono(vars, *c1, cv_ty(vars, *t1, acc), v);
        },
        Ty::Closure(_, s) => lemma_cv_args_mono(vars, s, acc, 0, v),
        _ => {},
    }
}

proof fn lemma_cv_lifetime_mono(vars: Seq<VarInfo>, l: Lifetime, acc: (Seq<u32>, Seq<u32>), v: u32)
    requires
        acc.0.contains(v),
    ensures
        cv_lifetime(vars, l, acc).0.contains(v),
{
    match l {
        Lifetime::InferenceVar(w) => lemma_note_var_mono(vars, w, acc, v),
        _ => {},
    }
}

proof fn lemma_cv_const_mono(vars: Seq<VarInfo>, c: Const, acc: (Seq<u32>, Seq<u32>), v: u32)
    requires
        acc.0.contains(v),
    ensures
        cv_const(vars, c, acc).0.contains(v),
    decreases c, 1nat,
{
    lemma_cv_ty_mono(vars, *c.ty, acc, v);
    let acc1 = cv_ty(vars, *c.ty, acc);
    match c.value {
        ConstValue::InferenceVar(w) => lemma_note_var_mono(vars, w, acc1, v),
        _ => {},
    }
}

proof fn lemma_cv_arg_mono(vars: Seq<VarInfo>, a: GenericArg, acc: (Seq<u32>, Seq<u32>), v: u32)
    requires
        acc.0.contains(v),
    ensures
        cv_arg(vars, a, acc).0.contains(v),
    decreases a, 2nat,
{
    match a {
        GenericArg::Ty(t) => lemma_cv_ty_mono(vars, t, acc, v),
        GenericArg::Lifetime(l) => lemma_cv_lifetime_mono(vars, l, acc, v),
        GenericArg::Const(c) => lemma_cv_const_mono(vars, c, acc, v),
    }
}

proof fn lemma_cv_args_mono(
    vars: Seq<VarInfo>,
    s: Substitution,
    acc: (Seq<u32>, Seq<u32>),
    i: nat,
    v: u32,
)
    requires
        acc.0.contains(v),
    ensures
        cv_args(vars, s, acc, i).0.contains(v),
    decreases s, s@.len() - i,
{
    if i < s@.len() {
        lemma_cv_arg_mono(vars, s[i as int], acc, v);
        lemma_cv_args_mono(vars, s, cv_arg(vars, s[i as int], acc), i + 1, v);
    }
}

proof fn lemma_cv_constraints_mono(
    vars: Seq<VarInfo>,
    cs: Vec<InEnvironment<Constraint>>,
    acc: (Seq<u32>, Seq<u32>),
    i: nat,
    v: u32,
)
    requires
        acc.0.contains(v),
    ensures
        cv_constraints(vars, cs, acc, i).0.contains(v),
    decreases cs@.len() - i,
{
    if i < cs@.len() {
        match cs[i as int].goal {
            Constraint::LifetimeOutlives(x, y) => {
                lemma_cv_lifetime_mono(vars, x, acc, v);
                lemma_cv_lifetime_mono(vars, y, cv_lifetime(vars, x, acc), v);
            },
        }
        lemma_cv_constraints_mono(vars, cs, cv_constraint(vars, cs[i as int], acc), i + 1, v);
    }
}

/// The collection pass lists every variable that occurs.
proof fn lemma_cv_ty_complete(vars: Seq<VarInfo>, t: Ty, acc: (Seq<u32>, Seq<u32>), v: u32)
    requires
        crate::infer::occ_ty(t, Some(v)),
    ensures
        cv_ty(vars, t, acc).0.contains(v),
    decreases t, 1nat,
{
    match t {
        Ty::InferenceVar(w) => {
            if acc.0.contains(v) {
                lemma_note_var_mono(vars, w, acc, v);
            } else {
                assert(note_var(vars, w, acc).0 == acc.0.push(w));
                assert(note_var(vars, w, acc).0.last() == w);
            }
        },
        Ty::Projection(p) => lemma_cv_args_complete(vars, p.substitution, acc, 0, v),
        Ty::Opaque(o) => lemma_cv_args_complete(vars, o.substitution, acc, 0, v),
        Ty::Adt(_, s) => lemma_cv_args_complete(vars, s, acc, 0, v),
        Ty::AssociatedType(_, s) => lemma_cv_args_complete(vars, s, acc, 0, v),
        Ty::Tuple(_, s) => lemma_cv_args_complete(vars, s, acc, 0, v),
        Ty::Slice(t1) => lemma_cv_ty_complete(vars, *t1, acc, v),
        Ty::FnDef(_, s) => lemma_cv_args_complete(vars, s, acc, 0, v),
        Ty::Ref(_, l, t1) => {
            if crate::infer::occ_lifetime(l, Some(v)) {
                lemma_cv_lifetime_complete(vars, l, acc, v);
                lemma_cv_ty_mono(vars, *t1, cv_lifetime(vars, l, acc), v);
            } else {
                lemma_cv_ty_complete(vars, *t1, cv_lifetime(vars, l, acc), v);
            }
        },
        Ty::Raw(_, t1) => lemma_cv_ty_complete(vars, *t1, acc, v),
        Ty::Array(t1, c1) => {
            if crate::infer::occ_ty(*t1, Some(v)) {
                lemma_cv_ty_complete(vars, *t1, acc, v);
                lemma_cv_const_mono(vars, *c1, cv_ty(vars, *t1, acc), v);
            } else {
                lemma_cv_const_complete(vars, *c1, cv_ty(vars, *t1, acc), v);
            }
        },
        Ty::Closure(_, s) => lemma_cv_args_complete(vars, s, acc, 0, v),
        _ => {},
    }
}

proof fn lemma_cv_lifetime_complete(
    vars: Seq<VarInfo>,
    l: Lifetime,
    acc: (Seq<u32>, Seq<u32>),
    v: u32,
)
    requires
        crate::infer::occ_lifetime(l, Some(v)),
    ensures
        cv_lifetime(vars, l, acc).0.contains(v),
{
    match l {
        Lifetime::InferenceVar(w) => {
            if acc.0.contains(v) {
                lemma_note_var_mono(vars, w, acc, v);
            } else {
                assert(note_var(vars, w, acc).0.last() == w);
            }
        },
        _ => {},
    }
}

proof fn lemma_cv_const_complete(vars: Seq<VarInfo>, c: Const, acc: (Seq<u32>, Seq<u32>), v: u32)
    requires
        crate::infer::occ_const(c, Some(v)),
    ensures
        cv_const(vars, c, acc).0.contains(v),
    decreases c, 1nat,
{
    let acc1 = cv_ty(vars, *c.ty, acc);
    if crate::infer::occ_ty(*c.ty, Some(v)) {
        lemma_cv_ty_complete(vars, *c.ty, acc, v);
        match c.value {
            ConstValue::InferenceVar(w) => lemma_note_var_mono(vars, w, acc1, v),
            _ => {},
        }
    } else {
        match c.value {
            ConstValue::InferenceVar(w) => {
                if acc1.0.contains(v) {
                    lemma_note_var_mono(vars, w, acc1, v);
                } else {
                    assert(note_var(vars, w, acc1).0.last() == w);
                }
            },
            _ => {},
        }
    }
}

proof fn lemma_cv_arg_complete(vars: Seq<VarInfo>, a: GenericArg, acc: (Seq<u32>, Seq<u32>), v: u32)
    requires
        crate::infer::occ_arg(a, Some(v)),
    ensures
        cv_arg(vars, a, acc).0.contains(v),
    decreases a, 2nat,
{
    match a {
        GenericArg::Ty(t) => lemma_cv_ty_complete(vars, t, acc, v),
        GenericArg::Lifetime(l) => lemma_cv_lifetime_complete(vars, l, acc, v),
        GenericArg::Const(c) => lemma_cv_const_complete(vars, c, acc, v),
    }
}

proof fn lemma_cv_args_complete(
    vars: Seq<VarInfo>,
    s: Substitution,
    acc: (Seq<u32>, Seq<u32>),
    i: nat,
    v: u32,
)
    requires
        occ_args(s, Some(v), i),
    ensures
        cv_args(vars, s, acc, i).0.contains(v),
    decreases s, s@.len() - i,
{
    if i < s@.len() {
        if crate::infer::occ_arg(s[i as int], Some(v)) {
            lemma_cv_arg_complete(vars, s[i as int], acc, v);
            lemma_cv_args_mono(vars, s, cv_arg(vars, s[i as int], acc), i + 1, v);
        } else {
            lemma_cv_args_complete(vars, s, cv_arg(vars, s[i as int], acc), i + 1, v);
        }
    }
}

/// The canonical-form invariant: a substitution canonicalized with the
/// order that `canonicalize_constrained_subst` itself collects contains no
/// free inference variable — so the invalidation checker's fatal
/// free-variable path can never fire on an answer this library
/// canonicalized.
pub proof fn lemma_canonical_subst_has_no_inference_var(
    vars: Seq<VarInfo>,
    order: Vec<u32>,
    subst: Substitution,
    constraints: Vec<InEnvironment<Constraint>>,
    out: Substitution,
)
    requires
        order@ == cv_constrained_subst(vars, subst, constraints).0,
        order@.len() <= u32::MAX,
        rw_args(RwOp::Canonicalize { order }, subst, out, 0),
    ensures
        !occ_args(out, None, 0),
{
    assert forall|v: u32| occ_args(subst, Some(v), 0) implies order@.contains(v) by {
        lemma_cv_args_complete(vars, subst, (Seq::<u32>::empty(), seq![0u32]), 0, v);
        lemma_cv_constraints_mono(
            vars,
            constraints,
            cv_args(vars, subst, (Seq::<u32>::empty(), seq![0u32]), 0),
            0,
            v,
        );
    }
    lemma_canonical_args_var_free(order, subst, out, 0, 0);
}

} // verus!
