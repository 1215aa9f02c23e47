//! Truncation gate: decides whether a goal or an answer substitution has
//! grown past the session's size budget.
//!
//! "Truncation" (also called abstraction) is the act of bounding a term
//! that has grown too large, so that a fixpoint search over mutually
//! recursive, size-growing obligations terminates. This gate does not
//! rewrite anything: it only reports whether the structural depth of a
//! value exceeds the budget, and it is monotone — a value containing a
//! sub-structure that alone exceeds the budget is itself over the budget.
//!
//! The depth is measured after resolving inference variables through the
//! inference table: a variable bound to a term counts as that term, so a
//! derivation cannot hide growth behind a binding. Resolution is
//! fuel-bounded; with fuel at least the table's variable count, every
//! chain of bindings the occurs-checking unifier can build is followed to
//! its end.

use vstd::prelude::*;
use crate::infer::VarInfo;
use crate::term::{Const, ConstValue, DomainGoal, GenericArg, Goal, Substitution, Ty};

verus! {

pub open spec fn depth_max(a: nat, b: nat) -> nat {
    if a >= b {
        a
    } else {
        b
    }
}

pub open spec fn arg_depth(vars: Seq<VarInfo>, a: GenericArg, fuel: nat) -> nat
    decreases fuel, a, 0nat,
{
    match a {
        GenericArg::Ty(t) => ty_depth(vars, t, fuel),
        GenericArg::Lifetime(_) => 1,
        GenericArg::Const(c) => const_depth(vars, c, fuel),
    }
}

/// Structural depth of a type under the table's bindings: leaves count 1,
/// every constructor adds 1 over the deepest of its components, and a
/// bound inference variable counts as its binding (while fuel lasts).
pub open spec fn ty_depth(vars: Seq<VarInfo>, t: Ty, fuel: nat) -> nat
    decreases fuel, t, 1nat,
{
    match t {
        Ty::BoundVar(_) => 1,
        Ty::InferenceVar(v) => if fuel > 0 && (v as int) < vars.len() {
            match vars[v as int].binding {
                Some(GenericArg::Ty(b)) => ty_depth(vars, b, (fuel - 1) as nat),
                _ => 1,
            }
        } else {
            1
        },
        Ty::Placeholder(_) => 1,
        Ty::Projection(p) => 1 + args_depth(vars, p.substitution, fuel, 0),
        Ty::Opaque(o) => 1 + args_depth(vars, o.substitution, fuel, 0),
        Ty::Adt(_, s) => 1 + args_depth(vars, s, fuel, 0),
        Ty::AssociatedType(_, s) => 1 + args_depth(vars, s, fuel, 0),
        Ty::Scalar(_) => 1,
        Ty::Str => 1,
        Ty::Tuple(_, s) => 1 + args_depth(vars, s, fuel, 0),
        Ty::Slice(t1) => 1 + ty_depth(vars, *t1, fuel),
        Ty::FnDef(_, s) => 1 + args_depth(vars, s, fuel, 0),
        Ty::Ref(_, _, t1) => 1 + ty_depth(vars, *t1, fuel),
        Ty::Raw(_, t1) => 1 + ty_depth(vars, *t1, fuel),
        Ty::Never => 1,
        Ty::Array(t1, c1) => 1 + depth_max(ty_depth(vars, *t1, fuel), const_depth(vars, *c1, fuel)),
        Ty::Closure(_, s) => 1 + args_depth(vars, s, fuel, 0),
        Ty::Foreign(_) => 1,
        Ty::Error => 1,
    }
}

/// Depth of a const: its type joined with its (resolved) value.
pub open spec fn const_depth(vars: Seq<VarInfo>, c: Const, fuel: nat) -> nat
    decreases fuel, c, 1nat,
{
    depth_max(
        ty_depth(vars, *c.ty, fuel),
        match c.value {
            ConstValue::InferenceVar(v) => if fuel > 0 && (v as int) < vars.len() {
                match vars[v as int].binding {
                    Some(GenericArg::Const(c2)) => const_depth(vars, c2, (fuel - 1) as nat),
                    _ => 1,
                }
            } else {
                1
            },
            _ => 1,
        },
    )
}

/// Depth of the deepest argument from position `i` on (0 when none).
pub open spec fn args_depth(vars: Seq<VarInfo>, s: Substitution, fuel: nat, i: nat) -> nat
    decreases fuel, s, s@.len() - i,
{
    if i >= s@.len() {
        0
    } else {
        depth_max(arg_depth(vars, s[i as int], fuel), args_depth(vars, s, fuel, i + 1))
    }
}

pub open spec fn domain_goal_depth(vars: Seq<VarInfo>, d: DomainGoal, fuel: nat) -> nat
    decreases fuel, d, 2nat,
{
    match d {
        DomainGoal::Holds(_, s) => 1 + args_depth(vars, s, fuel, 0),
        DomainGoal::AliasEq(p, t) => 1 + depth_max(
            1 + args_depth(vars, p.substitution, fuel, 0),
            ty_depth(vars, t, fuel),
        ),
    }
}

pub open spec fn goal_depth(vars: Seq<VarInfo>, g: Goal, fuel: nat) -> nat
    decreases fuel, g, 3nat,
{
    match g {
        Goal::Domain(d) => domain_goal_depth(vars, d, fuel),
        Goal::And(l, r) => 1 + depth_max(goal_depth(vars, *l, fuel), goal_depth(vars, *r, fuel)),
        Goal::Not(g1) => 1 + goal_depth(vars, *g1, fuel),
        Goal::Quantified(_, _, g1) => 1 + goal_depth(vars, *g1, fuel),
    }
}

/// Every type has depth at least one, however far bindings resolve.
pub proof fn lemma_ty_depth_pos(vars: Seq<VarInfo>, t: Ty, fuel: nat)
    ensures
        ty_depth(vars, t, fuel) >= 1,
    decreases fuel, t, 1nat,
{
    match t {
        Ty::InferenceVar(v) => {
            if fuel > 0 && (v as int) < vars.len() {
                match vars[v as int].binding {
                    Some(GenericArg::Ty(b)) => lemma_ty_depth_pos(vars, b, (fuel - 1) as nat),
                    _ => {},
                }
            }
        },
        _ => {},
    }
}

/// Decides whether the type, resolved through the table, is deeper than
/// `budget`.
pub fn ty_depth_exceeds(vars: &Vec<VarInfo>, t: &Ty, budget: usize, fuel: usize) -> (r: bool)
    ensures
        r == (ty_depth(vars@, *t, fuel as nat) > budget),
    decreases fuel, *t, 1nat,
{
    if budget == 0 {
        proof {
            lemma_ty_depth_pos(vars@, *t, fuel as nat);
        }
        return true;
    }
    match t {
        Ty::InferenceVar(v) => {
            if fuel > 0 && (*v as usize) < vars.len() {
                match &vars[*v as usize].binding {
                    Some(GenericArg::Ty(b)) => ty_depth_exceeds(vars, b, budget, fuel - 1),
                    _ => false,
                }
            } else {
                false
            }
        },
        Ty::Projection(p) => args_depth_exceeds(vars, &p.substitution, budget - 1, fuel),
        Ty::Opaque(o) => args_depth_exceeds(vars, &o.substitution, budget - 1, fuel),
        Ty::Adt(_, s) => args_depth_exceeds(vars, s, budget - 1, fuel),
        Ty::AssociatedType(_, s) => args_depth_exceeds(vars, s, budget - 1, fuel),
        Ty::Tuple(_, s) => args_depth_exceeds(vars, s, budget - 1, fuel),
        Ty::Slice(t1) => ty_depth_exceeds(vars, t1, budget - 1, fuel),
        Ty::FnDef(_, s) => args_depth_exceeds(vars, s, budget - 1, fuel),
        Ty::Ref(_, _, t1) => ty_depth_exceeds(vars, t1, budget - 1, fuel),
        Ty::Raw(_, t1) => ty_depth_exceeds(vars, t1, budget - 1, fuel),
        Ty::Array(t1, c1) => ty_depth_exceeds(vars, t1, budget - 1, fuel) || const_depth_exceeds(
            vars,
            c1,
            budget - 1,
            fuel,
        ),
        Ty::Closure(_, s) => args_depth_exceeds(vars, s, budget - 1, fuel),
        _ => false,
    }
}

pub fn const_depth_exceeds(vars: &Vec<VarInfo>, c: &Const, budget: usize, fuel: usize) -> (r: bool)
    ensures
        r == (const_depth(vars@, *c, fuel as nat) > budget),
    decreases fuel, *c, 1nat,
{
    if budget == 0 {
        proof {
            lemma_ty_depth_pos(vars@, *c.ty, fuel as nat);
        }
        return true;
    }
    if ty_depth_exceeds(vars, &c.ty, budget, fuel) {
        return true;
    }
    match &c.value {
        ConstValue::InferenceVar(v) => {
            if fuel > 0 && (*v as usize) < vars.len() {
                match &vars[*v as usize].binding {
                    Some(GenericArg::Const(c2)) => const_depth_exceeds(vars, c2, budget, fuel - 1),
                    _ => false,
                }
            } else {
                false
            }
        },
        _ => false,
    }
}

pub fn arg_depth_exceeds(vars: &Vec<VarInfo>, a: &GenericArg, budget: usize, fuel: usize) -> (r:
    bool)
    ensures
        r == (arg_depth(vars@, *a, fuel as nat) > budget),
    decreases fuel, *a, 0nat,
{
    match a {
        GenericArg::Ty(t) => ty_depth_exceeds(vars, t, budget, fuel),
        GenericArg::Lifetime(_) => budget == 0,
        GenericArg::Const(c) => const_depth_exceeds(vars, c, budget, fuel),
    }
}

/// Decides whether any argument, resolved through the table, is deeper
/// than `budget`.
pub fn args_depth_exceeds(vars: &Vec<VarInfo>, s: &Substitution, budget: usize, fuel: usize) -> (r:
    bool)
    ensures
        r == (args_depth(vars@, *s, fuel as nat, 0) > budget),
    decreases fuel, *s, s@.len() + 1nat,
{
    let n = s.len();
    let mut i: usize = 0;
    loop
        invariant
            i <= n,
            n == s@.len(),
            (args_depth(vars@, *s, fuel as nat, 0) > budget) == (args_depth(
                vars@,
                *s,
                fuel as nat,
                i as nat,
            ) > budget),
        decreases n - i,
    {
        if i >= n {
            return false;
        }
        if arg_depth_exceeds(vars, &s[i], budget, fuel) {
            return true;
        }
        i = i + 1;
    }
}

pub fn domain_goal_depth_exceeds(
    vars: &Vec<VarInfo>,
    d: &DomainGoal,
    budget: usize,
    fuel: usize,
) -> (r: bool)
    ensures
        r == (domain_goal_depth(vars@, *d, fuel as nat) > budget),
{
    if budget == 0 {
        return true;
    }
    match d {
        DomainGoal::Holds(_, s) => args_depth_exceeds(vars, s, budget - 1, fuel),
        DomainGoal::AliasEq(p, t) => {
            let proj_deep = if budget - 1 == 0 {
                true
            } else {
                args_depth_exceeds(vars, &p.substitution, budget - 2, fuel)
            };
            proj_deep || ty_depth_exceeds(vars, t, budget - 1, fuel)
        },
    }
}

/// Decides whether the goal, resolved through the table, is deeper than
/// `budget`.
pub fn goal_depth_exceeds(vars: &Vec<VarInfo>, g: &Goal, budget: usize, fuel: usize) -> (r: bool)
    ensures
        r == (goal_depth(vars@, *g, fuel as nat) > budget),
    decreases *g,
{
    match g {
        Goal::Domain(d) => domain_goal_depth_exceeds(vars, d, budget, fuel),
        Goal::And(l, r) => {
            if budget == 0 {
                true
            } else {
                goal_depth_exceeds(vars, l, budget - 1, fuel) || goal_depth_exceeds(
                    vars,
                    r,
                    budget - 1,
                    fuel,
                )
            }
        },
        Goal::Not(g1) => {
            if budget == 0 {
                true
            } else {
                goal_depth_exceeds(vars, g1, budget - 1, fuel)
            }
        },
        Goal::Quantified(_, _, g1) => {
            if budget == 0 {
                true
            } else {
                goal_depth_exceeds(vars, g1, budget - 1, fuel)
            }
        },
    }
}

/// Whether `x` occurs in `t` (as `t` itself or inside it).
pub open spec fn ty_in_ty(x: Ty, t: Ty) -> bool
    decreases t, 1nat,
{
    x == t || match t {
        Ty::Projection(p) => ty_in_args(x, p.substitution, 0),
        Ty::Opaque(o) => ty_in_args(x, o.substitution, 0),
        Ty::Adt(_, s) => ty_in_args(x, s, 0),
        Ty::AssociatedType(_, s) => ty_in_args(x, s, 0),
        Ty::Tuple(_, s) => ty_in_args(x, s, 0),
        Ty::Slice(t1) => ty_in_ty(x, *t1),
        Ty::FnDef(_, s) => ty_in_args(x, s, 0),
        Ty::Ref(_, _, t1) => ty_in_ty(x, *t1),
        Ty::Raw(_, t1) => ty_in_ty(x, *t1),
        Ty::Array(t1, c1) => ty_in_ty(x, *t1) || ty_in_ty(x, *c1.ty),
        Ty::Closure(_, s) => ty_in_args(x, s, 0),
        _ => false,
    }
}

pub open spec fn ty_in_args(x: Ty, s: Substitution, i: nat) -> bool
    decreases s, s@.len() - i,
{
    if i >= s@.len() {
        false
    } else {
        (match s[i as int] {
            GenericArg::Ty(t) => ty_in_ty(x, t),
            GenericArg::Lifetime(_) => false,
            GenericArg::Const(c) => ty_in_ty(x, *c.ty),
        }) || ty_in_args(x, s, i + 1)
    }
}

pub open spec fn ty_in_goal(x: Ty, g: Goal) -> bool
    decreases g,
{
    match g {
        Goal::Domain(d) => match d {
            DomainGoal::Holds(_, s) => ty_in_args(x, s, 0),
            DomainGoal::AliasEq(p, t) => ty_in_args(x, p.substitution, 0) || ty_in_ty(x, t),
        },
        Goal::And(l, r) => ty_in_goal(x, *l) || ty_in_goal(x, *r),
        Goal::Not(g1) => ty_in_goal(x, *g1),
        Goal::Quantified(_, _, g1) => ty_in_goal(x, *g1),
    }
}

/// A type is at least as deep as any type occurring in it, under the same
/// table and fuel.
pub proof fn lemma_depth_of_subterm_ty(vars: Seq<VarInfo>, fuel: nat, x: Ty, t: Ty)
    requires
        ty_in_ty(x, t),
    ensures
        ty_depth(vars, x, fuel) <= ty_depth(vars, t, fuel),
    decreases t, 1nat,
{
    if x == t {
    } else {
        assert(ty_in_ty(x, t) == (x == t || (match t {
            Ty::Projection(p) => ty_in_args(x, p.substitution, 0),
            Ty::Opaque(o) => ty_in_args(x, o.substitution, 0),
            Ty::Adt(_, s) => ty_in_args(x, s, 0),
            Ty::AssociatedType(_, s) => ty_in_args(x, s, 0),
            Ty::Tuple(_, s) => ty_in_args(x, s, 0),
            Ty::Slice(t1) => ty_in_ty(x, *t1),
            Ty::FnDef(_, s) => ty_in_args(x, s, 0),
            Ty::Ref(_, _, t1) => ty_in_ty(x, *t1),
            Ty::Raw(_, t1) => ty_in_ty(x, *t1),
            Ty::Array(t1, c1) => ty_in_ty(x, *t1) || ty_in_ty(x, *c1.ty),
            Ty::Closure(_, s) => ty_in_args(x, s, 0),
            _ => false,
        })));
        match t {
            Ty::Projection(p) => lemma_depth_of_subterm_args(vars, fuel, x, p.substitution, 0),
            Ty::Opaque(o) => lemma_depth_of_subterm_args(vars, fuel, x, o.substitution, 0),
            Ty::Adt(_, s) => lemma_depth_of_subterm_args(vars, fuel, x, s, 0),
            Ty::AssociatedType(_, s) => lemma_depth_of_subterm_args(vars, fuel, x, s, 0),
            Ty::Tuple(_, s) => lemma_depth_of_subterm_args(vars, fuel, x, s, 0),
            Ty::Slice(t1) => lemma_depth_of_subterm_ty(vars, fuel, x, *t1),
            Ty::FnDef(_, s) => lemma_depth_of_subterm_args(vars, fuel, x, s, 0),
            Ty::Ref(_, _, t1) => lemma_depth_of_subterm_ty(vars, fuel, x, *t1),
            Ty::Raw(_, t1) => lemma_depth_of_subterm_ty(vars, fuel, x, *t1),
            Ty::Array(t1, c1) => {
                if ty_in_ty(x, *t1) {
                    lemma_depth_of_subterm_ty(vars, fuel, x, *t1);
                } else {
                    lemma_depth_of_subterm_ty(vars, fuel, x, *c1.ty);
                }
                assert(const_depth(vars, *c1, fuel) >= ty_depth(vars, *c1.ty, fuel));
            },
            Ty::Closure(_, s) => lemma_depth_of_subterm_args(vars, fuel, x, s, 0),
            _ => {},
        }
    }
}

pub proof fn lemma_depth_of_subterm_args(
    vars: Seq<VarInfo>,
    fuel: nat,
    x: Ty,
    s: Substitution,
    i: nat,
)
    requires
        ty_in_args(x, s, i),
    ensures
        ty_depth(vars, x, fuel) <= args_depth(vars, s, fuel, i),
    decreases s, s@.len() - i,
{
    if i < s@.len() {
        assert(ty_in_args(x, s, i) ==> ((match s[i as int] {
            GenericArg::Ty(t) => ty_in_ty(x, t),
            GenericArg::Lifetime(_) => false,
            GenericArg::Const(c) => ty_in_ty(x, *c.ty),
        }) || ty_in_args(x, s, i + 1)));
        assert(args_depth(vars, s, fuel, i) == depth_max(
            arg_depth(vars, s[i as int], fuel),
            args_depth(vars, s, fuel, i + 1),
        ));
        let here = match s[i as int] {
            GenericArg::Ty(t) => ty_in_ty(x, t),
            GenericArg::Lifetime(_) => false,
            GenericArg::Const(c) => ty_in_ty(x, *c.ty),
        };
        if here {
            match s[i as int] {
                GenericArg::Ty(t) => lemma_depth_of_subterm_ty(vars, fuel, x, t),
                GenericArg::Lifetime(_) => {},
                GenericArg::Const(c) => {
                    lemma_depth_of_subterm_ty(vars, fuel, x, *c.ty);
                    assert(const_depth(vars, c, fuel) >= ty_depth(vars, *c.ty, fuel));
                },
            }
        } else {
            lemma_depth_of_subterm_args(vars, fuel, x, s, i + 1);
        }
    }
}

pub proof fn lemma_depth_of_subterm_goal(vars: Seq<VarInfo>, fuel: nat, x: Ty, g: Goal)
    requires
        ty_in_goal(x, g),
    ensures
        ty_depth(vars, x, fuel) <= goal_depth(vars, g, fuel),
    decreases g,
{
    match g {
        Goal::Domain(d) => match d {
            DomainGoal::Holds(_, s) => lemma_depth_of_subterm_args(vars, fuel, x, s, 0),
            DomainGoal::AliasEq(p, t) => {
                if ty_in_args(x, p.substitution, 0) {
                    lemma_depth_of_subterm_args(vars, fuel, x, p.substitution, 0);
                } else {
                    lemma_depth_of_subterm_ty(vars, fuel, x, t);
                }
            },
        },
        Goal::And(l, r) => {
            if ty_in_goal(x, *l) {
                lemma_depth_of_subterm_goal(vars, fuel, x, *l);
            } else {
                lemma_depth_of_subterm_goal(vars, fuel, x, *r);
            }
        },
        Goal::Not(g1) => lemma_depth_of_subterm_goal(vars, fuel, x, *g1),
        Goal::Quantified(_, _, g1) => lemma_depth_of_subterm_goal(vars, fuel, x, *g1),
    }
}

/// The truncation check is monotone: a goal containing any type whose
/// resolved depth alone is over the budget is itself over the budget.
pub proof fn lemma_truncation_monotone(vars: Seq<VarInfo>, fuel: nat, x: Ty, g: Goal, max_size: nat)
    requires
        ty_in_goal(x, g),
        ty_depth(vars, x, fuel) > max_size,
    ensures
        goal_depth(vars, g, fuel) > max_size,
{
    lemma_depth_of_subterm_goal(vars, fuel, x, g);
}

/// The same, for an answer substitution: a substitution with any argument
/// over the budget is itself over the budget.
pub proof fn lemma_truncation_monotone_subst(
    vars: Seq<VarInfo>,
    fuel: nat,
    x: Ty,
    s: Substitution,
    max_size: nat,
)
    requires
        ty_in_args(x, s, 0),
        ty_depth(vars, x, fuel) > max_size,
    ensures
        args_depth(vars, s, fuel, 0) > max_size,
{
    lemma_depth_of_subterm_args(vars, fuel, x, s, 0);
}

} // verus!
