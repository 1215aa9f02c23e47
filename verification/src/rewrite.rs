//! Variable rewriting: the one structural transform the solving operations
//! are built from.
//!
//! A rewrite walks a term and replaces leaves, keeping everything else:
//! universal instantiation turns the top binder's bound variables into
//! rigid placeholders of a fresh universe, existential instantiation turns
//! them into fresh inference variables, canonicalization turns free
//! inference variables into bound-variable slots in first-occurrence
//! order, and universe compression renumbers placeholder universes. The
//! `rw_*` spec relations say exactly which output each input maps to; the
//! executable functions produce that output.

use vstd::prelude::*;
use crate::term::{
    BoundVar, Const, ConstValue, DomainGoal, GenericArg, Goal, Lifetime, OpaqueTy,
    PlaceholderIndex, ProjectionTy, Substitution, Ty,
};

verus! {

/// Which rewrite to perform.
pub enum RwOp {
    /// Replace the top binder's variables (de Bruijn depth equal to the
    /// current depth) with rigid placeholders in the given universe.
    InstUniversal { universe: u32 },
    /// Replace the top binder's variables with inference variables
    /// numbered from `base` upward, slot `i` becoming `base + i`.
    InstExistential { base: u32 },
    /// Replace each free inference variable listed in `order` with a
    /// bound-variable slot at the current depth, at its position in
    /// `order`.
    Canonicalize { order: Vec<u32> },
    /// Renumber each placeholder universe listed in `umap` to its position
    /// in `umap`.
    CompressUniverses { umap: Vec<u32> },
    /// Replace the top binder's variable of each slot with the argument at
    /// its position; the arguments must be closed (free of bound
    /// variables), and a slot whose argument has the wrong kind or is
    /// missing becomes the error type (a broken template).
    SubstArgs { args: Vec<GenericArg> },
}

/// First position of `v` in `s` (meaningful only when `s` contains `v`).
pub open spec fn first_index(s: Seq<u32>, v: u32) -> int
    decreases s.len(),
{
    if s.len() == 0 {
        0
    } else if s[0] == v {
        0
    } else {
        1 + first_index(s.subrange(1, s.len() as int), v)
    }
}

/// What a bound type variable rewrites to at depth `d`.
pub open spec fn rw_bound_ty(op: RwOp, v: BoundVar, d: u32) -> Ty {
    match op {
        RwOp::InstUniversal { universe } => if v.debruijn == d {
            Ty::Placeholder(PlaceholderIndex { ui: universe, idx: v.index })
        } else {
            Ty::BoundVar(v)
        },
        RwOp::InstExistential { base } => if v.debruijn == d && base + v.index <= u32::MAX {
            Ty::InferenceVar((base + v.index) as u32)
        } else {
            Ty::BoundVar(v)
        },
        _ => Ty::BoundVar(v),
    }
}

/// What a free type inference variable rewrites to at depth `d`.
pub open spec fn rw_infer_ty(op: RwOp, v: u32, d: u32) -> Ty {
    match op {
        RwOp::Canonicalize { order } => if order@.contains(v) && first_index(order@, v)
            <= u32::MAX {
            Ty::BoundVar(BoundVar { debruijn: d, index: first_index(order@, v) as u32 })
        } else {
            Ty::InferenceVar(v)
        },
        _ => Ty::InferenceVar(v),
    }
}

/// What a placeholder index rewrites to.
pub open spec fn rw_placeholder(op: RwOp, p: PlaceholderIndex) -> PlaceholderIndex {
    match op {
        RwOp::CompressUniverses { umap } => if umap@.contains(p.ui) && first_index(umap@, p.ui)
            <= u32::MAX {
            PlaceholderIndex { ui: first_index(umap@, p.ui) as u32, idx: p.idx }
        } else {
            p
        },
        _ => p,
    }
}

/// What a lifetime rewrites to at depth `d`.
pub open spec fn rw_lifetime(op: RwOp, l: Lifetime, d: u32) -> Lifetime {
    match l {
        Lifetime::BoundVar(v) => match op {
            RwOp::InstUniversal { universe } => if v.debruijn == d {
                Lifetime::Placeholder(PlaceholderIndex { ui: universe, idx: v.index })
            } else {
                l
            },
            RwOp::InstExistential { base } => if v.debruijn == d && base + v.index <= u32::MAX {
                Lifetime::InferenceVar((base + v.index) as u32)
            } else {
                l
            },
            RwOp::SubstArgs { args } => if v.debruijn == d {
                if v.index < args@.len() {
                    match args@[v.index as int] {
                        GenericArg::Lifetime(l2) => l2,
                        _ => Lifetime::Static,
                    }
                } else {
                    Lifetime::Static
                }
            } else {
                l
            },
            _ => l,
        },
        Lifetime::InferenceVar(v) => match op {
            RwOp::Canonicalize { order } => if order@.contains(v) && first_index(order@, v)
                <= u32::MAX {
                Lifetime::BoundVar(BoundVar { debruijn: d, index: first_index(order@, v) as u32 })
            } else {
                l
            },
            _ => l,
        },
        Lifetime::Placeholder(p) => Lifetime::Placeholder(rw_placeholder(op, p)),
        Lifetime::Static => l,
    }
}

/// What a const value rewrites to at depth `d`.
pub open spec fn rw_const_value(op: RwOp, cv: ConstValue, d: u32) -> ConstValue {
    match cv {
        ConstValue::BoundVar(v) => match op {
            RwOp::InstUniversal { universe } => if v.debruijn == d {
                ConstValue::Placeholder(PlaceholderIndex { ui: universe, idx: v.index })
            } else {
                cv
            },
            RwOp::InstExistential { base } => if v.debruijn == d && base + v.index <= u32::MAX {
                ConstValue::InferenceVar((base + v.index) as u32)
            } else {
                cv
            },
            RwOp::SubstArgs { args } => if v.debruijn == d {
                if v.index < args@.len() {
                    match args@[v.index as int] {
                        GenericArg::Const(c2) => c2.value,
                        _ => ConstValue::Concrete(0),
                    }
                } else {
                    ConstValue::Concrete(0)
                }
            } else {
                cv
            },
            _ => cv,
        },
        ConstValue::InferenceVar(v) => match op {
            RwOp::Canonicalize { order } => if order@.contains(v) && first_index(order@, v)
                <= u32::MAX {
                ConstValue::BoundVar(BoundVar { debruijn: d, index: first_index(order@, v) as u32 })
            } else {
                cv
            },
            _ => cv,
        },
        ConstValue::Placeholder(p) => ConstValue::Placeholder(rw_placeholder(op, p)),
        ConstValue::Concrete(_) => cv,
    }
}

/// `b` is `a` with the rewrite applied, at depth `d`.
pub open spec fn rw_ty(op: RwOp, a: Ty, b: Ty, d: u32) -> bool
    decreases a, 1nat,
{
    match a {
        Ty::BoundVar(v) => match op {
            RwOp::SubstArgs { args } => if v.debruijn == d {
                if v.index < args@.len() {
                    match args@[v.index as int] {
                        GenericArg::Ty(t) => crate::key::same_ty(b, t),
                        _ => b == Ty::Error,
                    }
                } else {
                    b == Ty::Error
                }
            } else {
                b == Ty::BoundVar(v)
            },
            _ => b == rw_bound_ty(op, v, d),
        },
        Ty::InferenceVar(v) => b == rw_infer_ty(op, v, d),
        Ty::Placeholder(p) => b == Ty::Placeholder(rw_placeholder(op, p)),
        Ty::Projection(p) => match b {
            Ty::Projection(p2) => p2.associated_ty_id == p.associated_ty_id && rw_args(
                op,
                p.substitution,
                p2.substitution,
                d,
            ),
            _ => false,
        },
        Ty::Opaque(o) => match b {
            Ty::Opaque(o2) => o2.opaque_ty_id == o.opaque_ty_id && rw_args(
                op,
                o.substitution,
                o2.substitution,
                d,
            ),
            _ => false,
        },
        Ty::Adt(id, s) => match b {
            Ty::Adt(id2, s2) => id2 == id && rw_args(op, s, s2, d),
            _ => false,
        },
        Ty::AssociatedType(id, s) => match b {
            Ty::AssociatedType(id2, s2) => id2 == id && rw_args(op, s, s2, d),
            _ => false,
        },
        Ty::Scalar(_) => b == a,
        Ty::Str => b == a,
        Ty::Tuple(n, s) => match b {
            Ty::Tuple(n2, s2) => n2 == n && rw_args(op, s, s2, d),
            _ => false,
        },
        Ty::Slice(t1) => match b {
            Ty::Slice(t2) => rw_ty(op, *t1, *t2, d),
            _ => false,
        },
        Ty::FnDef(id, s) => match b {
            Ty::FnDef(id2, s2) => id2 == id && rw_args(op, s, s2, d),
            _ => false,
        },
        Ty::Ref(m, l, t1) => match b {
            Ty::Ref(m2, l2, t2) => m2 == m && l2 == rw_lifetime(op, l, d) && rw_ty(
                op,
                *t1,
                *t2,
                d,
            ),
            _ => false,
        },
        Ty::Raw(m, t1) => match b {
            Ty::Raw(m2, t2) => m2 == m && rw_ty(op, *t1, *t2, d),
            _ => false,
        },
        Ty::Never => b == a,
        Ty::Array(t1, c1) => match b {
            Ty::Array(t2, c2) => rw_ty(op, *t1, *t2, d) && rw_const(op, *c1, *c2, d),
            _ => false,
        },
        Ty::Closure(id, s) => match b {
            Ty::Closure(id2, s2) => id2 == id && rw_args(op, s, s2, d),
            _ => false,
        },
        Ty::Foreign(_) => b == a,
        Ty::Error => b == a,
    }
}

pub open spec fn rw_const(op: RwOp, a: Const, b: Const, d: u32) -> bool
    decreases a, 1nat,
{
    rw_ty(op, *a.ty, *b.ty, d) && b.value == rw_const_value(op, a.value, d)
}

pub open spec fn rw_arg(op: RwOp, a: GenericArg, b: GenericArg, d: u32) -> bool
    decreases a, 0nat,
{
    match a {
        GenericArg::Ty(t1) => match b {
            GenericArg::Ty(t2) => rw_ty(op, t1, t2, d),
            _ => false,
        },
        GenericArg::Lifetime(l1) => b == GenericArg::Lifetime(rw_lifetime(op, l1, d)),
        GenericArg::Const(c1) => match b {
            GenericArg::Const(c2) => rw_const(op, c1, c2, d),
            _ => false,
        },
    }
}

pub open spec fn rw_args_from(op: RwOp, a: Substitution, b: Substitution, d: u32, i: nat) -> bool
    decreases a, a@.len() - i,
{
    if i >= a@.len() || i >= b@.len() {
        true
    } else {
        rw_arg(op, a[i as int], b[i as int], d) && rw_args_from(op, a, b, d, i + 1)
    }
}

pub open spec fn rw_args(op: RwOp, a: Substitution, b: Substitution, d: u32) -> bool
    decreases a, a@.len() + 1nat,
{
    a@.len() == b@.len() && rw_args_from(op, a, b, d, 0)
}

pub open spec fn rw_domain_goal(op: RwOp, a: DomainGoal, b: DomainGoal, d: u32) -> bool {
    match a {
        DomainGoal::Holds(id, s) => match b {
            DomainGoal::Holds(id2, s2) => id2 == id && rw_args(op, s, s2, d),
            _ => false,
        },
        DomainGoal::AliasEq(p, t) => match b {
            DomainGoal::AliasEq(p2, t2) => p2.associated_ty_id == p.associated_ty_id && rw_args(
                op,
                p.substitution,
                p2.substitution,
                d,
            ) && rw_ty(op, t, t2, d),
            _ => false,
        },
    }
}

/// Depth under an inner binder: one more, saturating at the top.
pub open spec fn deeper(d: u32) -> u32 {
    if d == u32::MAX {
        d
    } else {
        (d + 1) as u32
    }
}

pub open spec fn rw_goal(op: RwOp, a: Goal, b: Goal, d: u32) -> bool
    decreases a,
{
    match a {
        Goal::Domain(dg) => match b {
            Goal::Domain(dg2) => rw_domain_goal(op, dg, dg2, d),
            _ => false,
        },
        Goal::And(l, r) => match b {
            Goal::And(l2, r2) => rw_goal(op, *l, *l2, d) && rw_goal(op, *r, *r2, d),
            _ => false,
        },
        Goal::Not(g1) => match b {
            Goal::Not(g2) => rw_goal(op, *g1, *g2, d),
            _ => false,
        },
        Goal::Quantified(q, k, g1) => match b {
            Goal::Quantified(q2, k2, g2) => q2 == q && k2@ == k@ && rw_goal(
                op,
                *g1,
                *g2,
                deeper(d),
            ),
            _ => false,
        },
    }
}

fn first_index_exec(s: &Vec<u32>, v: u32) -> (r: Option<usize>)
    ensures
        match r {
            Some(i) => s@.contains(v) && i == first_index(s@, v),
            None => !s@.contains(v),
        },
{
    let n = s.len();
    let mut i: usize = 0;
    proof {
        assert(s@.subrange(0, n as int) =~= s@);
    }
    loop
        invariant
            i <= n,
            n == s@.len(),
            forall|j: int| 0 <= j < i ==> s@[j] != v,
            first_index(s@, v) == i + first_index(s@.subrange(i as int, n as int), v),
        decreases n - i,
    {
        if i >= n {
            proof {
                assert(forall|j: int| 0 <= j < s@.len() ==> s@[j] != v);
            }
            return None;
        }
        if s[i] == v {
            proof {
                let tail = s@.subrange(i as int, n as int);
                assert(tail[0] == s@[i as int]);
                assert(first_index(tail, v) == 0);
                assert(s@[i as int] == v);
            }
            return Some(i);
        }
        proof {
            let tail = s@.subrange(i as int, n as int);
            let tail2 = s@.subrange(i + 1, n as int);
            assert(tail[0] == s@[i as int]);
            assert(tail.subrange(1, tail.len() as int) =~= tail2);
        }
        i = i + 1;
    }
}

pub fn rw_lifetime_exec(op: &RwOp, l: &Lifetime, d: u32) -> (r: Lifetime)
    ensures
        r == rw_lifetime(*op, *l, d),
{
    match l {
        Lifetime::BoundVar(v) => match op {
            RwOp::InstUniversal { universe } => if v.debruijn == d {
                Lifetime::Placeholder(PlaceholderIndex { ui: *universe, idx: v.index })
            } else {
                *l
            },
            RwOp::InstExistential { base } => if v.debruijn == d && v.index <= u32::MAX - *base {
                Lifetime::InferenceVar(*base + v.index)
            } else {
                *l
            },
            RwOp::SubstArgs { args } => if v.debruijn == d {
                if (v.index as usize) < args.len() {
                    match &args[v.index as usize] {
                        GenericArg::Lifetime(l2) => *l2,
                        _ => Lifetime::Static,
                    }
                } else {
                    Lifetime::Static
                }
            } else {
                *l
            },
            _ => *l,
        },
        Lifetime::InferenceVar(v) => match op {
            RwOp::Canonicalize { order } => match first_index_exec(order, *v) {
                Some(i) => if i <= u32::MAX as usize {
                    Lifetime::BoundVar(BoundVar { debruijn: d, index: i as u32 })
                } else {
                    *l
                },
                None => *l,
            },
            _ => *l,
        },
        Lifetime::Placeholder(p) => Lifetime::Placeholder(rw_placeholder_exec(op, p)),
        Lifetime::Static => *l,
    }
}

fn rw_placeholder_exec(op: &RwOp, p: &PlaceholderIndex) -> (r: PlaceholderIndex)
    ensures
        r == rw_placeholder(*op, *p),
{
    match op {
        RwOp::CompressUniverses { umap } => match first_index_exec(umap, p.ui) {
            Some(i) => if i <= u32::MAX as usize {
                PlaceholderIndex { ui: i as u32, idx: p.idx }
            } else {
                *p
            },
            None => *p,
        },
        _ => *p,
    }
}

fn rw_const_value_exec(op: &RwOp, cv: &ConstValue, d: u32) -> (r: ConstValue)
    ensures
        r == rw_const_value(*op, *cv, d),
{
    match cv {
        ConstValue::BoundVar(v) => match op {
            RwOp::InstUniversal { universe } => if v.debruijn == d {
                ConstValue::Placeholder(PlaceholderIndex { ui: *universe, idx: v.index })
            } else {
                *cv
            },
            RwOp::InstExistential { base } => if v.debruijn == d && v.index <= u32::MAX - *base {
                ConstValue::InferenceVar(*base + v.index)
            } else {
                *cv
            },
            RwOp::SubstArgs { args } => if v.debruijn == d {
                if (v.index as usize) < args.len() {
                    match &args[v.index as usize] {
                        GenericArg::Const(c2) => c2.value,
                        _ => ConstValue::Concrete(0),
                    }
                } else {
                    ConstValue::Concrete(0)
                }
            } else {
                *cv
            },
            _ => *cv,
        },
        ConstValue::InferenceVar(v) => match op {
            RwOp::Canonicalize { order } => match first_index_exec(order, *v) {
                Some(i) => if i <= u32::MAX as usize {
                    ConstValue::BoundVar(BoundVar { debruijn: d, index: i as u32 })
                } else {
                    *cv
                },
                None => *cv,
            },
            _ => *cv,
        },
        ConstValue::Placeholder(p) => ConstValue::Placeholder(rw_placeholder_exec(op, p)),
        ConstValue::Concrete(_) => *cv,
    }
}

/// Applies the rewrite to a type.
pub fn rw_ty_exec(op: &RwOp, t: &Ty, d: u32) -> (r: Ty)
    ensures
        rw_ty(*op, *t, r, d),
    decreases *t, 1nat,
{
    match t {
        Ty::BoundVar(v) => match op {
            RwOp::InstUniversal { universe } => if v.debruijn == d {
                Ty::Placeholder(PlaceholderIndex { ui: *universe, idx: v.index })
            } else {
                Ty::BoundVar(*v)
            },
            RwOp::InstExistential { base } => if v.debruijn == d && v.index <= u32::MAX - *base {
                Ty::InferenceVar(*base + v.index)
            } else {
                Ty::BoundVar(*v)
            },
            RwOp::SubstArgs { args } => if v.debruijn == d {
                if (v.index as usize) < args.len() {
                    match &args[v.index as usize] {
                        GenericArg::Ty(t2) => crate::key::copy_ty(t2),
                        _ => Ty::Error,
                    }
                } else {
                    Ty::Error
                }
            } else {
                Ty::BoundVar(*v)
            },
            _ => Ty::BoundVar(*v),
        },
        Ty::InferenceVar(v) => match op {
            RwOp::Canonicalize { order } => match first_index_exec(order, *v) {
                Some(i) => if i <= u32::MAX as usize {
                    Ty::BoundVar(BoundVar { debruijn: d, index: i as u32 })
                } else {
                    Ty::InferenceVar(*v)
                },
                None => Ty::InferenceVar(*v),
            },
            _ => Ty::InferenceVar(*v),
        },
        Ty::Placeholder(p) => Ty::Placeholder(rw_placeholder_exec(op, p)),
        Ty::Projection(p) => Ty::Projection(
            ProjectionTy {
                associated_ty_id: p.associated_ty_id,
                substitution: rw_args_exec(op, &p.substitution, d),
            },
        ),
        Ty::Opaque(o) => Ty::Opaque(
            OpaqueTy {
                opaque_ty_id: o.opaque_ty_id,
                substitution: rw_args_exec(op, &o.substitution, d),
            },
        ),
        Ty::Adt(id, s) => Ty::Adt(*id, rw_args_exec(op, s, d)),
        Ty::AssociatedType(id, s) => Ty::AssociatedType(*id, rw_args_exec(op, s, d)),
        Ty::Scalar(v) => Ty::Scalar(*v),
        Ty::Str => Ty::Str,
        Ty::Tuple(n, s) => Ty::Tuple(*n, rw_args_exec(op, s, d)),
        Ty::Slice(t1) => Ty::Slice(Box::new(rw_ty_exec(op, t1, d))),
        Ty::FnDef(id, s) => Ty::FnDef(*id, rw_args_exec(op, s, d)),
        Ty::Ref(m, l, t1) => Ty::Ref(*m, rw_lifetime_exec(op, l, d), Box::new(rw_ty_exec(op, t1, d))),
        Ty::Raw(m, t1) => Ty::Raw(*m, Box::new(rw_ty_exec(op, t1, d))),
        Ty::Never => Ty::Never,
        Ty::Array(t1, c1) => Ty::Array(
            Box::new(rw_ty_exec(op, t1, d)),
            Box::new(rw_const_exec(op, c1, d)),
        ),
        Ty::Closure(id, s) => Ty::Closure(*id, rw_args_exec(op, s, d)),
        Ty::Foreign(v) => Ty::Foreign(*v),
        Ty::Error => Ty::Error,
    }
}

pub fn rw_const_exec(op: &RwOp, c: &Const, d: u32) -> (r: Const)
    ensures
        rw_const(*op, *c, r, d),
    decreases *c, 1nat,
{
    Const { ty: Box::new(rw_ty_exec(op, &c.ty, d)), value: rw_const_value_exec(op, &c.value, d) }
}

pub fn rw_arg_exec(op: &RwOp, a: &GenericArg, d: u32) -> (r: GenericArg)
    ensures
        rw_arg(*op, *a, r, d),
    decreases *a, 0nat,
{
    match a {
        GenericArg::Ty(t) => GenericArg::Ty(rw_ty_exec(op, t, d)),
        GenericArg::Lifetime(l) => GenericArg::Lifetime(rw_lifetime_exec(op, l, d)),
        GenericArg::Const(c) => GenericArg::Const(rw_const_exec(op, c, d)),
    }
}

pub proof fn lemma_rw_args_from_pointwise(
    op: RwOp,
    a: Substitution,
    b: Substitution,
    d: u32,
    i: nat,
)
    requires
        a@.len() == b@.len(),
        forall|j: int| i <= j < a@.len() ==> rw_arg(op, a@[j], b@[j], d),
    ensures
        rw_args_from(op, a, b, d, i),
    decreases a@.len() - i,
{
    if i < a@.len() {
        lemma_rw_args_from_pointwise(op, a, b, d, i + 1);
    }
}

pub fn rw_args_exec(op: &RwOp, s: &Substitution, d: u32) -> (r: Substitution)
    ensures
        rw_args(*op, *s, r, d),
    decreases *s, s@.len() + 1nat,
{
    let n = s.len();
    let mut r: Substitution = Vec::new();
    let mut i: usize = 0;
    while i < n
        invariant
            i <= n,
            n == s@.len(),
            r@.len() == i,
            forall|j: int| 0 <= j < i ==> rw_arg(*op, s@[j], r@[j], d),
        decreases n - i,
    {
        r.push(rw_arg_exec(op, &s[i], d));
        i = i + 1;
    }
    proof {
        lemma_rw_args_from_pointwise(*op, *s, r, d, 0);
    }
    r
}

pub fn rw_domain_goal_exec(op: &RwOp, g: &DomainGoal, d: u32) -> (r: DomainGoal)
    ensures
        rw_domain_goal(*op, *g, r, d),
{
    match g {
        DomainGoal::Holds(id, s) => DomainGoal::Holds(*id, rw_args_exec(op, s, d)),
        DomainGoal::AliasEq(p, t) => DomainGoal::AliasEq(
            ProjectionTy {
                associated_ty_id: p.associated_ty_id,
                substitution: rw_args_exec(op, &p.substitution, d),
            },
            rw_ty_exec(op, t, d),
        ),
    }
}

/// Applies the rewrite to a goal.
pub fn rw_goal_exec(op: &RwOp, g: &Goal, d: u32) -> (r: Goal)
    ensures
        rw_goal(*op, *g, r, d),
    decreases *g,
{
    match g {
        Goal::Domain(dg) => Goal::Domain(rw_domain_goal_exec(op, dg, d)),
        Goal::And(l, r1) => Goal::And(
            Box::new(rw_goal_exec(op, l, d)),
            Box::new(rw_goal_exec(op, r1, d)),
        ),
        Goal::Not(g1) => Goal::Not(Box::new(rw_goal_exec(op, g1, d))),
        Goal::Quantified(q, k, g1) => {
            let mut kinds: Vec<crate::term::VarKind> = Vec::new();
            let n = k.len();
            let mut i: usize = 0;
            while i < n
                invariant
                    i <= n,
                    n == k@.len(),
                    kinds@.len() == i,
                    forall|j: int| 0 <= j < i ==> kinds@[j] == k@[j],
                decreases n - i,
            {
                kinds.push(k[i]);
                i = i + 1;
            }
            proof {
                assert(kinds@ =~= k@);
            }
            let d2 = if d == u32::MAX {
                d
            } else {
                d + 1
            };
            Goal::Quantified(*q, kinds, Box::new(rw_goal_exec(op, g1, d2)))
        },
    }
}

} // verus!
