//! The inference table and the unification step.
//!
//! One inference table backs one derivation attempt and is owned by it
//! exclusively. It records, per inference variable, its kind, its
//! universe, and its binding once unification has committed to one;
//! bindings are never overwritten. Unification compares two terms of
//! matching kind, binding variables (after an occurs check), deferring
//! projection equations as residual positive subgoals, and accumulating
//! region constraints; mismatched rigid terms fail recoverably, while a
//! kind mismatch is a fatal broken invariant.

use vstd::prelude::*;
use crate::key::{copy_projection, copy_ty};
use crate::term::{
    Const, ConstValue, DomainGoal, Fallible, Fatal, GenericArg, Lifetime, NoSolution,
    Substitution, Ty, VarKind,
};

verus! {

/// What the table knows of one inference variable.
pub struct VarInfo {
    pub kind: VarKind,
    pub universe: u32,
    pub binding: Option<GenericArg>,
}

/// The inference table of one derivation attempt.
pub struct InferenceTable {
    pub vars: Vec<VarInfo>,
    pub max_universe: u32,
}

/// The kind of a generic argument.
pub open spec fn arg_kind(a: GenericArg) -> VarKind {
    match a {
        GenericArg::Ty(_) => VarKind::Ty,
        GenericArg::Lifetime(_) => VarKind::Lifetime,
        GenericArg::Const(_) => VarKind::Const,
    }
}

/// `b` keeps every variable of `a`, with its kind and universe, and every
/// binding `a` had; it may add bindings to variables `a` left unbound.
pub open spec fn bindings_extend(a: Seq<VarInfo>, b: Seq<VarInfo>) -> bool {
    &&& b.len() == a.len()
    &&& forall|i: int|
        0 <= i < a.len() ==> b[i].kind == a[i].kind && b[i].universe == a[i].universe && (a[i].binding
            is Some ==> b[i].binding == a[i].binding)
}

/// The table binds `v` to a type memo-key-equal to `t`.
pub open spec fn var_bound_to_ty(vars: Seq<VarInfo>, v: u32, t: Ty) -> bool {
    &&& (v as int) < vars.len()
    &&& match vars[v as int].binding {
        Some(GenericArg::Ty(bt)) => crate::key::same_ty(bt, t),
        _ => false,
    }
}

/// A rigid type head: neither an inference variable, nor a deferrable
/// projection, nor a placeholder.
pub open spec fn rigid_non_placeholder(t: Ty) -> bool {
    &&& !(t matches Ty::InferenceVar(_))
    &&& !(t matches Ty::Projection(_))
    &&& !(t matches Ty::Placeholder(_))
}

/// Whether the inference variable `v` occurs syntactically in the type
/// (`v` as `None` asks for any inference variable at all).
pub open spec fn occ_ty(t: Ty, v: Option<u32>) -> bool
    decreases t, 1nat,
{
    match t {
        Ty::BoundVar(_) => false,
        Ty::InferenceVar(w) => match v {
            Some(x) => w == x,
            None => true,
        },
        Ty::Placeholder(_) => false,
        Ty::Projection(p) => occ_args(p.substitution, v, 0),
        Ty::Opaque(o) => occ_args(o.substitution, v, 0),
        Ty::Adt(_, s) => occ_args(s, v, 0),
        Ty::AssociatedType(_, s) => occ_args(s, v, 0),
        Ty::Scalar(_) => false,
        Ty::Str => false,
        Ty::Tuple(_, s) => occ_args(s, v, 0),
        Ty::Slice(t1) => occ_ty(*t1, v),
        Ty::FnDef(_, s) => occ_args(s, v, 0),
        Ty::Ref(_, l, t1) => occ_lifetime(l, v) || occ_ty(*t1, v),
        Ty::Raw(_, t1) => occ_ty(*t1, v),
        Ty::Never => false,
        Ty::Array(t1, c1) => occ_ty(*t1, v) || occ_const(*c1, v),
        Ty::Closure(_, s) => occ_args(s, v, 0),
        Ty::Foreign(_) => false,
        Ty::Error => false,
    }
}

pub open spec fn occ_lifetime(l: Lifetime, v: Option<u32>) -> bool {
    match l {
        Lifetime::InferenceVar(w) => match v {
            Some(x) => w == x,
            None => true,
        },
        _ => false,
    }
}

pub open spec fn occ_const(c: Const, v: Option<u32>) -> bool
    decreases c, 1nat,
{
    occ_ty(*c.ty, v) || match c.value {
        ConstValue::InferenceVar(w) => match v {
            Some(x) => w == x,
            None => true,
        },
        _ => false,
    }
}

pub open spec fn occ_arg(a: GenericArg, v: Option<u32>) -> bool
    decreases a, 2nat,
{
    match a {
        GenericArg::Ty(t) => occ_ty(t, v),
        GenericArg::Lifetime(l) => occ_lifetime(l, v),
        GenericArg::Const(c) => occ_const(c, v),
    }
}

pub open spec fn occ_args(s: Substitution, v: Option<u32>, i: nat) -> bool
    decreases s, s@.len() - i,
{
    if i >= s@.len() {
        false
    } else {
        occ_arg(s[i as int], v) || occ_args(s, v, i + 1)
    }
}

/// Decides whether the variable occurs in the type.
pub fn occ_ty_exec(t: &Ty, v: Option<u32>) -> (r: bool)
    ensures
        r == occ_ty(*t, v),
    decreases *t, 1nat,
{
    match t {
        Ty::InferenceVar(w) => match v {
            Some(x) => *w == x,
            None => true,
        },
        Ty::Projection(p) => occ_args_exec(&p.substitution, v),
        Ty::Opaque(o) => occ_args_exec(&o.substitution, v),
        Ty::Adt(_, s) => occ_args_exec(s, v),
        Ty::AssociatedType(_, s) => occ_args_exec(s, v),
        Ty::Tuple(_, s) => occ_args_exec(s, v),
        Ty::Slice(t1) => occ_ty_exec(t1, v),
        Ty::FnDef(_, s) => occ_args_exec(s, v),
        Ty::Ref(_, l, t1) => occ_lifetime_exec(l, v) || occ_ty_exec(t1, v),
        Ty::Raw(_, t1) => occ_ty_exec(t1, v),
        Ty::Array(t1, c1) => occ_ty_exec(t1, v) || occ_const_exec(c1, v),
        Ty::Closure(_, s) => occ_args_exec(s, v),
        _ => false,
    }
}

pub fn occ_lifetime_exec(l: &Lifetime, v: Option<u32>) -> (r: bool)
    ensures
        r == occ_lifetime(*l, v),
{
    match l {
        Lifetime::InferenceVar(w) => match v {
            Some(x) => *w == x,
            None => true,
        },
        _ => false,
    }
}

pub fn occ_const_exec(c: &Const, v: Option<u32>) -> (r: bool)
    ensures
        r == occ_const(*c, v),
    decreases *c, 1nat,
{
    occ_ty_exec(&c.ty, v) || match &c.value {
        ConstValue::InferenceVar(w) => match v {
            Some(x) => *w == x,
            None => true,
        },
        _ => false,
    }
}

pub fn occ_arg_exec(a: &GenericArg, v: Option<u32>) -> (r: bool)
    ensures
        r == occ_arg(*a, v),
    decreases *a, 2nat,
{
    match a {
        GenericArg::Ty(t) => occ_ty_exec(t, v),
        GenericArg::Lifetime(l) => occ_lifetime_exec(l, v),
        GenericArg::Const(c) => occ_const_exec(c, v),
    }
}

pub fn occ_args_exec(s: &Substitution, v: Option<u32>) -> (r: bool)
    ensures
        r == occ_args(*s, v, 0),
    decreases *s, s@.len() + 1nat,
{
    let n = s.len();
    let mut i: usize = 0;
    loop
        invariant
            i <= n,
            n == s@.len(),
            occ_args(*s, v, 0) == occ_args(*s, v, i as nat),
        decreases n - i,
    {
        if i >= n {
            return false;
        }
        if occ_arg_exec(&s[i], v) {
            return true;
        }
        i = i + 1;
    }
}

/// A type in which some particular variable occurs contains a variable.
pub proof fn lemma_occ_ty_some_implies_any(t: Ty, x: u32)
    requires
        occ_ty(t, Some(x)),
    ensures
        occ_ty(t, None),
    decreases t, 1nat,
{
    match t {
        Ty::Projection(p) => lemma_occ_args_some_implies_any(p.substitution, x, 0),
        Ty::Opaque(o) => lemma_occ_args_some_implies_any(o.substitution, x, 0),
        Ty::Adt(_, s) => lemma_occ_args_some_implies_any(s, x, 0),
        Ty::AssociatedType(_, s) => lemma_occ_args_some_implies_any(s, x, 0),
        Ty::Tuple(_, s) => lemma_occ_args_some_implies_any(s, x, 0),
        Ty::Slice(t1) => lemma_occ_ty_some_implies_any(*t1, x),
        Ty::FnDef(_, s) => lemma_occ_args_some_implies_any(s, x, 0),
        Ty::Ref(_, l, t1) => {
            if occ_ty(*t1, Some(x)) {
                lemma_occ_ty_some_implies_any(*t1, x);
            }
        },
        Ty::Raw(_, t1) => lemma_occ_ty_some_implies_any(*t1, x),
        Ty::Array(t1, c1) => {
            if occ_ty(*t1, Some(x)) {
                lemma_occ_ty_some_implies_any(*t1, x);
            } else {
                lemma_occ_const_some_implies_any(*c1, x);
            }
        },
        Ty::Closure(_, s) => lemma_occ_args_some_implies_any(s, x, 0),
        _ => {},
    }
}

pub proof fn lemma_occ_const_some_implies_any(c: Const, x: u32)
    requires
        occ_const(c, Some(x)),
    ensures
        occ_const(c, None),
    decreases c, 1nat,
{
    if occ_ty(*c.ty, Some(x)) {
        lemma_occ_ty_some_implies_any(*c.ty, x);
    }
}

pub proof fn lemma_occ_arg_some_implies_any(a: GenericArg, x: u32)
    requires
        occ_arg(a, Some(x)),
    ensures
        occ_arg(a, None),
    decreases a, 2nat,
{
    match a {
        GenericArg::Ty(t) => lemma_occ_ty_some_implies_any(t, x),
        GenericArg::Lifetime(_) => {},
        GenericArg::Const(c) => lemma_occ_const_some_implies_any(c, x),
    }
}

pub proof fn lemma_occ_args_some_implies_any(s: Substitution, x: u32, i: nat)
    requires
        occ_args(s, Some(x), i),
    ensures
        occ_args(s, None, i),
    decreases s, s@.len() - i,
{
    if i < s@.len() {
        if occ_arg(s[i as int], Some(x)) {
            lemma_occ_arg_some_implies_any(s[i as int], x);
        } else {
            lemma_occ_args_some_implies_any(s, x, i + 1);
        }
    }
}

/// Whether the lifetime is an unbound inference variable of the table.
pub open spec fn lt_unbound_var(vars: Seq<VarInfo>, l: Lifetime) -> bool {
    match l {
        Lifetime::InferenceVar(v) => (v as int) < vars.len() && vars[v as int].binding is None,
        _ => false,
    }
}

/// The table with the lifetime variable `l` bound to `other`.
pub open spec fn bind_lt(vars: Seq<VarInfo>, l: Lifetime, other: Lifetime) -> Seq<VarInfo> {
    match l {
        Lifetime::InferenceVar(v) => vars.update(
            v as int,
            VarInfo {
                kind: vars[v as int].kind,
                universe: vars[v as int].universe,
                binding: Some(GenericArg::Lifetime(other)),
            },
        ),
        _ => vars,
    }
}

/// What unifying two lifetimes does: equal lifetimes as they stand, an
/// unbound variable by binding it (left first), and two different rigid
/// lifetimes by recording mutual outlives constraints — never a failure.
pub open spec fn spec_unify_lifetime(vars: Seq<VarInfo>, a: Lifetime, b: Lifetime) -> (
    Seq<VarInfo>,
    Seq<crate::term::Constraint>,
) {
    if a == b {
        (vars, Seq::empty())
    } else if lt_unbound_var(vars, a) {
        (bind_lt(vars, a, b), Seq::empty())
    } else if lt_unbound_var(vars, b) {
        (bind_lt(vars, b, a), Seq::empty())
    } else {
        (
            vars,
            seq![
                crate::term::Constraint::LifetimeOutlives(a, b),
                crate::term::Constraint::LifetimeOutlives(b, a),
            ],
        )
    }
}

impl InferenceTable {
    /// A fresh table with no variables, at the root universe.
    pub fn new() -> (r: InferenceTable)
        ensures
            r.vars@.len() == 0,
            r.max_universe == 0,
    {
        InferenceTable { vars: Vec::new(), max_universe: 0 }
    }

    /// Mints a fresh universe, greater than every universe minted so far.
    pub fn new_universe(&mut self) -> (r: u32)
        requires
            old(self).max_universe < u32::MAX,
        ensures
            r == old(self).max_universe + 1,
            final(self).max_universe == r,
            final(self).vars@ == old(self).vars@,
    {
        self.max_universe = self.max_universe + 1;
        self.max_universe
    }

    /// Creates a fresh, unbound inference variable of the given kind in
    /// the given universe, returning its index.
    pub fn new_variable(&mut self, kind: VarKind, universe: u32) -> (r: u32)
        requires
            old(self).vars@.len() < u32::MAX,
        ensures
            r == old(self).vars@.len(),
            final(self).vars@ == old(self).vars@.push(
                VarInfo { kind, universe, binding: None::<GenericArg> },
            ),
            final(self).max_universe == old(self).max_universe,
    {
        let r = self.vars.len() as u32;
        self.vars.push(VarInfo { kind, universe, binding: None });
        r
    }

    /// Binds an unbound variable; bindings are never overwritten.
    fn bind(&mut self, v: usize, arg: GenericArg)
        requires
            v < old(self).vars@.len(),
            old(self).vars@[v as int].binding is None,
        ensures
            final(self).vars@ == old(self).vars@.update(
                v as int,
                VarInfo {
                    kind: old(self).vars@[v as int].kind,
                    universe: old(self).vars@[v as int].universe,
                    binding: Some(arg),
                },
            ),
            bindings_extend(old(self).vars@, final(self).vars@),
            final(self).max_universe == old(self).max_universe,
    {
        let kind = self.vars[v].kind;
        let universe = self.vars[v].universe;
        self.vars.push(VarInfo { kind, universe, binding: Some(arg) });
        let _old_info = self.vars.swap_remove(v);
        proof {
            assert(final(self).vars@ =~= old(self).vars@.update(
                v as int,
                VarInfo {
                    kind: old(self).vars@[v as int].kind,
                    universe: old(self).vars@[v as int].universe,
                    binding: Some(arg),
                },
            ));
        }
    }

    /// The binding of a type variable at the root of a term, copied out,
    /// if the variable is bound to a type.
    fn probe_ty_var(&self, v: u32) -> (r: Result<Option<Ty>, Fatal>)
        ensures
            match r {
                Ok(Some(_)) => (v as int) < self.vars@.len() && self.vars@[v as int].binding
                    is Some,
                Ok(None) => (v as int) >= self.vars@.len() || self.vars@[v as int].binding
                    is None,
                Err(f) => f == Fatal::KindMismatch && (v as int) < self.vars@.len() && match self
                    .vars@[v as int].binding {
                    Some(arg) => !(arg matches GenericArg::Ty(_)),
                    None => false,
                },
            },
    {
        if (v as usize) >= self.vars.len() {
            return Ok(None);
        }
        match &self.vars[v as usize].binding {
            None => Ok(None),
            Some(GenericArg::Ty(t)) => Ok(Some(copy_ty(t))),
            Some(_) => Err(Fatal::KindMismatch),
        }
    }

    /// Unifies two types. On success, residual alias-equality obligations
    /// are appended to `out_goals` and region constraints to
    /// `out_constraints`; both grow monotonically. The table's variables
    /// keep their kinds and universes, and existing bindings are kept.
    pub fn unify_ty(
        &mut self,
        a: &Ty,
        b: &Ty,
        fuel: usize,
        out_goals: &mut Vec<DomainGoal>,
        out_constraints: &mut Vec<crate::term::Constraint>,
    ) -> (r: Result<Fallible<()>, Fatal>)
        ensures
            bindings_extend(old(self).vars@, final(self).vars@),
            final(self).max_universe == old(self).max_universe,
            final(out_goals)@.len() >= old(out_goals)@.len(),
            forall|j: int|
                0 <= j < old(out_goals)@.len() ==> final(out_goals)@[j] == old(out_goals)@[j],
            final(out_constraints)@.len() >= old(out_constraints)@.len(),
            forall|j: int|
                0 <= j < old(out_constraints)@.len() ==> final(out_constraints)@[j] == old(
                    out_constraints,
                )@[j],
            forall|j: int|
                old(out_goals)@.len() <= j < final(out_goals)@.len()
                    ==> (#[trigger] final(out_goals)@[j]) matches DomainGoal::AliasEq(_, _),
            *a matches Ty::Placeholder(p1) ==> *b matches Ty::Placeholder(p2) ==> r == (if p1
                == p2 {
                Ok::<_, Fatal>(Ok::<(), NoSolution>(()))
            } else {
                Ok::<_, Fatal>(Err::<(), NoSolution>(NoSolution))
            }),
            *a matches Ty::Scalar(s1) ==> *b matches Ty::Scalar(s2) ==> r == (if s1 == s2 {
                Ok::<_, Fatal>(Ok::<(), NoSolution>(()))
            } else {
                Ok::<_, Fatal>(Err::<(), NoSolution>(NoSolution))
            }),
            // A rigid placeholder unifies with nothing but an identical
            // placeholder.
            *a matches Ty::Placeholder(p1) ==> rigid_non_placeholder(*b) ==> r == Ok::<
                _,
                Fatal,
            >(Err::<(), NoSolution>(NoSolution)),
            *b matches Ty::Placeholder(p2) ==> rigid_non_placeholder(*a) ==> r == Ok::<
                _,
                Fatal,
            >(Err::<(), NoSolution>(NoSolution)),
            // An unbound inference variable unifies with any term free of
            // inference variables (the occurs check is vacuous there): the
            // variable is bound to that term, and no residual obligation or
            // constraint arises.
            *a matches Ty::InferenceVar(v) ==> ((v as int) < old(self).vars@.len() && old(
                self,
            ).vars@[v as int].binding is None && !occ_ty(*b, None)) ==> (r == Ok::<_, Fatal>(Ok::<
                (),
                NoSolution,
            >(())) && var_bound_to_ty(final(self).vars@, v, *b) && final(out_goals)@ == old(
                out_goals,
            )@ && final(out_constraints)@ == old(out_constraints)@),
            *b matches Ty::InferenceVar(w) ==> ((w as int) < old(self).vars@.len() && old(
                self,
            ).vars@[w as int].binding is None && !occ_ty(*a, None)) ==> (r == Ok::<_, Fatal>(Ok::<
                (),
                NoSolution,
            >(())) && var_bound_to_ty(final(self).vars@, w, *a) && final(out_goals)@ == old(
                out_goals,
            )@ && final(out_constraints)@ == old(out_constraints)@),
        decreases fuel, *a, 1nat,
    {
        // Resolve a bound variable at the root of either side first.
        if let Ty::InferenceVar(v) = a {
            match self.probe_ty_var(*v) {
                Err(f) => {
                    return Err(f);
                },
                Ok(Some(t)) => {
                    if fuel == 0 {
                        return Ok(Err(NoSolution));
                    }
                    return self.unify_ty(&t, b, fuel - 1, out_goals, out_constraints);
                },
                Ok(None) => {},
            }
        }
        if let Ty::InferenceVar(w) = b {
            match self.probe_ty_var(*w) {
                Err(f) => {
                    return Err(f);
                },
                Ok(Some(t)) => {
                    if fuel == 0 {
                        return Ok(Err(NoSolution));
                    }
                    return self.unify_ty(a, &t, fuel - 1, out_goals, out_constraints);
                },
                Ok(None) => {},
            }
        }
        match (a, b) {
            (Ty::InferenceVar(v), Ty::InferenceVar(w)) => {
                if *v == *w {
                    return Ok(Ok(()));
                }
                if (*v as usize) < self.vars.len() {
                    self.bind(*v as usize, GenericArg::Ty(Ty::InferenceVar(*w)));
                    return Ok(Ok(()));
                }
                return Ok(Err(NoSolution));
            },
            (Ty::InferenceVar(v), _) => {
                if occ_ty_exec(b, Some(*v)) {
                    proof {
                        lemma_occ_ty_some_implies_any(*b, *v);
                    }
                    return Ok(Err(NoSolution));
                }
                if (*v as usize) < self.vars.len() {
                    self.bind(*v as usize, GenericArg::Ty(copy_ty(b)));
                    return Ok(Ok(()));
                }
                return Ok(Err(NoSolution));
            },
            (_, Ty::InferenceVar(w)) => {
                if occ_ty_exec(a, Some(*w)) {
                    proof {
                        lemma_occ_ty_some_implies_any(*a, *w);
                    }
                    return Ok(Err(NoSolution));
                }
                if (*w as usize) < self.vars.len() {
                    self.bind(*w as usize, GenericArg::Ty(copy_ty(a)));
                    return Ok(Ok(()));
                }
                return Ok(Err(NoSolution));
            },
            // An associated-type projection cannot be compared
            // structurally: defer it as an alias-equality obligation.
            (Ty::Projection(p), _) => {
                out_goals.push(DomainGoal::AliasEq(copy_projection(p), copy_ty(b)));
                return Ok(Ok(()));
            },
            (_, Ty::Projection(p)) => {
                out_goals.push(DomainGoal::AliasEq(copy_projection(p), copy_ty(a)));
                return Ok(Ok(()));
            },
            // A rigid placeholder unifies only with itself.
            (Ty::Placeholder(p1), Ty::Placeholder(p2)) => {
                if p1 == p2 {
                    return Ok(Ok(()));
                }
                return Ok(Err(NoSolution));
            },
            (Ty::BoundVar(v1), Ty::BoundVar(v2)) => {
                if v1 == v2 {
                    return Ok(Ok(()));
                }
                return Ok(Err(NoSolution));
            },
            (Ty::Opaque(o1), Ty::Opaque(o2)) => {
                if o1.opaque_ty_id != o2.opaque_ty_id {
                    return Ok(Err(NoSolution));
                }
                return self.unify_substs(
                    &o1.substitution,
                    &o2.substitution,
                    fuel,
                    out_goals,
                    out_constraints,
                );
            },
            (Ty::Adt(id1, s1), Ty::Adt(id2, s2)) => {
                if *id1 != *id2 {
                    return Ok(Err(NoSolution));
                }
                return self.unify_substs(s1, s2, fuel, out_goals, out_constraints);
            },
            (Ty::AssociatedType(id1, s1), Ty::AssociatedType(id2, s2)) => {
                if *id1 != *id2 {
                    return Ok(Err(NoSolution));
                }
                return self.unify_substs(s1, s2, fuel, out_goals, out_constraints);
            },
            (Ty::Scalar(s1), Ty::Scalar(s2)) => {
                if *s1 == *s2 {
                    return Ok(Ok(()));
                }
                return Ok(Err(NoSolution));
            },
            (Ty::Str, Ty::Str) => Ok(Ok(())),
            (Ty::Tuple(n1, s1), Ty::Tuple(n2, s2)) => {
                if *n1 != *n2 {
                    return Ok(Err(NoSolution));
                }
                return self.unify_substs(s1, s2, fuel, out_goals, out_constraints);
            },
            (Ty::Slice(t1), Ty::Slice(t2)) => self.unify_ty(t1, t2, fuel, out_goals, out_constraints),
            (Ty::FnDef(id1, s1), Ty::FnDef(id2, s2)) => {
                if *id1 != *id2 {
                    return Ok(Err(NoSolution));
                }
                return self.unify_substs(s1, s2, fuel, out_goals, out_constraints);
            },
            (Ty::Ref(m1, l1, t1), Ty::Ref(m2, l2, t2)) => {
                if *m1 != *m2 {
                    return Ok(Err(NoSolution));
                }
                self.unify_lifetime(l1, l2, out_constraints);
                return self.unify_ty(t1, t2, fuel, out_goals, out_constraints);
            },
            (Ty::Raw(m1, t1), Ty::Raw(m2, t2)) => {
                if *m1 != *m2 {
                    return Ok(Err(NoSolution));
                }
                return self.unify_ty(t1, t2, fuel, out_goals, out_constraints);
            },
            (Ty::Never, Ty::Never) => Ok(Ok(())),
            (Ty::Array(t1, c1), Ty::Array(t2, c2)) => {
                match self.unify_ty(t1, t2, fuel, out_goals, out_constraints) {
                    Err(f) => Err(f),
                    Ok(Err(n)) => Ok(Err(n)),
                    Ok(Ok(())) => self.unify_const(c1, c2, fuel, out_goals, out_constraints),
                }
            },
            (Ty::Closure(id1, s1), Ty::Closure(id2, s2)) => {
                if *id1 != *id2 {
                    return Ok(Err(NoSolution));
                }
                return self.unify_substs(s1, s2, fuel, out_goals, out_constraints);
            },
            (Ty::Foreign(f1), Ty::Foreign(f2)) => {
                if *f1 == *f2 {
                    return Ok(Ok(()));
                }
                return Ok(Err(NoSolution));
            },
            (Ty::Error, Ty::Error) => Ok(Ok(())),
            _ => Ok(Err(NoSolution)),
        }
    }

    /// Unifies two lifetimes, exactly as `spec_unify_lifetime` says.
    pub fn unify_lifetime(
        &mut self,
        a: &Lifetime,
        b: &Lifetime,
        out_constraints: &mut Vec<crate::term::Constraint>,
    )
        ensures
            bindings_extend(old(self).vars@, final(self).vars@),
            final(self).max_universe == old(self).max_universe,
            final(self).vars@ == spec_unify_lifetime(old(self).vars@, *a, *b).0,
            final(out_constraints)@ == old(out_constraints)@ + spec_unify_lifetime(
                old(self).vars@,
                *a,
                *b,
            ).1,
            final(out_constraints)@.len() >= old(out_constraints)@.len(),
            forall|j: int|
                0 <= j < old(out_constraints)@.len() ==> final(out_constraints)@[j] == old(
                    out_constraints,
                )@[j],
    {
        if a == b {
            proof {
                assert(out_constraints@ =~= old(out_constraints)@ + Seq::<
                    crate::term::Constraint,
                >::empty());
            }
            return ;
        }
        if let Lifetime::InferenceVar(v) = a {
            if (*v as usize) < self.vars.len() && matches!(
                self.vars[*v as usize].binding,
                Option::None,
            ) {
                self.bind(*v as usize, GenericArg::Lifetime(*b));
                proof {
                    assert(out_constraints@ =~= old(out_constraints)@ + Seq::<
                        crate::term::Constraint,
                    >::empty());
                }
                return ;
            }
        }
        if let Lifetime::InferenceVar(w) = b {
            if (*w as usize) < self.vars.len() && matches!(
                self.vars[*w as usize].binding,
                Option::None,
            ) {
                self.bind(*w as usize, GenericArg::Lifetime(*a));
                proof {
                    assert(out_constraints@ =~= old(out_constraints)@ + Seq::<
                        crate::term::Constraint,
                    >::empty());
                }
                return ;
            }
        }
        out_constraints.push(crate::term::Constraint::LifetimeOutlives(*a, *b));
        out_constraints.push(crate::term::Constraint::LifetimeOutlives(*b, *a));
        proof {
            assert(out_constraints@ =~= old(out_constraints)@ + seq![
                crate::term::Constraint::LifetimeOutlives(*a, *b),
                crate::term::Constraint::LifetimeOutlives(*b, *a),
            ]);
        }
    }

    /// Unifies two consts: their types first, then their values.
    pub fn unify_const(
        &mut self,
        a: &Const,
        b: &Const,
        fuel: usize,
        out_goals: &mut Vec<DomainGoal>,
        out_constraints: &mut Vec<crate::term::Constraint>,
    ) -> (r: Result<Fallible<()>, Fatal>)
        ensures
            bindings_extend(old(self).vars@, final(self).vars@),
            final(self).max_universe == old(self).max_universe,
            final(out_goals)@.len() >= old(out_goals)@.len(),
            forall|j: int|
                0 <= j < old(out_goals)@.len() ==> final(out_goals)@[j] == old(out_goals)@[j],
            final(out_constraints)@.len() >= old(out_constraints)@.len(),
            forall|j: int|
                0 <= j < old(out_constraints)@.len() ==> final(out_constraints)@[j] == old(
                    out_constraints,
                )@[j],
            forall|j: int|
                old(out_goals)@.len() <= j < final(out_goals)@.len()
                    ==> (#[trigger] final(out_goals)@[j]) matches DomainGoal::AliasEq(_, _),
            // For consts over scalar types, the outcome is decided: equal
            // types compare the values, unequal types fail recoverably.
            *a.ty matches Ty::Scalar(x) ==> *b.ty matches Ty::Scalar(y) ==> x != y ==> r == Ok::<
                Fallible<()>,
                Fatal,
            >(Err::<(), NoSolution>(NoSolution)),
            *a.ty matches Ty::Scalar(x) ==> *b.ty matches Ty::Scalar(y) ==> a.value matches
                ConstValue::Concrete(v1) ==> b.value matches ConstValue::Concrete(v2) ==> x == y
                ==> r == (if v1 == v2 {
                Ok::<Fallible<()>, Fatal>(Ok::<(), NoSolution>(()))
            } else {
                Ok::<Fallible<()>, Fatal>(Err::<(), NoSolution>(NoSolution))
            }),
        decreases fuel, *a, 1nat,
    {
        match self.unify_ty(&a.ty, &b.ty, fuel, out_goals, out_constraints) {
            Err(f) => {
                return Err(f);
            },
            Ok(Err(n)) => {
                return Ok(Err(n));
            },
            Ok(Ok(())) => {},
        }
        match (&a.value, &b.value) {
            (ConstValue::InferenceVar(v), ConstValue::InferenceVar(w)) if *v == *w => Ok(Ok(())),
            (ConstValue::InferenceVar(v), _) => {
                if (*v as usize) < self.vars.len() && matches!(
                    self.vars[*v as usize].binding,
                    Option::None,
                ) {
                    self.bind(*v as usize, GenericArg::Const(copy_const_local(b)));
                    return Ok(Ok(()));
                }
                Ok(Err(NoSolution))
            },
            (_, ConstValue::InferenceVar(w)) => {
                if (*w as usize) < self.vars.len() && matches!(
                    self.vars[*w as usize].binding,
                    Option::None,
                ) {
                    self.bind(*w as usize, GenericArg::Const(copy_const_local(a)));
                    return Ok(Ok(()));
                }
                Ok(Err(NoSolution))
            },
            (ConstValue::Placeholder(p1), ConstValue::Placeholder(p2)) => {
                if p1 == p2 {
                    Ok(Ok(()))
                } else {
                    Ok(Err(NoSolution))
                }
            },
            (ConstValue::Concrete(v1), ConstValue::Concrete(v2)) => {
                if *v1 == *v2 {
                    Ok(Ok(()))
                } else {
                    Ok(Err(NoSolution))
                }
            },
            _ => Ok(Err(NoSolution)),
        }
    }

    /// Unifies two substitution lists of equal length position by
    /// position; a length mismatch is a broken invariant.
    pub fn unify_substs(
        &mut self,
        s1: &Substitution,
        s2: &Substitution,
        fuel: usize,
        out_goals: &mut Vec<DomainGoal>,
        out_constraints: &mut Vec<crate::term::Constraint>,
    ) -> (r: Result<Fallible<()>, Fatal>)
        ensures
            bindings_extend(old(self).vars@, final(self).vars@),
            final(self).max_universe == old(self).max_universe,
            final(out_goals)@.len() >= old(out_goals)@.len(),
            forall|j: int|
                0 <= j < old(out_goals)@.len() ==> final(out_goals)@[j] == old(out_goals)@[j],
            final(out_constraints)@.len() >= old(out_constraints)@.len(),
            forall|j: int|
                0 <= j < old(out_constraints)@.len() ==> final(out_constraints)@[j] == old(
                    out_constraints,
                )@[j],
            forall|j: int|
                old(out_goals)@.len() <= j < final(out_goals)@.len()
                    ==> (#[trigger] final(out_goals)@[j]) matches DomainGoal::AliasEq(_, _),
            // Two empty lists always unify, changing nothing.
            (s1@.len() == 0 && s2@.len() == 0) ==> (r == Ok::<Fallible<()>, Fatal>(Ok::<
                (),
                NoSolution,
            >(())) && final(self).vars@ == old(self).vars@ && final(out_goals)@ == old(out_goals)@
                && final(out_constraints)@ == old(out_constraints)@),
        decreases fuel, *s1, 2nat,
    {
        let n = s1.len();
        if n != s2.len() {
            return Err(Fatal::SubstLengthMismatch);
        }
        let mut i: usize = 0;
        loop
            invariant
                i <= n,
                n == s1@.len(),
                n == s2@.len(),
                n == 0 ==> (self.vars@ == old(self).vars@ && out_goals@ == old(out_goals)@
                    && out_constraints@ == old(out_constraints)@),
                bindings_extend(old(self).vars@, self.vars@),
                self.max_universe == old(self).max_universe,
                out_goals@.len() >= old(out_goals)@.len(),
                forall|j: int|
                    0 <= j < old(out_goals)@.len() ==> out_goals@[j] == old(out_goals)@[j],
                forall|j: int|
                    old(out_goals)@.len() <= j < out_goals@.len() ==> (#[trigger] out_goals@[j])
                        matches DomainGoal::AliasEq(_, _),
                out_constraints@.len() >= old(out_constraints)@.len(),
                forall|j: int|
                    0 <= j < old(out_constraints)@.len() ==> out_constraints@[j] == old(
                        out_constraints,
                    )@[j],
            decreases n - i,
        {
            if i >= n {
                return Ok(Ok(()));
            }
            match self.unify_arg(&s1[i], &s2[i], fuel, out_goals, out_constraints) {
                Err(f) => {
                    return Err(f);
                },
                Ok(Err(ns)) => {
                    return Ok(Err(ns));
                },
                Ok(Ok(())) => {},
            }
            i = i + 1;
        }
    }

    /// Unifies one pair of generic arguments; the pair must share a kind,
    /// and a mismatch is fatal.
    pub fn unify_arg(
        &mut self,
        a: &GenericArg,
        b: &GenericArg,
        fuel: usize,
        out_goals: &mut Vec<DomainGoal>,
        out_constraints: &mut Vec<crate::term::Constraint>,
    ) -> (r: Result<Fallible<()>, Fatal>)
        ensures
            bindings_extend(old(self).vars@, final(self).vars@),
            final(self).max_universe == old(self).max_universe,
            final(out_goals)@.len() >= old(out_goals)@.len(),
            forall|j: int|
                0 <= j < old(out_goals)@.len() ==> final(out_goals)@[j] == old(out_goals)@[j],
            final(out_constraints)@.len() >= old(out_constraints)@.len(),
            forall|j: int|
                0 <= j < old(out_constraints)@.len() ==> final(out_constraints)@[j] == old(
                    out_constraints,
                )@[j],
            arg_kind(*a) != arg_kind(*b) ==> r == Err::<Fallible<()>, Fatal>(Fatal::KindMismatch),
            forall|j: int|
                old(out_goals)@.len() <= j < final(out_goals)@.len()
                    ==> (#[trigger] final(out_goals)@[j]) matches DomainGoal::AliasEq(_, _),
            *a matches GenericArg::Ty(t1) ==> *b matches GenericArg::Ty(t2) ==> t1 matches
                Ty::InferenceVar(v) ==> ((v as int) < old(self).vars@.len() && old(
                self,
            ).vars@[v as int].binding is None && !occ_ty(t2, None)) ==> (r == Ok::<
                Fallible<()>,
                Fatal,
            >(Ok::<(), NoSolution>(())) && var_bound_to_ty(final(self).vars@, v, t2) && final(out_goals)@ == old(out_goals)@
                && final(out_constraints)@ == old(out_constraints)@),
            *a matches GenericArg::Ty(t1) ==> *b matches GenericArg::Ty(t2) ==> t2 matches
                Ty::InferenceVar(w) ==> ((w as int) < old(self).vars@.len() && old(
                self,
            ).vars@[w as int].binding is None && !occ_ty(t1, None)) ==> (r == Ok::<
                Fallible<()>,
                Fatal,
            >(Ok::<(), NoSolution>(())) && var_bound_to_ty(final(self).vars@, w, t1) && final(out_goals)@ == old(out_goals)@
                && final(out_constraints)@ == old(out_constraints)@),
            *a matches GenericArg::Ty(t1) ==> *b matches GenericArg::Ty(t2) ==> ((t1 matches
                Ty::Placeholder(_) && rigid_non_placeholder(t2)) || (t2 matches Ty::Placeholder(_)
                && rigid_non_placeholder(t1))) ==> r == Ok::<Fallible<()>, Fatal>(Err::<
                (),
                NoSolution,
            >(NoSolution)),
            *a matches GenericArg::Ty(t1) ==> *b matches GenericArg::Ty(t2) ==> t1 matches
                Ty::Placeholder(p1) ==> t2 matches Ty::Placeholder(p2) ==> r == (if p1 == p2 {
                Ok::<Fallible<()>, Fatal>(Ok::<(), NoSolution>(()))
            } else {
                Ok::<Fallible<()>, Fatal>(Err::<(), NoSolution>(NoSolution))
            }),
            *a matches GenericArg::Ty(t1) ==> *b matches GenericArg::Ty(t2) ==> t1 matches
                Ty::Scalar(s1) ==> t2 matches Ty::Scalar(s2) ==> r == (if s1 == s2 {
                Ok::<Fallible<()>, Fatal>(Ok::<(), NoSolution>(()))
            } else {
                Ok::<Fallible<()>, Fatal>(Err::<(), NoSolution>(NoSolution))
            }),
        decreases fuel, *a, 3nat,
    {
        match (a, b) {
            (GenericArg::Ty(t1), GenericArg::Ty(t2)) => self.unify_ty(
                t1,
                t2,
                fuel,
                out_goals,
                out_constraints,
            ),
            (GenericArg::Lifetime(l1), GenericArg::Lifetime(l2)) => {
                self.unify_lifetime(l1, l2, out_constraints);
                Ok(Ok(()))
            },
            (GenericArg::Const(c1), GenericArg::Const(c2)) => self.unify_const(
                c1,
                c2,
                fuel,
                out_goals,
                out_constraints,
            ),
            _ => Err(Fatal::KindMismatch),
        }
    }
}

impl InferenceTable {
    /// Unifies two goals structurally: matching connectives recurse, and
    /// domain obligations with one head unify their arguments. Used to
    /// splice a sub-table's answer back into a waiting derivation.
    pub fn unify_goal(
        &mut self,
        a: &crate::term::Goal,
        b: &crate::term::Goal,
        fuel: usize,
        out_goals: &mut Vec<DomainGoal>,
        out_constraints: &mut Vec<crate::term::Constraint>,
    ) -> (r: Result<Fallible<()>, Fatal>)
        ensures
            bindings_extend(old(self).vars@, final(self).vars@),
            final(self).max_universe == old(self).max_universe,
            final(out_goals)@.len() >= old(out_goals)@.len(),
            forall|j: int|
                0 <= j < old(out_goals)@.len() ==> final(out_goals)@[j] == old(out_goals)@[j],
            final(out_constraints)@.len() >= old(out_constraints)@.len(),
            forall|j: int|
                0 <= j < old(out_constraints)@.len() ==> final(out_constraints)@[j] == old(
                    out_constraints,
                )@[j],
            forall|j: int|
                old(out_goals)@.len() <= j < final(out_goals)@.len()
                    ==> (#[trigger] final(out_goals)@[j]) matches DomainGoal::AliasEq(_, _),
            // For bare head obligations the outcome is decided by the head.
            *a matches crate::term::Goal::Domain(da) ==> *b matches crate::term::Goal::Domain(
                db,
            ) ==> da matches
                DomainGoal::Holds(id1, s1) ==> db matches DomainGoal::Holds(id2, s2) ==> (s1@.len()
                == 0 && s2@.len() == 0) ==> r == (if id1 == id2 {
                Ok::<Fallible<()>, Fatal>(Ok::<(), NoSolution>(()))
            } else {
                Ok::<Fallible<()>, Fatal>(Err::<(), NoSolution>(NoSolution))
            }),
        decreases fuel, *a, 4nat,
    {
        match (a, b) {
            (crate::term::Goal::Domain(d1), crate::term::Goal::Domain(d2)) => {
                match (d1, d2) {
                    (DomainGoal::Holds(id1, s1), DomainGoal::Holds(id2, s2)) => {
                        if *id1 != *id2 {
                            return Ok(Err(NoSolution));
                        }
                        self.unify_substs(s1, s2, fuel, out_goals, out_constraints)
                    },
                    (DomainGoal::AliasEq(p1, t1), DomainGoal::AliasEq(p2, t2)) => {
                        if p1.associated_ty_id != p2.associated_ty_id {
                            return Ok(Err(NoSolution));
                        }
                        match self.unify_substs(
                            &p1.substitution,
                            &p2.substitution,
                            fuel,
                            out_goals,
                            out_constraints,
                        ) {
                            Err(f) => Err(f),
                            Ok(Err(ns)) => Ok(Err(ns)),
                            Ok(Ok(())) => self.unify_ty(t1, t2, fuel, out_goals, out_constraints),
                        }
                    },
                    _ => Ok(Err(NoSolution)),
                }
            },
            (crate::term::Goal::And(l1, r1), crate::term::Goal::And(l2, r2)) => {
                match self.unify_goal(l1, l2, fuel, out_goals, out_constraints) {
                    Err(f) => Err(f),
                    Ok(Err(ns)) => Ok(Err(ns)),
                    Ok(Ok(())) => self.unify_goal(r1, r2, fuel, out_goals, out_constraints),
                }
            },
            (crate::term::Goal::Not(g1), crate::term::Goal::Not(g2)) => self.unify_goal(
                g1,
                g2,
                fuel,
                out_goals,
                out_constraints,
            ),
            (crate::term::Goal::Quantified(q1, k1, g1), crate::term::Goal::Quantified(
                q2,
                k2,
                g2,
            )) => {
                if *q1 != *q2 {
                    return Ok(Err(NoSolution));
                }
                if !var_kinds_same(k1, k2) {
                    return Ok(Err(NoSolution));
                }
                self.unify_goal(g1, g2, fuel, out_goals, out_constraints)
            },
            _ => Ok(Err(NoSolution)),
        }
    }
}

/// Whether two binder kind lists agree.
fn var_kinds_same(a: &Vec<VarKind>, b: &Vec<VarKind>) -> (r: bool)
    ensures
        r == (a@ == b@),
{
    let n = a.len();
    if n != b.len() {
        proof {
            assert(a@.len() != b@.len());
        }
        return false;
    }
    let mut i: usize = 0;
    loop
        invariant
            i <= n,
            n == a@.len(),
            n == b@.len(),
            forall|j: int| 0 <= j < i ==> a@[j] == b@[j],
        decreases n - i,
    {
        if i >= n {
            proof {
                assert(a@ =~= b@);
            }
            return true;
        }
        if a[i] != b[i] {
            return false;
        }
        i = i + 1;
    }
}

/// Duplicates a const (helper for binding const variables).
fn copy_const_local(c: &Const) -> (r: Const)
    ensures
        crate::key::same_const(r, *c),
{
    Const { ty: Box::new(copy_ty(&c.ty)), value: c.value }
}

} // verus!
