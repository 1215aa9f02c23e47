//! Structural invalidation checker.
//!
//! Compares a prospective answer substitution against the current
//! aggregated answer, position by position over their shared canonical
//! template. The result is `false` only when the new substitution provably
//! cannot make the aggregate any less general than it already is; whenever
//! that cannot be proven the checker answers `true` (a conservative
//! over-approximation, which is safe — a false negative would not be).

use vstd::prelude::*;
use crate::term::{
    BoundVar, Canonical, Const, ConstValue, Fatal, GenericArg, Lifetime, OpaqueTy,
    PlaceholderIndex, ProjectionTy, Substitution, Ty,
};

verus! {

/// What the checker decides for a pair of generic arguments of matching
/// kind, mirroring the executable rules arm for arm. `Err` marks the fatal
/// internal-invariant violations: a kind mismatch, a free inference
/// variable in a canonical answer, or a substitution-length mismatch under
/// an equal nominal head.
pub open spec fn spec_aggregate_generic_args(new: GenericArg, current: GenericArg) -> Result<
    bool,
    Fatal,
>
    decreases new, 0nat,
{
    match (new, current) {
        (GenericArg::Ty(t1), GenericArg::Ty(t2)) => spec_aggregate_tys(t1, t2),
        (GenericArg::Lifetime(l1), GenericArg::Lifetime(l2)) => Ok(
            spec_aggregate_lifetimes(l1, l2),
        ),
        (GenericArg::Const(c1), GenericArg::Const(c2)) => spec_aggregate_consts(c1, c2),
        _ => Err(Fatal::KindMismatch),
    }
}

/// Whether the two types could be unequal.
pub open spec fn spec_aggregate_tys(new: Ty, current: Ty) -> Result<bool, Fatal>
    decreases new, 1nat,
{
    match (new, current) {
        // The aggregate already has a wildcard here: nothing can make it
        // more general, so nothing invalidates it.
        (_, Ty::BoundVar(_)) => Ok(false),
        // The prospective answer leaves this position open: it could turn
        // out to be anything, including a strict generalization.
        (Ty::BoundVar(_), _) => Ok(true),
        (Ty::InferenceVar(_), _) => Err(Fatal::FreeInferenceVar),
        (_, Ty::InferenceVar(_)) => Err(Fatal::FreeInferenceVar),
        (Ty::Placeholder(p1), Ty::Placeholder(p2)) => Ok(spec_aggregate_placeholders(p1, p2)),
        (Ty::Projection(p1), Ty::Projection(p2)) => spec_aggregate_projection_tys(p1, p2),
        (Ty::Opaque(o1), Ty::Opaque(o2)) => spec_aggregate_opaque_ty_tys(o1, o2),
        (Ty::Adt(id1, s1), Ty::Adt(id2, s2)) => spec_aggregate_name_and_substs(id1, s1, id2, s2),
        (Ty::AssociatedType(id1, s1), Ty::AssociatedType(id2, s2)) => spec_aggregate_name_and_substs(
            id1,
            s1,
            id2,
            s2,
        ),
        (Ty::Scalar(a), Ty::Scalar(b)) => Ok(a != b),
        (Ty::Str, Ty::Str) => Ok(false),
        (Ty::Tuple(a1, s1), Ty::Tuple(a2, s2)) => spec_aggregate_name_and_substs(a1, s1, a2, s2),
        (Ty::Slice(t1), Ty::Slice(t2)) => spec_aggregate_tys(*t1, *t2),
        (Ty::FnDef(id1, s1), Ty::FnDef(id2, s2)) => spec_aggregate_name_and_substs(id1, s1, id2, s2),
        (Ty::Ref(m1, l1, t1), Ty::Ref(m2, l2, t2)) => {
            if m1 != m2 {
                Ok(true)
            } else if spec_aggregate_lifetimes(l1, l2) {
                Ok(true)
            } else {
                spec_aggregate_tys(*t1, *t2)
            }
        },
        (Ty::Raw(m1, t1), Ty::Raw(m2, t2)) => {
            if m1 != m2 {
                Ok(true)
            } else {
                spec_aggregate_tys(*t1, *t2)
            }
        },
        (Ty::Never, Ty::Never) => Ok(false),
        (Ty::Array(t1, c1), Ty::Array(t2, c2)) => {
            match spec_aggregate_tys(*t1, *t2) {
                Err(f) => Err(f),
                Ok(true) => Ok(true),
                Ok(false) => spec_aggregate_consts(*c1, *c2),
            }
        },
        (Ty::Closure(id1, s1), Ty::Closure(id2, s2)) => spec_aggregate_name_and_substs(
            id1,
            s1,
            id2,
            s2,
        ),
        (Ty::Foreign(a), Ty::Foreign(b)) => Ok(a != b),
        (Ty::Error, Ty::Error) => Ok(false),
        // Entirely mismatched shapes: conservatively, the answer may change.
        _ => Ok(true),
    }
}

/// Whether the two lifetimes could be unequal: always assumed possible.
pub open spec fn spec_aggregate_lifetimes(new: Lifetime, current: Lifetime) -> bool {
    true
}

/// Whether the two consts could be unequal.
pub open spec fn spec_aggregate_consts(new: Const, current: Const) -> Result<bool, Fatal>
    decreases new, 1nat,
{
    match spec_aggregate_tys(*new.ty, *current.ty) {
        Err(f) => Err(f),
        Ok(true) => Ok(true),
        Ok(false) => match (new.value, current.value) {
            (_, ConstValue::BoundVar(_)) => Ok(false),
            (ConstValue::BoundVar(_), _) => Ok(true),
            (ConstValue::InferenceVar(_), _) => Err(Fatal::FreeInferenceVar),
            (_, ConstValue::InferenceVar(_)) => Err(Fatal::FreeInferenceVar),
            (ConstValue::Placeholder(p1), ConstValue::Placeholder(p2)) => Ok(
                spec_aggregate_placeholders(p1, p2),
            ),
            (ConstValue::Concrete(v1), ConstValue::Concrete(v2)) => Ok(v1 != v2),
            // The variants left pair a placeholder against a concrete
            // value, which always may differ.
            _ => Ok(true),
        },
    }
}

/// Whether the two placeholders could be unequal: exactly when they differ.
pub open spec fn spec_aggregate_placeholders(
    new: PlaceholderIndex,
    current: PlaceholderIndex,
) -> bool {
    new != current
}

pub open spec fn spec_aggregate_projection_tys(new: ProjectionTy, current: ProjectionTy) -> Result<
    bool,
    Fatal,
>
    decreases new, 2nat,
{
    spec_aggregate_name_and_substs(
        new.associated_ty_id,
        new.substitution,
        current.associated_ty_id,
        current.substitution,
    )
}

pub open spec fn spec_aggregate_opaque_ty_tys(new: OpaqueTy, current: OpaqueTy) -> Result<
    bool,
    Fatal,
>
    decreases new, 2nat,
{
    spec_aggregate_name_and_substs(
        new.opaque_ty_id,
        new.substitution,
        current.opaque_ty_id,
        current.substitution,
    )
}

/// Two positions holding an equal nominal head invalidate iff some paired
/// argument invalidates; unequal heads always may. Equal heads with
/// substitution lists of unequal length are a broken invariant.
pub open spec fn spec_aggregate_name_and_substs(
    new_name: u32,
    new_substitution: Substitution,
    current_name: u32,
    current_substitution: Substitution,
) -> Result<bool, Fatal>
    decreases new_substitution, new_substitution@.len() + 1nat,
{
    if new_name != current_name {
        Ok(true)
    } else if new_substitution@.len() != current_substitution@.len() {
        Err(Fatal::SubstLengthMismatch)
    } else {
        spec_aggregate_substs(new_substitution, current_substitution, 0)
    }
}

/// Position-wise scan from `i` on: the first fatal pair aborts, the first
/// invalidating pair answers `true`, and a clean tail answers `false`.
pub open spec fn spec_aggregate_substs(new: Substitution, current: Substitution, i: nat) -> Result<
    bool,
    Fatal,
>
    decreases new, new@.len() - i,
{
    if i >= new@.len() || i >= current@.len() {
        Ok(false)
    } else {
        match spec_aggregate_generic_args(new[i as int], current[i as int]) {
            Err(f) => Err(f),
            Ok(true) => Ok(true),
            Ok(false) => spec_aggregate_substs(new, current, i + 1),
        }
    }
}

/// A position the aggregate already holds maximally general (a
/// bound-variable wildcard) is never invalidated, whatever the new answer
/// puts there.
pub proof fn lemma_wildcard_current_never_invalidated(new: Ty, v: crate::term::BoundVar)
    ensures
        spec_aggregate_tys(new, Ty::BoundVar(v)) == Ok::<bool, Fatal>(false),
{
}

/// A position the new answer leaves open (a bound-variable wildcard) always
/// may invalidate a position the aggregate holds concrete.
pub proof fn lemma_wildcard_new_always_invalidates(v: crate::term::BoundVar, current: Ty)
    requires
        !(current matches Ty::BoundVar(_)),
    ensures
        spec_aggregate_tys(Ty::BoundVar(v), current) == Ok::<bool, Fatal>(true),
{
}

/// Two placeholder positions invalidate exactly when the placeholders
/// differ.
pub proof fn lemma_placeholders_compare_by_identity(p1: PlaceholderIndex, p2: PlaceholderIndex)
    ensures
        spec_aggregate_tys(Ty::Placeholder(p1), Ty::Placeholder(p2)) == Ok::<bool, Fatal>(p1 != p2),
{
}

/// Comparing two generic arguments of differing kind is a fatal broken
/// invariant, kept apart from every recoverable outcome.
pub proof fn lemma_kind_mismatch_is_fatal(new: GenericArg, current: GenericArg)
    requires
        crate::infer::arg_kind(new) != crate::infer::arg_kind(current),
    ensures
        spec_aggregate_generic_args(new, current) == Err::<bool, Fatal>(Fatal::KindMismatch),
{
    match (new, current) {
        (GenericArg::Ty(_), GenericArg::Ty(_)) => {},
        (GenericArg::Lifetime(_), GenericArg::Lifetime(_)) => {},
        (GenericArg::Const(_), GenericArg::Const(_)) => {},
        _ => {},
    }
}

/// Whether a prospective new answer substitution may invalidate (make less
/// general) the current aggregated answer for the same canonical template.
/// Positions are compared pairwise, left to right, up to the shorter list.
pub fn may_invalidate(new: &Substitution, current: &Canonical<Substitution>) -> (r: Result<
    bool,
    Fatal,
>)
    ensures
        r == spec_aggregate_substs(*new, current.value, 0),
{
    aggregate_substs(new, &current.value)
}

/// Scans two substitutions position by position, as `may_invalidate` does.
pub fn aggregate_substs(new: &Substitution, current: &Substitution) -> (r: Result<bool, Fatal>)
    ensures
        r == spec_aggregate_substs(*new, *current, 0),
{
    let n = new.len();
    let m = current.len();
    let mut i: usize = 0;
    loop
        invariant
            i <= n,
            n == new@.len(),
            m == current@.len(),
            spec_aggregate_substs(*new, *current, 0) == spec_aggregate_substs(
                *new,
                *current,
                i as nat,
            ),
        decreases n - i,
    {
        if i >= n || i >= m {
            return Ok(false);
        }
        match aggregate_generic_args(&new[i], &current[i]) {
            Err(f) => {
                return Err(f);
            },
            Ok(true) => {
                return Ok(true);
            },
            Ok(false) => {
                i = i + 1;
            },
        }
    }
}

/// Compares one pair of generic arguments. The caller must have
/// established that the two share a kind; a mismatch is fatal.
pub fn aggregate_generic_args(new: &GenericArg, current: &GenericArg) -> (r: Result<bool, Fatal>)
    ensures
        r == spec_aggregate_generic_args(*new, *current),
    decreases *new, 0nat,
{
    match (new, current) {
        (GenericArg::Ty(t1), GenericArg::Ty(t2)) => aggregate_tys(t1, t2),
        (GenericArg::Lifetime(l1), GenericArg::Lifetime(l2)) => Ok(aggregate_lifetimes(l1, l2)),
        (GenericArg::Const(c1), GenericArg::Const(c2)) => aggregate_consts(c1, c2),
        _ => Err(Fatal::KindMismatch),
    }
}

/// Whether the two types could be unequal.
pub fn aggregate_tys(new: &Ty, current: &Ty) -> (r: Result<bool, Fatal>)
    ensures
        r == spec_aggregate_tys(*new, *current),
    decreases *new, 1nat,
{
    match (new, current) {
        (_, Ty::BoundVar(_)) => Ok(false),
        (Ty::BoundVar(_), _) => Ok(true),
        (Ty::InferenceVar(_), _) => Err(Fatal::FreeInferenceVar),
        (_, Ty::InferenceVar(_)) => Err(Fatal::FreeInferenceVar),
        (Ty::Placeholder(p1), Ty::Placeholder(p2)) => Ok(aggregate_placeholders(p1, p2)),
        (Ty::Projection(p1), Ty::Projection(p2)) => aggregate_projection_tys(p1, p2),
        (Ty::Opaque(o1), Ty::Opaque(o2)) => aggregate_opaque_ty_tys(o1, o2),
        (Ty::Adt(id1, s1), Ty::Adt(id2, s2)) => aggregate_name_and_substs(*id1, s1, *id2, s2),
        (Ty::AssociatedType(id1, s1), Ty::AssociatedType(id2, s2)) => aggregate_name_and_substs(
            *id1,
            s1,
            *id2,
            s2,
        ),
        (Ty::Scalar(a), Ty::Scalar(b)) => Ok(a != b),
        (Ty::Str, Ty::Str) => Ok(false),
        (Ty::Tuple(a1, s1), Ty::Tuple(a2, s2)) => aggregate_name_and_substs(*a1, s1, *a2, s2),
        (Ty::Slice(t1), Ty::Slice(t2)) => aggregate_tys(t1, t2),
        (Ty::FnDef(id1, s1), Ty::FnDef(id2, s2)) => aggregate_name_and_substs(*id1, s1, *id2, s2),
        (Ty::Ref(m1, l1, t1), Ty::Ref(m2, l2, t2)) => {
            if m1 != m2 {
                Ok(true)
            } else if aggregate_lifetimes(l1, l2) {
                Ok(true)
            } else {
                aggregate_tys(t1, t2)
            }
        },
        (Ty::Raw(m1, t1), Ty::Raw(m2, t2)) => {
            if m1 != m2 {
                Ok(true)
            } else {
                aggregate_tys(t1, t2)
            }
        },
        (Ty::Never, Ty::Never) => Ok(false),
        (Ty::Array(t1, c1), Ty::Array(t2, c2)) => {
            match aggregate_tys(t1, t2) {
                Err(f) => Err(f),
                Ok(true) => Ok(true),
                Ok(false) => aggregate_consts(c1, c2),
            }
        },
        (Ty::Closure(id1, s1), Ty::Closure(id2, s2)) => aggregate_name_and_substs(
            *id1,
            s1,
            *id2,
            s2,
        ),
        (Ty::Foreign(a), Ty::Foreign(b)) => Ok(a != b),
        (Ty::Error, Ty::Error) => Ok(false),
        _ => Ok(true),
    }
}

/// Whether the two lifetimes could be unequal: always assumed possible.
pub fn aggregate_lifetimes(new: &Lifetime, current: &Lifetime) -> (r: bool)
    ensures
        r == spec_aggregate_lifetimes(*new, *current),
{
    true
}

/// Whether the two consts could be unequal.
pub fn aggregate_consts(new: &Const, current: &Const) -> (r: Result<bool, Fatal>)
    ensures
        r == spec_aggregate_consts(*new, *current),
    decreases *new, 1nat,
{
    match aggregate_tys(&new.ty, &current.ty) {
        Err(f) => Err(f),
        Ok(true) => Ok(true),
        Ok(false) => match (&new.value, &current.value) {
            (_, ConstValue::BoundVar(_)) => Ok(false),
            (ConstValue::BoundVar(_), _) => Ok(true),
            (ConstValue::InferenceVar(_), _) => Err(Fatal::FreeInferenceVar),
            (_, ConstValue::InferenceVar(_)) => Err(Fatal::FreeInferenceVar),
            (ConstValue::Placeholder(p1), ConstValue::Placeholder(p2)) => Ok(
                aggregate_placeholders(p1, p2),
            ),
            (ConstValue::Concrete(v1), ConstValue::Concrete(v2)) => Ok(v1 != v2),
            _ => Ok(true),
        },
    }
}

/// Whether the two placeholders could be unequal: exactly when they differ.
pub fn aggregate_placeholders(new: &PlaceholderIndex, current: &PlaceholderIndex) -> (r: bool)
    ensures
        r == spec_aggregate_placeholders(*new, *current),
{
    new != current
}

pub fn aggregate_projection_tys(new: &ProjectionTy, current: &ProjectionTy) -> (r: Result<
    bool,
    Fatal,
>)
    ensures
        r == spec_aggregate_projection_tys(*new, *current),
    decreases *new, 2nat,
{
    aggregate_name_and_substs(
        new.associated_ty_id,
        &new.substitution,
        current.associated_ty_id,
        &current.substitution,
    )
}

pub fn aggregate_opaque_ty_tys(new: &OpaqueTy, current: &OpaqueTy) -> (r: Result<bool, Fatal>)
    ensures
        r == spec_aggregate_opaque_ty_tys(*new, *current),
    decreases *new, 2nat,
{
    aggregate_name_and_substs(
        new.opaque_ty_id,
        &new.substitution,
        current.opaque_ty_id,
        &current.substitution,
    )
}

/// Compares two positions holding a nominal head with substitution lists.
pub fn aggregate_name_and_substs(
    new_name: u32,
    new_substitution: &Substitution,
    current_name: u32,
    current_substitution: &Substitution,
) -> (r: Result<bool, Fatal>)
    ensures
        r == spec_aggregate_name_and_substs(
            new_name,
            *new_substitution,
            current_name,
            *current_substitution,
        ),
    decreases *new_substitution, new_substitution@.len() + 1nat,
{
    if new_name != current_name {
        return Ok(true);
    }
    if new_substitution.len() != current_substitution.len() {
        return Err(Fatal::SubstLengthMismatch);
    }
    let n = new_substitution.len();
    let mut i: usize = 0;
    loop
        invariant
            i <= n,
            new_name == current_name,
            n == new_substitution@.len(),
            n == current_substitution@.len(),
            spec_aggregate_substs(*new_substitution, *current_substitution, 0)
                == spec_aggregate_substs(*new_substitution, *current_substitution, i as nat),
        decreases n - i,
    {
        if i >= n {
            return Ok(false);
        }
        match aggregate_generic_args(&new_substitution[i], &current_substitution[i]) {
            Err(f) => {
                return Err(f);
            },
            Ok(true) => {
                return Ok(true);
            },
            Ok(false) => {
                i = i + 1;
            },
        }
    }
}

} // verus!
