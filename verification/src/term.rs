//! The canonical term model: types, lifetimes, consts, generic arguments,
//! goals, substitutions, and the derived data carried between solving steps.

use vstd::prelude::*;

verus! {

/// Which sort of generic argument a variable slot stands for.
#[derive(Clone, Copy, Debug, PartialEq, Eq, Structural)]
pub enum VarKind {
    Ty,
    Lifetime,
    Const,
}

/// A bound variable: a de Bruijn index naming the enclosing binder, plus a
/// position within that binder's list of slots. In a canonical value the
/// outermost binder is the canonical variable list itself.
#[derive(Clone, Copy, Debug, PartialEq, Eq, Structural)]
pub struct BoundVar {
    pub debruijn: u32,
    pub index: u32,
}

/// A rigid placeholder minted by universal binder instantiation: a universe
/// (hygiene level) and a position within it. Placeholders unify only with
/// themselves or with a bound-variable wildcard.
#[derive(Clone, Copy, Debug, PartialEq, Eq, Structural)]
pub struct PlaceholderIndex {
    pub ui: u32,
    pub idx: u32,
}

/// Mutability marker of references and raw pointers.
#[derive(Clone, Copy, Debug, PartialEq, Eq, Structural)]
pub enum Mutability {
    Not,
    Mut,
}

/// A lifetime term.
#[derive(Clone, Copy, Debug, PartialEq, Eq, Structural)]
pub enum Lifetime {
    BoundVar(BoundVar),
    InferenceVar(u32),
    Placeholder(PlaceholderIndex),
    Static,
}

/// An associated-type projection head: the associated item and the
/// substitution its obligation is instantiated with.
pub struct ProjectionTy {
    pub associated_ty_id: u32,
    pub substitution: Substitution,
}

/// An opaque-type head.
pub struct OpaqueTy {
    pub opaque_ty_id: u32,
    pub substitution: Substitution,
}

/// A type term. Nominal heads carry an identifier and a substitution list;
/// composite shapes carry their structural components. The constructor set
/// is a representative core: one nominal head per flavor (datatype,
/// associated type, opaque type, function item, closure, foreign type) and
/// the primitive and composite shapes the invalidation rules distinguish;
/// further heads of the same flavors would add arms to the same case
/// analyses without changing any contract.
pub enum Ty {
    BoundVar(BoundVar),
    InferenceVar(u32),
    Placeholder(PlaceholderIndex),
    Projection(ProjectionTy),
    Opaque(OpaqueTy),
    Adt(u32, Substitution),
    AssociatedType(u32, Substitution),
    Scalar(u32),
    Str,
    Tuple(u32, Substitution),
    Slice(Box<Ty>),
    FnDef(u32, Substitution),
    Ref(Mutability, Lifetime, Box<Ty>),
    Raw(Mutability, Box<Ty>),
    Never,
    Array(Box<Ty>, Box<Const>),
    Closure(u32, Substitution),
    Foreign(u32),
    Error,
}

/// The value part of a const term.
#[derive(Clone, Copy, Debug, PartialEq, Eq, Structural)]
pub enum ConstValue {
    BoundVar(BoundVar),
    InferenceVar(u32),
    Placeholder(PlaceholderIndex),
    Concrete(u64),
}

/// A const term: its type together with its value.
pub struct Const {
    pub ty: Box<Ty>,
    pub value: ConstValue,
}

/// One generic argument: a type, a lifetime, or a const.
pub enum GenericArg {
    Ty(Ty),
    Lifetime(Lifetime),
    Const(Const),
}

/// An ordered mapping from a canonical template's bound-variable slots to
/// generic arguments; position `i` instantiates slot `i`.
pub type Substitution = Vec<GenericArg>;

/// A domain obligation: either "this head predicate holds of these
/// arguments" or an alias-equality obligation deferred by unification.
pub enum DomainGoal {
    Holds(u32, Substitution),
    AliasEq(ProjectionTy, Ty),
}

/// Which way a quantified goal binds its variables.
#[derive(Clone, Copy, Debug, PartialEq, Eq, Structural)]
pub enum QuantifierKind {
    ForAll,
    Exists,
}

/// A logical proposition to be proven or disproven.
pub enum Goal {
    Domain(DomainGoal),
    And(Box<Goal>, Box<Goal>),
    Not(Box<Goal>),
    Quantified(QuantifierKind, Vec<VarKind>, Box<Goal>),
}

/// A goal under a binder: the bound-variable slots (de Bruijn depth 0 in
/// the value) with their kinds, and the quantified goal itself.
pub struct Binders {
    pub binders: Vec<VarKind>,
    pub value: Goal,
}

/// A program clause: a (possibly quantified) implication whose consequence
/// can be resolved against a selected subgoal.
pub struct ProgramClause {
    pub binders: Vec<VarKind>,
    pub consequence: DomainGoal,
    pub conditions: Vec<Goal>,
}

/// The in-scope hypotheses a goal is evaluated under.
pub struct Environment {
    pub clauses: Vec<ProgramClause>,
}

/// A value paired with the environment it lives in.
pub struct InEnvironment<T> {
    pub environment: Environment,
    pub goal: T,
}

/// A region side-condition accumulated by unification: the first lifetime
/// must outlive the second.
pub enum Constraint {
    LifetimeOutlives(Lifetime, Lifetime),
}

/// The kind and originating universe of one canonical bound-variable slot.
#[derive(Clone, Copy, Debug, PartialEq, Eq, Structural)]
pub struct CanonicalVarKind {
    pub kind: VarKind,
    pub universe: u32,
}

/// A value with every free inference variable replaced by a slot in the
/// ordered `binders` list. A canonical value contains no free inference
/// variable; two canonical values are memo-key-equal iff structurally equal.
pub struct Canonical<T> {
    pub value: T,
    pub binders: Vec<CanonicalVarKind>,
}

/// A canonical value additionally quantified over its universes: the number
/// of distinct universes its slots and placeholders use after renumbering.
pub struct UCanonical<T> {
    pub canonical: Canonical<T>,
    pub universes: u32,
}

/// Translates the compressed universes of a `UCanonical` value back to the
/// universes in force while the value was built: position `i` holds the
/// original universe renumbered to `i`.
pub struct UniverseMap {
    pub universes: Vec<u32>,
}

/// A subgoal to be proven (`Positive`) or disproven (`Negative`).
pub enum Literal {
    Positive(InEnvironment<Goal>),
    Negative(InEnvironment<Goal>),
}

/// A partial derivation: the head substitution constructed so far, the
/// region constraints accumulated, the subgoals still pending, and the
/// subgoals delayed on a cyclic dependency.
pub struct ExClause {
    pub subst: Substitution,
    pub constraints: Vec<InEnvironment<Constraint>>,
    pub subgoals: Vec<Literal>,
    pub delayed_subgoals: Vec<InEnvironment<Goal>>,
}

/// A substitution together with the region constraints it was built under.
pub struct ConstrainedSubst {
    pub subst: Substitution,
    pub constraints: Vec<InEnvironment<Constraint>>,
}

/// An answer substitution: a constrained substitution plus the subgoals
/// whose resolution was postponed on a cyclic dependency.
pub struct AnswerSubst {
    pub subst: Substitution,
    pub constraints: Vec<InEnvironment<Constraint>>,
    pub delayed_subgoals: Vec<InEnvironment<Goal>>,
}

/// The recoverable "no solution" outcome: the terms genuinely cannot be
/// unified or the clause head cannot match. The driver tries the next
/// candidate; the session goes on.
#[derive(Clone, Copy, Debug, PartialEq, Eq, Structural)]
pub struct NoSolution;

/// A fatal internal-invariant violation: a precondition established
/// elsewhere in the session was broken. The session must be aborted;
/// recovering risks silently unsound answers.
#[derive(Clone, Copy, Debug, PartialEq, Eq, Structural)]
pub enum Fatal {
    /// Two arguments that the caller must have established to share a kind
    /// turned out to differ in kind.
    KindMismatch,
    /// A free inference variable survived into a canonical value.
    FreeInferenceVar,
    /// Two substitutions for one nominal head differ in length.
    SubstLengthMismatch,
}

/// The recoverable result channel, kept apart from the fatal channel.
pub type Fallible<T> = Result<T, NoSolution>;

} // verus!
