//! Retained expression checking results. Identity and diagnostics are separate.
//!
//! Publication checks structural coverage, not expression typing. Producers must
//! supply successful inference results; a scalar row is not a missing shape row.

use crate::declared::{dargs_view, DeclaredGenericArg, DeclaredType};
use crate::hir::{
    post_order, post_order_list, post_order_roots, ConstRef, Expr, ExprId, ExprKind, FunctionRef, IndexArg,
    KeyFormKind, MatchPattern,
};
use crate::index::{
    NonEmpty, DagId, IndexCardinality, IndexRefV, IndexTypeRef, ResolvedName, Symbol, MAX_INDEX_CARDINALITY,
};
use crate::materialized_shape::MaterializedShape;
use crate::rules::{BinOp, Span, UnaryOp};
use crate::builtin_call::BuiltinFnName;
use crate::static_index::{
    static_check_v, Readiness, StaticIndexError, StaticIndexRequirement, StaticIndexUse,
};
use crate::types::{ArgV, TimeScale, TypeV};
use std::collections::{HashMap, HashSet};
use std::sync::Arc;
use vstd::prelude::*;

verus! {

broadcast use {vstd::std_specs::vec::axiom_vec_index_decreases, vstd::std_specs::hash::group_hash_axioms};

/// The semantic revision of a body; facts checked against one revision are
/// never published for another.
#[derive(Clone, Copy, Debug, PartialEq, Eq, Structural, Hash)]
pub struct BodyRevision(pub u64);

/// The owner and revision that one checking pass ran against.
#[derive(Clone, Copy, Debug, PartialEq, Eq, Structural)]
pub struct CheckingEnvironment {
    pub owner: DagId,
    pub revision: BodyRevision,
}

impl CheckingEnvironment {
    /// One shared environment for all rows of a checking pass.
    pub fn new(owner: DagId, revision: BodyRevision) -> (r: Arc<CheckingEnvironment>)
        ensures
            r.owner == owner,
            r.revision == revision,
    {
        Arc::new(CheckingEnvironment { owner, revision })
    }
}

/// The materialization shape recorded for a value.
#[derive(Clone, Debug, PartialEq, Eq)]
pub enum ExpressionShape {
    Scalar,
    Concrete(MaterializedShape),
    /// Axes whose cardinalities require a static or lexical generic binding.
    Symbolic(Vec<IndexTypeRef>),
}

/// Value-level view of a shape.
pub enum ShapeV {
    Scalar,
    Concrete(Seq<nat>),
    Symbolic(Seq<IndexRefV>),
}

impl View for ExpressionShape {
    type V = ShapeV;

    open spec fn view(&self) -> ShapeV {
        match self {
            ExpressionShape::Scalar => ShapeV::Scalar,
            ExpressionShape::Concrete(s) => ShapeV::Concrete(
                s.axes_view().map_values(|c: IndexCardinality| c@),
            ),
            ExpressionShape::Symbolic(v) => ShapeV::Symbolic(v@.map_values(|i: IndexTypeRef| i@)),
        }
    }
}

/// A checked constructor application.
#[derive(Clone, Debug, PartialEq, Eq)]
pub struct ConstructorApplication {
    /// Definition identity used by field contracts, distinct from runtime owner.
    pub definition: ResolvedName,
    pub runtime_type: ResolvedName,
    pub constructor: Symbol,
    pub generic_args: Vec<DeclaredGenericArg>,
    /// Empty means no constraints; missing a listed field's contract is an error.
    pub required_constraints: Vec<Symbol>,
}

/// The constructor a match arm was resolved to.
#[derive(Clone, Copy, Debug, PartialEq, Eq, Structural)]
pub struct ConstructorMatch {
    pub definition: ResolvedName,
    pub runtime_type: ResolvedName,
    pub constructor: Symbol,
}

/// Operands that only carry metadata for their enclosing call.
#[derive(Clone, Copy, Debug, PartialEq, Eq, Structural)]
pub enum ContextualOperand {
    String,
    OffsetDateTime,
    CivilDateTime,
    ZonedDateTime,
    TimeZone,
    TypeSystem,
}

/// What checking concluded about one expression.
#[derive(Clone, Debug, PartialEq, Eq)]
pub enum ExpressionFact {
    Value {
        checked_type: DeclaredType,
        shape: ExpressionShape,
        constructor: Option<Box<ConstructorApplication>>,
    },
    Contextual(ContextualOperand),
}

/// The key of a host function.
#[derive(Clone, Copy, Debug, PartialEq, Eq, Structural, Hash)]
pub struct ExternFnKey {
    pub plugin: Symbol,
    pub name: Symbol,
}

/// The operation of a checked expression. Direct requirements compose over
/// the record's children.
#[derive(Clone, Copy, Debug, PartialEq, Eq, Structural)]
pub enum ExpressionOperation {
    Literal,
    Contextual(ContextualOperand),
    GraphReference(ResolvedName),
    Constant(ConstRef),
    Local(u64),
    Binary(BinOp),
    Unary(UnaryOp),
    BuiltinCall(BuiltinFnName),
    EpochCall(TimeScale),
    HostCall(ExternFnKey),
    Conditional,
    Conversion,
    DisplayTimezone,
    Field,
    Constructor,
    MapLiteral,
    Comprehension,
    Index,
    Scan,
    Unfold,
    Key,
    Match,
    Variant,
    DagCall(DagId),
}

/// A nominal identity that a checked root observed.
#[derive(Clone, Debug, PartialEq, Eq)]
pub enum NominalObservation {
    Field { identity: ResolvedName, field: Symbol },
    Constructor { identity: ResolvedName, constructor: ResolvedName },
    TypeArgument(ResolvedName),
    IndexLabel { identity: IndexTypeRef, variant: Symbol },
    IndexArgument(IndexTypeRef),
}

/// Why checked facts cannot be published or used.
#[derive(Clone, Debug, PartialEq, Eq)]
pub enum ExpressionFactsError {
    /// An expression had no identity.
    Unassigned,
    /// No source span is recorded for the expression.
    Source(ExprId),
    /// An unresolved expression cannot have checked facts.
    Unresolved,
    /// Expression facts belong to another semantic environment or revision.
    WrongEnvironment,
    Missing(ExprId),
    /// A checked expression references an unavailable index.
    MissingIndex(Box<IndexTypeRef>),
    Extra(ExprId),
    Incompatible(ExprId),
    /// One expression identity has conflicting diagnostic origins.
    ConflictingOrigin(ExprId),
    /// The expression has undischarged static obligations.
    Deferred(ExprId),
    /// Contextual metadata is not an executable value.
    Contextual(ExprId),
    StaticIndex(StaticIndexError),
}

/// Value-level view of an error.
pub enum FactsErrV {
    Unassigned,
    Source(ExprId),
    Unresolved,
    WrongEnvironment,
    Missing(ExprId),
    MissingIndex(IndexRefV),
    Extra(ExprId),
    Incompatible(ExprId),
    ConflictingOrigin(ExprId),
    Deferred(ExprId),
    Contextual(ExprId),
    StaticIndex(StaticIndexError),
}

impl View for ExpressionFactsError {
    type V = FactsErrV;

    open spec fn view(&self) -> FactsErrV {
        match self {
            ExpressionFactsError::Unassigned => FactsErrV::Unassigned,
            ExpressionFactsError::Source(i) => FactsErrV::Source(*i),
            ExpressionFactsError::Unresolved => FactsErrV::Unresolved,
            ExpressionFactsError::WrongEnvironment => FactsErrV::WrongEnvironment,
            ExpressionFactsError::Missing(i) => FactsErrV::Missing(*i),
            ExpressionFactsError::MissingIndex(x) => FactsErrV::MissingIndex(x@),
            ExpressionFactsError::Extra(i) => FactsErrV::Extra(*i),
            ExpressionFactsError::Incompatible(i) => FactsErrV::Incompatible(*i),
            ExpressionFactsError::ConflictingOrigin(i) => FactsErrV::ConflictingOrigin(*i),
            ExpressionFactsError::Deferred(i) => FactsErrV::Deferred(*i),
            ExpressionFactsError::Contextual(i) => FactsErrV::Contextual(*i),
            ExpressionFactsError::StaticIndex(e) => FactsErrV::StaticIndex(*e),
        }
    }
}

/// A boolean result, viewed.
pub open spec fn rb(r: Result<bool, ExpressionFactsError>) -> Result<bool, FactsErrV> {
    match r {
        Ok(b) => Ok(b),
        Err(e) => Err(e@),
    }
}

/// Concrete cardinalities of the declared indexes that a body can see; a
/// declared index with `None` is not yet bound to a concrete size.
#[derive(Debug)]
pub struct IndexCardinalities {
    pub entries: Vec<(ResolvedName, Option<IndexCardinality>)>,
}

pub open spec fn card_v(c: Option<IndexCardinality>) -> Option<nat> {
    match c {
        Some(x) => Some(x@),
        None => None,
    }
}

/// The first entry registered under a name.
pub open spec fn lookup_cardinality(
    entries: Seq<(ResolvedName, Option<IndexCardinality>)>,
    r: ResolvedName,
) -> Option<Option<nat>>
    decreases entries.len(),
{
    if entries.len() == 0 {
        None
    } else if entries[0].0 == r {
        Some(card_v(entries[0].1))
    } else {
        lookup_cardinality(entries.drop_first(), r)
    }
}

/// The cardinality of an axis: a symbolic range waits for a binding, a constant
/// range has its own size, a declared index has its registered size, and an
/// index with no definition is an error.
pub open spec fn cardinality_v(cat: IndexCardinalities, i: IndexRefV) -> Result<Option<nat>, FactsErrV> {
    match i {
        IndexRefV::NatRange(f) => if f.1.len() != 0 {
            Ok(None)
        } else if 1 <= f.0 <= MAX_INDEX_CARDINALITY {
            Ok(Some(f.0))
        } else {
            Err(FactsErrV::MissingIndex(i))
        },
        IndexRefV::Declared(r) => match lookup_cardinality(cat.entries@, r) {
            Some(c) => Ok(c),
            None => Err(FactsErrV::MissingIndex(i)),
        },
    }
}

pub open spec fn rc(r: Result<Option<IndexCardinality>, ExpressionFactsError>) -> Result<
    Option<nat>,
    FactsErrV,
> {
    match r {
        Ok(c) => Ok(card_v(c)),
        Err(e) => Err(e@),
    }
}

/// The cardinality of an axis once it is concrete.
pub fn checked_index_cardinality(cat: &IndexCardinalities, index: &IndexTypeRef) -> (r: Result<
    Option<IndexCardinality>,
    ExpressionFactsError,
>)
    ensures
        rc(r) == cardinality_v(*cat, index@),
{
    match index {
        IndexTypeRef::NatRange(form) => {
            if !form.is_constant() {
                return Ok(None);
            }
            match index.concrete_nat_range() {
                Some(c) => Ok(Some(c)),
                None => Err(ExpressionFactsError::MissingIndex(Box::new(index.clone()))),
            }
        },
        IndexTypeRef::Declared(name) => {
            let mut i: usize = 0;
            proof {
                assert(cat.entries@.subrange(0, cat.entries@.len() as int) =~= cat.entries@);
            }
            while i < cat.entries.len()
                invariant
                    i <= cat.entries@.len(),
                    index@ == IndexRefV::Declared(*name),
                    lookup_cardinality(cat.entries@, *name) == lookup_cardinality(
                        cat.entries@.subrange(i as int, cat.entries@.len() as int),
                        *name,
                    ),
                decreases cat.entries@.len() - i,
            {
                let ghost rest = cat.entries@.subrange(i as int, cat.entries@.len() as int);
                proof {
                    assert(rest.drop_first() =~= cat.entries@.subrange(
                        i + 1,
                        cat.entries@.len() as int,
                    ));
                    assert(rest[0] == cat.entries@[i as int]);
                }
                if cat.entries[i].0 == *name {
                    return Ok(cat.entries[i].1);
                }
                i += 1;
            }
            Err(ExpressionFactsError::MissingIndex(Box::new(index.clone())))
        },
    }
}

/// The operation an expression node performs, or `None` for an unresolved node.
pub open spec fn operation_of(k: ExprKind) -> Option<ExpressionOperation> {
    match k {
        ExprKind::Error => None,
        ExprKind::Number | ExprKind::Integer(_) | ExprKind::Bool(_)
        | ExprKind::QuantityLiteral { .. } => Some(ExpressionOperation::Literal),
        ExprKind::StringLiteral => Some(ExpressionOperation::Contextual(ContextualOperand::String)),
        ExprKind::OffsetDateTimeLiteral => Some(
            ExpressionOperation::Contextual(ContextualOperand::OffsetDateTime),
        ),
        ExprKind::CivilDateTimeLiteral => Some(
            ExpressionOperation::Contextual(ContextualOperand::CivilDateTime),
        ),
        ExprKind::ZonedDateTimeLiteral => Some(
            ExpressionOperation::Contextual(ContextualOperand::ZonedDateTime),
        ),
        ExprKind::IanaTimeZoneLiteral => Some(
            ExpressionOperation::Contextual(ContextualOperand::TimeZone),
        ),
        ExprKind::TypeSystemRef => Some(
            ExpressionOperation::Contextual(ContextualOperand::TypeSystem),
        ),
        ExprKind::GraphRef(t) => Some(ExpressionOperation::GraphReference(t)),
        ExprKind::ConstRef(c) => Some(ExpressionOperation::Constant(c)),
        ExprKind::LocalRef(l) => Some(ExpressionOperation::Local(l)),
        ExprKind::BinOp(op) => Some(ExpressionOperation::Binary(op)),
        ExprKind::UnaryOp(op) => Some(ExpressionOperation::Unary(op)),
        ExprKind::FnCall(callee) => Some(
            match callee {
                FunctionRef::Builtin(b) => ExpressionOperation::BuiltinCall(b),
                FunctionRef::Epoch(s) => ExpressionOperation::EpochCall(s),
                FunctionRef::External { plugin, name } => ExpressionOperation::HostCall(
                    ExternFnKey { plugin, name },
                ),
            },
        ),
        ExprKind::If => Some(ExpressionOperation::Conditional),
        ExprKind::Convert { .. } => Some(ExpressionOperation::Conversion),
        ExprKind::DisplayTimezone { .. } => Some(ExpressionOperation::DisplayTimezone),
        ExprKind::FieldAccess { .. } => Some(ExpressionOperation::Field),
        ExprKind::ConstructorCall { .. } => Some(ExpressionOperation::Constructor),
        ExprKind::MapLiteral { .. } => Some(ExpressionOperation::MapLiteral),
        ExprKind::ForComp { .. } => Some(ExpressionOperation::Comprehension),
        ExprKind::IndexAccess { .. } => Some(ExpressionOperation::Index),
        ExprKind::Scan { .. } => Some(ExpressionOperation::Scan),
        ExprKind::Unfold { .. } => Some(ExpressionOperation::Unfold),
        ExprKind::KeyForm { .. } => Some(ExpressionOperation::Key),
        ExprKind::Match { .. } => Some(ExpressionOperation::Match),
        ExprKind::VariantLiteral(_) => Some(ExpressionOperation::Variant),
        ExprKind::DagCall { dag, .. } => Some(ExpressionOperation::DagCall(dag)),
    }
}

impl ExpressionOperation {
    /// The operation of an expression node; unresolved nodes have none.
    pub fn from_expr(expr: &Expr) -> (r: Result<ExpressionOperation, ExpressionFactsError>)
        ensures
            match operation_of(expr.kind) {
                Some(o) => r == Ok::<ExpressionOperation, ExpressionFactsError>(o),
                None => r matches Err(e) && e is Unresolved,
            },
    {
        match &expr.kind {
            ExprKind::Error => Err(ExpressionFactsError::Unresolved),
            ExprKind::Number | ExprKind::Integer(_) | ExprKind::Bool(_)
            | ExprKind::QuantityLiteral { .. } => Ok(ExpressionOperation::Literal),
            ExprKind::StringLiteral => Ok(ExpressionOperation::Contextual(ContextualOperand::String)),
            ExprKind::OffsetDateTimeLiteral => Ok(
                ExpressionOperation::Contextual(ContextualOperand::OffsetDateTime),
            ),
            ExprKind::CivilDateTimeLiteral => Ok(
                ExpressionOperation::Contextual(ContextualOperand::CivilDateTime),
            ),
            ExprKind::ZonedDateTimeLiteral => Ok(
                ExpressionOperation::Contextual(ContextualOperand::ZonedDateTime),
            ),
            ExprKind::IanaTimeZoneLiteral => Ok(
                ExpressionOperation::Contextual(ContextualOperand::TimeZone),
            ),
            ExprKind::TypeSystemRef => Ok(
                ExpressionOperation::Contextual(ContextualOperand::TypeSystem),
            ),
            ExprKind::GraphRef(t) => Ok(ExpressionOperation::GraphReference(*t)),
            ExprKind::ConstRef(c) => Ok(ExpressionOperation::Constant(*c)),
            ExprKind::LocalRef(l) => Ok(ExpressionOperation::Local(*l)),
            ExprKind::BinOp(op) => Ok(ExpressionOperation::Binary(*op)),
            ExprKind::UnaryOp(op) => Ok(ExpressionOperation::Unary(*op)),
            ExprKind::FnCall(callee) => Ok(
                match callee {
                    FunctionRef::Builtin(b) => ExpressionOperation::BuiltinCall(*b),
                    FunctionRef::Epoch(s) => ExpressionOperation::EpochCall(*s),
                    FunctionRef::External { plugin, name } => ExpressionOperation::HostCall(
                        ExternFnKey { plugin: *plugin, name: *name },
                    ),
                },
            ),
            ExprKind::If => Ok(ExpressionOperation::Conditional),
            ExprKind::Convert { .. } => Ok(ExpressionOperation::Conversion),
            ExprKind::DisplayTimezone { .. } => Ok(ExpressionOperation::DisplayTimezone),
            ExprKind::FieldAccess { .. } => Ok(ExpressionOperation::Field),
            ExprKind::ConstructorCall { .. } => Ok(ExpressionOperation::Constructor),
            ExprKind::MapLiteral { .. } => Ok(ExpressionOperation::MapLiteral),
            ExprKind::ForComp { .. } => Ok(ExpressionOperation::Comprehension),
            ExprKind::IndexAccess { .. } => Ok(ExpressionOperation::Index),
            ExprKind::Scan { .. } => Ok(ExpressionOperation::Scan),
            ExprKind::Unfold { .. } => Ok(ExpressionOperation::Unfold),
            ExprKind::KeyForm { .. } => Ok(ExpressionOperation::Key),
            ExprKind::Match { .. } => Ok(ExpressionOperation::Match),
            ExprKind::VariantLiteral(_) => Ok(ExpressionOperation::Variant),
            ExprKind::DagCall { dag, .. } => Ok(ExpressionOperation::DagCall(*dag)),
        }
    }

    /// Whether this operation is the one `expr` performs, compared on the
    /// borrowed node without building an owned operation.
    pub fn matches_expr(&self, expr: &Expr) -> (b: bool)
        ensures
            b == (operation_of(expr.kind) == Some(*self)),
    {
        match ExpressionOperation::from_expr(expr) {
            Ok(o) => o == *self,
            Err(_) => false,
        }
    }
}

/// The axes of an indexed type, outer to inner.
pub open spec fn axes_of(t: TypeV) -> Seq<IndexRefV>
    decreases t,
{
    match t {
        TypeV::Indexed(e, i) => seq![i] + axes_of(*e),
        _ => Seq::empty(),
    }
}

pub open spec fn ref_views(v: Seq<IndexTypeRef>) -> Seq<IndexRefV> {
    v.map_values(|i: IndexTypeRef| i@)
}

/// Sizes of the first `n` axes, left to right, stopping at the first error.
pub open spec fn sizes_v(cat: IndexCardinalities, axes: Seq<IndexRefV>, n: int) -> Result<
    Seq<Option<nat>>,
    FactsErrV,
>
    decreases n,
{
    if n <= 0 || n > axes.len() {
        Ok(Seq::empty())
    } else {
        match sizes_v(cat, axes, n - 1) {
            Err(e) => Err(e),
            Ok(s) => match cardinality_v(cat, axes[n - 1]) {
                Err(e) => Err(e),
                Ok(c) => Ok(s.push(c)),
            },
        }
    }
}

/// A recorded shape agrees with a checked type: a scalar has no axes, a
/// concrete shape lists exactly the axis cardinalities, and a symbolic shape
/// lists the axes themselves when some axis is not yet concrete.
pub open spec fn shape_matches_v(shape: ShapeV, t: TypeV, cat: IndexCardinalities) -> Result<
    bool,
    FactsErrV,
> {
    match sizes_v(cat, axes_of(t), axes_of(t).len() as int) {
        Err(e) => Err(e),
        Ok(sizes) => Ok(shape_agrees(shape, axes_of(t), sizes)),
    }
}

/// A shape against the axes of a type and their current sizes.
pub open spec fn shape_agrees(shape: ShapeV, axes: Seq<IndexRefV>, sizes: Seq<Option<nat>>) -> bool {
    match shape {
        ShapeV::Scalar => axes.len() == 0,
        ShapeV::Concrete(c) => c.len() == axes.len() && forall|i: int|
            0 <= i < c.len() ==> #[trigger] sizes[i] == Some(c[i]),
        ShapeV::Symbolic(sym) => axes.len() > 0 && (exists|i: int|
            0 <= i < sizes.len() && #[trigger] sizes[i] is None) && sym == axes,
    }
}

/// The axes of a declared type, outer to inner.
fn declared_axes(ty: &DeclaredType) -> (r: Vec<IndexTypeRef>)
    ensures
        ref_views(r@) == axes_of(ty@),
    decreases ty,
{
    match ty {
        DeclaredType::Indexed { element, index } => {
            let rest = declared_axes(element);
            let mut r: Vec<IndexTypeRef> = Vec::new();
            r.push(index.clone());
            let mut i: usize = 0;
            while i < rest.len()
                invariant
                    i <= rest@.len(),
                    r@.len() == i + 1,
                    r@[0]@ == index@,
                    forall|j: int| 1 <= j <= i ==> #[trigger] r@[j]@ == rest@[j - 1]@,
                decreases rest@.len() - i,
            {
                r.push(rest[i].clone());
                i += 1;
            }
            proof {
                let lhs = ref_views(r@);
                let rhs = seq![index@] + ref_views(rest@);
                assert forall|k: int| 0 <= k < lhs.len() implies lhs[k] == rhs[k] by {
                    if k > 0 {
                        assert(r@[k]@ == rest@[k - 1]@);
                    }
                }
                assert(lhs =~= rhs);
            }
            r
        },
        _ => {
            let r: Vec<IndexTypeRef> = Vec::new();
            proof {
                assert(ref_views(r@) =~= Seq::<IndexRefV>::empty());
            }
            r
        },
    }
}

proof fn lemma_sizes_len(cat: IndexCardinalities, axes: Seq<IndexRefV>, n: int)
    requires
        0 <= n <= axes.len(),
    ensures
        sizes_v(cat, axes, n) matches Ok(s) ==> s.len() == n,
    decreases n,
{
    if n > 0 {
        lemma_sizes_len(cat, axes, n - 1);
    }
}

proof fn lemma_sizes_err(cat: IndexCardinalities, axes: Seq<IndexRefV>, n: int, m: int)
    requires
        0 <= n <= m <= axes.len(),
        sizes_v(cat, axes, n) is Err,
    ensures
        sizes_v(cat, axes, m) == sizes_v(cat, axes, n),
    decreases m - n,
{
    if m > n {
        lemma_sizes_err(cat, axes, n, m - 1);
    }
}

/// Whether two axis lists name the same axes in the same order.
fn same_axes(a: &Vec<IndexTypeRef>, b: &Vec<IndexTypeRef>) -> (r: bool)
    ensures
        r == (ref_views(a@) == ref_views(b@)),
{
    if a.len() != b.len() {
        proof {
            assert(ref_views(a@).len() != ref_views(b@).len());
        }
        return false;
    }
    let mut i: usize = 0;
    while i < a.len()
        invariant
            a@.len() == b@.len(),
            i <= a@.len(),
            forall|j: int| 0 <= j < i ==> #[trigger] a@[j]@ == b@[j]@,
        decreases a@.len() - i,
    {
        if !a[i].matches_ref(&b[i]) {
            proof {
                assert(ref_views(a@)[i as int] != ref_views(b@)[i as int]);
            }
            return false;
        }
        i += 1;
    }
    proof {
        assert(ref_views(a@) =~= ref_views(b@));
    }
    true
}

impl ExpressionShape {
    /// Whether the recorded shape agrees with the checked type under the
    /// current index cardinalities.
    pub fn matches_type(&self, checked_type: &DeclaredType, cat: &IndexCardinalities) -> (r: Result<
        bool,
        ExpressionFactsError,
    >)
        ensures
            rb(r) == shape_matches_v(self@, checked_type@, *cat),
    {
        let axes = declared_axes(checked_type);
        let ghost av = ref_views(axes@);
        let mut sizes: Vec<Option<IndexCardinality>> = Vec::new();
        let mut i: usize = 0;
        assert(axes_of(checked_type@) == av);
        assert(sizes@.map_values(|c: Option<IndexCardinality>| card_v(c)) =~= Seq::<
            Option<nat>,
        >::empty());
        while i < axes.len()
            invariant
                i <= axes@.len(),
                av == ref_views(axes@),
                av.len() == axes@.len(),
                axes_of(checked_type@) == av,
                sizes_v(*cat, av, i as int) == Ok::<Seq<Option<nat>>, FactsErrV>(
                    sizes@.map_values(|c: Option<IndexCardinality>| card_v(c)),
                ),
                sizes@.len() == i,
            decreases axes@.len() - i,
        {
            let c = checked_index_cardinality(cat, &axes[i]);
            proof {
                assert(av[i as int] == axes@[i as int]@);
            }
            match c {
                Err(e) => {
                    proof {
                        lemma_sizes_err(*cat, av, i + 1, av.len() as int);
                    }
                    return Err(e);
                },
                Ok(c) => {
                    let ghost before = sizes@;
                    sizes.push(c);
                    proof {
                        assert(sizes@.map_values(|c: Option<IndexCardinality>| card_v(c))
                            =~= before.map_values(|c: Option<IndexCardinality>| card_v(c)).push(
                            card_v(c),
                        ));
                    }
                },
            }
            i += 1;
        }
        let ghost sv = sizes@.map_values(|c: Option<IndexCardinality>| card_v(c));
        assert(axes_of(checked_type@) == av);
        match self {
            ExpressionShape::Scalar => Ok(axes.len() == 0),
            ExpressionShape::Concrete(shape) => {
                if shape.rank() != axes.len() {
                    return Ok(false);
                }
                let mut j: usize = 0;
                while j < axes.len()
                    invariant
                        j <= axes@.len(),
                        sizes@.len() == axes@.len(),
                        axes_of(checked_type@) == av,
                        av.len() == axes@.len(),
                        sizes_v(*cat, av, av.len() as int) == Ok::<Seq<Option<nat>>, FactsErrV>(sv),
                        *self == ExpressionShape::Concrete(*shape),
                        shape.axes_view().len() == axes@.len(),
                        sv == sizes@.map_values(|c: Option<IndexCardinality>| card_v(c)),
                        forall|k: int|
                            0 <= k < j ==> #[trigger] sv[k] == Some(shape.axes_view()[k]@),
                    decreases axes@.len() - j,
                {
                    let actual = shape.axes().get(j).get();
                    let ok = match sizes[j] {
                        Some(c) => c.get() == actual,
                        None => false,
                    };
                    if !ok {
                        proof {
                            let cv = shape.axes_view().map_values(|c: IndexCardinality| c@);
                            assert(self@ == ShapeV::Concrete(cv));
                            assert(sv[j as int] != Some(cv[j as int]));
                        }
                        return Ok(false);
                    }
                    j += 1;
                }
                proof {
                    let cv = shape.axes_view().map_values(|c: IndexCardinality| c@);
                    assert forall|k: int| 0 <= k < cv.len() implies #[trigger] sv[k] == Some(cv[k]) by {
                        assert(sv[k] == Some(shape.axes_view()[k]@));
                    }
                }
                Ok(true)
            },
            ExpressionShape::Symbolic(symbolic) => {
                if axes.len() == 0 {
                    return Ok(false);
                }
                let mut any_none = false;
                let mut j: usize = 0;
                while j < sizes.len()
                    invariant
                        j <= sizes@.len(),
                        axes_of(checked_type@) == av,
                        sizes_v(*cat, av, av.len() as int) == Ok::<Seq<Option<nat>>, FactsErrV>(sv),
                        sv == sizes@.map_values(|c: Option<IndexCardinality>| card_v(c)),
                        any_none == (exists|k: int| 0 <= k < j && #[trigger] sv[k] is None),
                    decreases sizes@.len() - j,
                {
                    if sizes[j].is_none() {
                        any_none = true;
                        assert(sv[j as int] is None);
                    }
                    j += 1;
                }
                if !any_none {
                    return Ok(false);
                }
                Ok(same_axes(symbolic, &axes))
            },
        }
    }
}

/// A checked type is ready to run once every axis, key and index argument it
/// mentions has a concrete size and every Nat argument is constant.
pub open spec fn type_ready_v(t: TypeV, cat: IndexCardinalities) -> Result<bool, FactsErrV>
    decreases t, 0int,
{
    match t {
        TypeV::Indexed(e, i) => match cardinality_v(cat, i) {
            Err(x) => Err(x),
            Ok(c) => match type_ready_v(*e, cat) {
                Err(x) => Err(x),
                Ok(b) => Ok(c is Some && b),
            },
        },
        TypeV::Key(i) => match cardinality_v(cat, i) {
            Err(x) => Err(x),
            Ok(c) => Ok(c is Some),
        },
        TypeV::IndexArg(i) => match cardinality_v(cat, i) {
            Err(x) => Err(x),
            Ok(c) => Ok(c is Some),
        },
        TypeV::Struct(_, args) => args_ready_v(args, args.len() as int, cat),
        _ => Ok(true),
    }
}

/// Readiness of the first `n` generic arguments, all of them inspected in order.
pub open spec fn args_ready_v(args: Seq<ArgV>, n: int, cat: IndexCardinalities) -> Result<
    bool,
    FactsErrV,
>
    decreases args, n,
{
    if n <= 0 || n > args.len() {
        Ok(true)
    } else {
        match args_ready_v(args, n - 1, cat) {
            Err(x) => Err(x),
            Ok(b) => match arg_ready_v(args[n - 1], cat) {
                Err(x) => Err(x),
                Ok(c) => Ok(b && c),
            },
        }
    }
}

pub open spec fn arg_ready_v(a: ArgV, cat: IndexCardinalities) -> Result<bool, FactsErrV>
    decreases a, 0int,
{
    match a {
        ArgV::Nat(f) => Ok(f.1.len() == 0),
        ArgV::Type(t) => type_ready_v(*t, cat),
        ArgV::Index(i) => match cardinality_v(cat, i) {
            Err(x) => Err(x),
            Ok(c) => Ok(c is Some),
        },
        ArgV::Dim(_) => Ok(true),
    }
}

proof fn lemma_args_ready_err(args: Seq<ArgV>, n: int, m: int, cat: IndexCardinalities)
    requires
        0 <= n <= m <= args.len(),
        args_ready_v(args, n, cat) is Err,
    ensures
        args_ready_v(args, m, cat) == args_ready_v(args, n, cat),
    decreases m - n,
{
    if m > n {
        lemma_args_ready_err(args, n, m - 1, cat);
    }
}

fn card_is_some(r: Result<Option<IndexCardinality>, ExpressionFactsError>) -> (b: Result<
    bool,
    ExpressionFactsError,
>)
    ensures
        rb(b) == (match rc(r) {
            Err(x) => Err::<bool, FactsErrV>(x),
            Ok(c) => Ok(c is Some),
        }),
{
    match r {
        Err(e) => Err(e),
        Ok(c) => Ok(c.is_some()),
    }
}

/// Whether a checked type can run now.
pub fn type_is_ready(ty: &DeclaredType, cat: &IndexCardinalities) -> (r: Result<
    bool,
    ExpressionFactsError,
>)
    ensures
        rb(r) == type_ready_v(ty@, *cat),
    decreases ty, 0int,
{
    match ty {
        DeclaredType::Indexed { element, index } => {
            let c = card_is_some(checked_index_cardinality(cat, index))?;
            let e = type_is_ready(element, cat)?;
            Ok(c && e)
        },
        DeclaredType::Key(index) | DeclaredType::IndexArg(index) => card_is_some(
            checked_index_cardinality(cat, index),
        ),
        DeclaredType::Struct(_, args) => {
            let ghost view = dargs_view(*args, args@.len() as int);
            proof {
                crate::declared::lemma_dargs_view(*args, args@.len() as int);
            }
            let mut ready = true;
            let mut i: usize = 0;
            #[verifier::loop_isolation(false)]
            while i < args.len()
                invariant
                    i <= args@.len(),
                    view == dargs_view(*args, args@.len() as int),
                    view.len() == args@.len(),
                    forall|j: int| 0 <= j < view.len() ==> #[trigger] view[j] == args@[j]@,
                    args_ready_v(view, i as int, *cat) == Ok::<bool, FactsErrV>(ready),
                decreases args@.len() - i,
            {
                proof {
                    assert(decreases_to!(*ty => args@[i as int]));
                    assert(view[i as int] == args@[i as int]@);
                }
                let step = match &args[i] {
                    DeclaredGenericArg::Nat(form) => Ok(form.is_constant()),
                    DeclaredGenericArg::Type(t) => type_is_ready(t, cat),
                    DeclaredGenericArg::Index(index) => card_is_some(
                        checked_index_cardinality(cat, index),
                    ),
                    DeclaredGenericArg::Dim(_) => Ok(true),
                };
                assert(rb(step) == arg_ready_v(view[i as int], *cat));
                let value = match step {
                    Ok(v) => v,
                    Err(e) => {
                        proof {
                            lemma_args_ready_err(view, i + 1, view.len() as int, *cat);
                        }
                        return Err(e);
                    },
                };
                ready = ready && value;
                i += 1;
            }
            Ok(ready)
        },
        DeclaredType::Quantity(_) | DeclaredType::Complex(_) | DeclaredType::Bool
        | DeclaredType::Int | DeclaredType::Datetime(_) => Ok(true),
    }
}

/// One checked expression's facts.
#[derive(Clone, Debug, PartialEq, Eq)]
pub struct CheckedExpressionRecord {
    pub environment: Arc<CheckingEnvironment>,
    pub fact: ExpressionFact,
    pub operation: Arc<ExpressionOperation>,
    /// Identities of the operands, in order.
    pub children: Arc<Vec<ExprId>>,
    pub static_indexes: Vec<StaticIndexRequirement>,
    /// Canonical unit edges are resolved in the unit body's own fact scope.
    pub unit_dependencies: Arc<Vec<ResolvedName>>,
    /// The constructor each constructor pattern of a match resolved to, one
    /// entry per distinct constructor.
    pub constructor_matches: Vec<(ResolvedName, ConstructorMatch)>,
    /// Binder-aware nominal observations for a checked root.
    pub nominal_observations: Arc<Vec<NominalObservation>>,
}

/// The unit terms that a node depends on.
pub open spec fn units_of(k: ExprKind) -> Seq<ResolvedName> {
    match k {
        ExprKind::QuantityLiteral { unit } => unit@,
        ExprKind::Convert { target } => target@,
        _ => Seq::empty(),
    }
}

/// Every operand has an identity.
pub open spec fn ids_assigned(ops: Seq<Expr>) -> bool {
    forall|i: int| 0 <= i < ops.len() ==> (#[trigger] ops[i]).id is Some
}

/// A record describes exactly this node: its operation, its operands'
/// identities in order, and its unit dependencies.
pub open spec fn structure_matches_v(rec: CheckedExpressionRecord, e: Expr) -> bool {
    &&& operation_of(e.kind) == Some(*rec.operation)
    &&& rec.children@.len() == e.operands@.len()
    &&& forall|i: int|
        0 <= i < e.operands@.len() ==> #[trigger] e.operands@[i].id == Some(rec.children@[i])
    &&& rec.unit_dependencies@ == units_of(e.kind)
}

fn units(kind: &ExprKind) -> (r: Vec<ResolvedName>)
    ensures
        r@ == units_of(*kind),
{
    match kind {
        ExprKind::QuantityLiteral { unit } => unit.clone(),
        ExprKind::Convert { target } => target.clone(),
        _ => Vec::new(),
    }
}

impl CheckedExpressionRecord {
    /// A fresh row for `expr` holding `fact`; unresolved nodes and operands
    /// without identities cannot have rows.
    pub fn new(expr: &Expr, fact: ExpressionFact, environment: Arc<CheckingEnvironment>) -> (r: Result<
        Box<CheckedExpressionRecord>,
        ExpressionFactsError,
    >)
        ensures
            operation_of(expr.kind) is None ==> (r matches Err(e) && e is Unresolved),
            operation_of(expr.kind) is Some && !ids_assigned(expr.operands@) ==> (r matches Err(e)
                && e is Unassigned),
            operation_of(expr.kind) is Some && ids_assigned(expr.operands@) ==> (r matches Ok(rec)
                && structure_matches_v(*rec, *expr) && rec.fact == fact && rec.environment
                == environment && rec.static_indexes@.len() == 0
                && rec.constructor_matches@.len() == 0 && rec.nominal_observations@.len() == 0),
    {
        let operation = ExpressionOperation::from_expr(expr)?;
        let mut children: Vec<ExprId> = Vec::new();
        let mut i: usize = 0;
        while i < expr.operands.len()
            invariant
                i <= expr.operands@.len(),
                operation_of(expr.kind) == Some(operation),
                children@.len() == i,
                forall|j: int| 0 <= j < i ==> #[trigger] expr.operands@[j].id == Some(children@[j]),
            decreases expr.operands@.len() - i,
        {
            match expr.operands[i].id() {
                Ok(id) => children.push(id),
                Err(_) => {
                    return Err(ExpressionFactsError::Unassigned);
                },
            }
            i += 1;
        }
        Ok(
            Box::new(
                CheckedExpressionRecord {
                    environment,
                    fact,
                    operation: Arc::new(operation),
                    children: Arc::new(children),
                    static_indexes: Vec::new(),
                    unit_dependencies: Arc::new(units(&expr.kind)),
                    constructor_matches: Vec::new(),
                    nominal_observations: Arc::new(Vec::new()),
                },
            ),
        )
    }

    /// Identities of the operands, in order.
    pub fn children(&self) -> (r: &[ExprId])
        ensures
            r@ == self.children@,
    {
        self.children.as_slice()
    }

    /// Units this expression depends on.
    pub fn unit_dependencies(&self) -> (r: &[ResolvedName])
        ensures
            r@ == self.unit_dependencies@,
    {
        self.unit_dependencies.as_slice()
    }

    /// Nominal identities observed by this root.
    pub fn nominal_observations(&self) -> (r: &[NominalObservation])
        ensures
            r@ == self.nominal_observations@,
    {
        self.nominal_observations.as_slice()
    }

    /// Whether the row describes exactly this node.
    pub fn matches_structure(&self, expr: &Expr) -> (b: bool)
        ensures
            b == structure_matches_v(*self, *expr),
    {
        if !self.operation.matches_expr(expr) {
            return false;
        }
        let children = self.children();
        if children.len() != expr.operands.len() {
            return false;
        }
        let mut i: usize = 0;
        while i < children.len()
            invariant
                children@ == self.children@,
                children@.len() == expr.operands@.len(),
                i <= children@.len(),
                forall|j: int| 0 <= j < i ==> #[trigger] expr.operands@[j].id == Some(children@[j]),
            decreases children@.len() - i,
        {
            match expr.operands[i].id {
                Some(id) => {
                    if id != children[i] {
                        return false;
                    }
                },
                None => {
                    return false;
                },
            }
            i += 1;
        }
        let expected = units(&expr.kind);
        let actual = self.unit_dependencies();
        if expected.len() != actual.len() {
            return false;
        }
        let mut k: usize = 0;
        while k < actual.len()
            invariant
                actual@ == self.unit_dependencies@,
                expected@ == units_of(expr.kind),
                expected@.len() == actual@.len(),
                k <= actual@.len(),
                forall|j: int| 0 <= j < k ==> #[trigger] expected@[j] == actual@[j],
            decreases actual@.len() - k,
        {
            if expected[k] != actual[k] {
                return false;
            }
            k += 1;
        }
        proof {
            assert(expected@ =~= actual@);
        }
        true
    }
}

/// The constructors that the patterns of a match name.
pub open spec fn pattern_constructors(patterns: Seq<MatchPattern>) -> Set<ResolvedName> {
    Set::new(
        |c: ResolvedName|
            exists|i: int| 0 <= i < patterns.len() && patterns[i] == MatchPattern::Constructor(c),
    )
}

pub open spec fn has_target(m: Seq<(ResolvedName, ConstructorMatch)>, c: ResolvedName) -> bool {
    exists|j: int| 0 <= j < m.len() && #[trigger] m[j].0 == c
}

/// A match records one target per distinct constructor pattern, and any
/// other node records none.
pub open spec fn targets_match_v(e: Expr, rec: CheckedExpressionRecord) -> bool {
    match e.kind {
        ExprKind::Match { patterns } => pattern_constructors(patterns@).len()
            == rec.constructor_matches@.len() && forall|c: ResolvedName|
            #[trigger] pattern_constructors(patterns@).contains(c) ==> has_target(
                rec.constructor_matches@,
                c,
            ),
        _ => rec.constructor_matches@.len() == 0,
    }
}

fn has_target_exec(m: &Vec<(ResolvedName, ConstructorMatch)>, c: ResolvedName) -> (b: bool)
    ensures
        b == has_target(m@, c),
{
    let mut j: usize = 0;
    while j < m.len()
        invariant
            j <= m@.len(),
            forall|k: int| 0 <= k < j ==> #[trigger] m@[k].0 != c,
        decreases m@.len() - j,
    {
        if m[j].0 == c {
            return true;
        }
        j += 1;
    }
    false
}

/// Whether the recorded match targets cover exactly the constructor patterns.
pub fn matches_constructor_targets(expr: &Expr, record: &CheckedExpressionRecord) -> (b: bool)
    ensures
        b == targets_match_v(*expr, *record),
{
    let patterns = match &expr.kind {
        ExprKind::Match { patterns } => patterns,
        _ => {
            return record.constructor_matches.len() == 0;
        },
    };
    let mut expected: Vec<ResolvedName> = Vec::new();
    let mut i: usize = 0;
    while i < patterns.len()
        invariant
            i <= patterns@.len(),
            expected@.no_duplicates(),
            forall|c: ResolvedName|
                #[trigger] expected@.contains(c) <==> exists|k: int|
                    0 <= k < i && patterns@[k] == MatchPattern::Constructor(c),
        decreases patterns@.len() - i,
    {
        match patterns[i] {
            MatchPattern::Constructor(c) => {
                let ghost prev = expected@;
                let mut seen = false;
                let mut j: usize = 0;
                while j < expected.len()
                    invariant
                        expected@ == prev,
                        j <= expected@.len(),
                        seen == (exists|k: int| 0 <= k < j && expected@[k] == c),
                    decreases expected@.len() - j,
                {
                    if expected[j] == c {
                        seen = true;
                    }
                    j += 1;
                }
                assert(seen == prev.contains(c));
                if !seen {
                    expected.push(c);
                    proof {
                        assert(expected@ == prev.push(c));
                        lemma_push_no_dup(prev, c);
                    }
                }
                proof {
                    assert forall|d: ResolvedName| #[trigger] expected@.contains(d) <==> exists|k: int|
                        0 <= k < i + 1 && patterns@[k] == MatchPattern::Constructor(d) by {
                        lemma_push_contains(prev, c, d);
                        lemma_prefix_step(patterns@, i as int, d);
                    }
                }
            },
            MatchPattern::IndexLabel(_) => {},
        }
        i += 1;
    }
    proof {
        expected@.unique_seq_to_set();
        assert(expected@.to_set() =~= pattern_constructors(patterns@));
    }
    if expected.len() != record.constructor_matches.len() {
        return false;
    }
    let mut k: usize = 0;
    #[verifier::loop_isolation(false)]
    while k < expected.len()
        invariant
            k <= expected@.len(),
            expected@.to_set() == pattern_constructors(patterns@),
            forall|j: int| 0 <= j < k ==> has_target(record.constructor_matches@, #[trigger] expected@[j]),
        decreases expected@.len() - k,
    {
        if !has_target_exec(&record.constructor_matches, expected[k]) {
            proof {
                assert(pattern_constructors(patterns@).contains(expected@[k as int]));
            }
            return false;
        }
        k += 1;
    }
    proof {
        assert forall|c: ResolvedName| #[trigger] pattern_constructors(patterns@).contains(c) implies has_target(
            record.constructor_matches@,
            c,
        ) by {
            assert(expected@.to_set().contains(c));
            let j = choose|j: int| 0 <= j < expected@.len() && expected@[j] == c;
            assert(has_target(record.constructor_matches@, expected@[j]));
        }
    }
    true
}

proof fn lemma_push_contains(s: Seq<ResolvedName>, c: ResolvedName, d: ResolvedName)
    ensures
        s.push(c).contains(d) <==> (s.contains(d) || d == c),
{
    if s.contains(d) {
        let k = choose|k: int| 0 <= k < s.len() && s[k] == d;
        assert(s.push(c)[k] == d);
    }
    if d == c {
        assert(s.push(c)[s.len() as int] == d);
    }
    if s.push(c).contains(d) {
        let k = choose|k: int| 0 <= k < s.push(c).len() && s.push(c)[k] == d;
        if k < s.len() {
            assert(s[k] == d);
        }
    }
}

proof fn lemma_push_no_dup(s: Seq<ResolvedName>, c: ResolvedName)
    requires
        s.no_duplicates(),
        !s.contains(c),
    ensures
        s.push(c).no_duplicates(),
{
    assert forall|a: int, b: int| 0 <= a < s.push(c).len() && 0 <= b < s.push(c).len() && a != b implies s.push(c)[a] != s.push(c)[b] by {
        if a == s.len() as int {
            assert(s[b] != c);
        } else if b == s.len() as int {
            assert(s[a] != c);
        }
    }
}

proof fn lemma_prefix_step(p: Seq<MatchPattern>, i: int, d: ResolvedName)
    requires
        0 <= i < p.len(),
    ensures
        (exists|k: int| 0 <= k < i + 1 && p[k] == MatchPattern::Constructor(d)) <==> ((exists|k: int|
            0 <= k < i && p[k] == MatchPattern::Constructor(d)) || p[i] == MatchPattern::Constructor(d)),
{
    if exists|k: int| 0 <= k < i + 1 && p[k] == MatchPattern::Constructor(d) {
        let k = choose|k: int| 0 <= k < i + 1 && p[k] == MatchPattern::Constructor(d);
        if k < i {
            assert(exists|k: int| 0 <= k < i && p[k] == MatchPattern::Constructor(d));
        }
    }
}

/// The checked value type recorded for a node.
pub open spec fn value_type_v(records: Map<ExprId, Box<CheckedExpressionRecord>>, e: Expr) -> Result<
    TypeV,
    FactsErrV,
> {
    match e.id {
        None => Err(FactsErrV::Unassigned),
        Some(id) => if !records.contains_key(id) {
            Err(FactsErrV::Missing(id))
        } else {
            match records[id].fact {
                ExpressionFact::Value { checked_type, .. } => Ok(checked_type@),
                ExpressionFact::Contextual(_) => Err(FactsErrV::Incompatible(id)),
            }
        },
    }
}

fn value_type<'a>(records: &'a HashMap<ExprId, Box<CheckedExpressionRecord>>, expr: &Expr) -> (r:
    Result<&'a DeclaredType, ExpressionFactsError>)
    ensures
        match r {
            Ok(t) => value_type_v(records@, *expr) == Ok::<TypeV, FactsErrV>(t@),
            Err(x) => value_type_v(records@, *expr) == Err::<TypeV, FactsErrV>(x@),
        },
{
    let id = match expr.id {
        Some(id) => id,
        None => {
            return Err(ExpressionFactsError::Unassigned);
        },
    };
    match records.get(&id) {
        None => Err(ExpressionFactsError::Missing(id)),
        Some(record) => match &record.fact {
            ExpressionFact::Value { checked_type, .. } => Ok(checked_type),
            ExpressionFact::Contextual(_) => Err(ExpressionFactsError::Incompatible(id)),
        },
    }
}

/// A requirement names this operand, axis and use.
pub open spec fn req_matches(
    r: StaticIndexRequirement,
    operand: ExprId,
    axis: IndexRefV,
    usage: StaticIndexUse,
) -> bool {
    r.operand == operand && r.axis@ == axis && r.usage == usage
}

/// Walk the first `n` selections of an index access from the indexed value's
/// type `t0`, consuming one requirement per integer selection; `None` ends
/// the walk with no coverage.
pub open spec fn index_walk_v(
    e: Expr,
    reqs: Seq<StaticIndexRequirement>,
    records: Map<ExprId, Box<CheckedExpressionRecord>>,
    args: Seq<IndexArg>,
    n: int,
    t0: TypeV,
) -> Result<Option<(TypeV, int)>, FactsErrV>
    decreases n,
{
    if n <= 0 || n > args.len() {
        Ok(Some((t0, 0)))
    } else {
        match index_walk_v(e, reqs, records, args, n - 1, t0) {
            Err(x) => Err(x),
            Ok(None) => Ok(None),
            Ok(Some((ty, k))) => match ty {
                TypeV::Indexed(el, idx) => match args[n - 1] {
                    IndexArg::Variant(_) => Ok(Some((*el, k))),
                    IndexArg::Operand(p) => if p >= e.operands@.len() {
                        Ok(None)
                    } else {
                        let op = e.operands@[p as int];
                        match value_type_v(records, op) {
                            Err(x) => Err(x),
                            Ok(vt) => if vt is Int {
                                if 0 <= k < reqs.len() && req_matches(
                                    reqs[k],
                                    op.id->Some_0,
                                    idx,
                                    StaticIndexUse::Selection,
                                ) {
                                    Ok(Some((*el, k + 1)))
                                } else {
                                    Ok(None)
                                }
                            } else {
                                Ok(Some((*el, k)))
                            },
                        }
                    },
                },
                _ => Ok(None),
            },
        }
    }
}

/// The static requirements of a row are exactly those its node needs, in
/// order: one for a static `key()` argument, one per integer selection of an
/// index access, none otherwise.
pub open spec fn coverage_v(
    e: Expr,
    rec: CheckedExpressionRecord,
    records: Map<ExprId, Box<CheckedExpressionRecord>>,
) -> Result<bool, FactsErrV> {
    let reqs = rec.static_indexes@;
    match e.kind {
        ExprKind::KeyForm { kind: KeyFormKind::Static } => match value_type_v(records, e) {
            Err(x) => Err(x),
            Ok(TypeV::Key(axis)) => if e.operands@.len() == 0 {
                Ok(false)
            } else {
                match e.operands@[0].id {
                    None => Err(FactsErrV::Unassigned),
                    Some(id) => Ok(
                        reqs.len() == 1 && req_matches(reqs[0], id, axis, StaticIndexUse::Key),
                    ),
                }
            },
            Ok(_) => Ok(false),
        },
        ExprKind::IndexAccess { args } => if e.operands@.len() == 0 {
            Ok(false)
        } else {
            match value_type_v(records, e.operands@[0]) {
                Err(x) => Err(x),
                Ok(t0) => match index_walk_v(e, reqs, records, args@, args@.len() as int, t0) {
                    Err(x) => Err(x),
                    Ok(None) => Ok(false),
                    Ok(Some((_, k))) => Ok(k == reqs.len()),
                },
            }
        },
        _ => Ok(reqs.len() == 0),
    }
}

proof fn lemma_walk_stops(
    e: Expr,
    reqs: Seq<StaticIndexRequirement>,
    records: Map<ExprId, Box<CheckedExpressionRecord>>,
    args: Seq<IndexArg>,
    n: int,
    m: int,
    t0: TypeV,
)
    requires
        0 <= n <= m <= args.len(),
        !(index_walk_v(e, reqs, records, args, n, t0) is Ok && index_walk_v(
            e,
            reqs,
            records,
            args,
            n,
            t0,
        )->Ok_0 is Some),
    ensures
        index_walk_v(e, reqs, records, args, m, t0) == index_walk_v(e, reqs, records, args, n, t0),
    decreases m - n,
{
    if m > n {
        lemma_walk_stops(e, reqs, records, args, n, m - 1, t0);
    }
}

fn requirement_matches(
    r: &StaticIndexRequirement,
    operand: ExprId,
    axis: &IndexTypeRef,
    usage: StaticIndexUse,
) -> (b: bool)
    ensures
        b == req_matches(*r, operand, axis@, usage),
{
    r.operand == operand && r.axis.matches_ref(axis) && r.usage == usage
}

/// Inventory required static checks by operand identity, never by replaying
/// constant arithmetic.
pub fn static_requirement_coverage(
    expr: &Expr,
    record: &CheckedExpressionRecord,
    records: &HashMap<ExprId, Box<CheckedExpressionRecord>>,
) -> (r: Result<bool, ExpressionFactsError>)
    ensures
        rb(r) == coverage_v(*expr, *record, records@),
{
    let reqs = &record.static_indexes;
    match &expr.kind {
        ExprKind::KeyForm { kind: KeyFormKind::Static } => {
            let ty = value_type(records, expr)?;
            let axis = match ty {
                DeclaredType::Key(axis) => axis,
                _ => {
                    return Ok(false);
                },
            };
            if expr.operands.len() == 0 {
                return Ok(false);
            }
            let id = match expr.operands[0].id {
                Some(id) => id,
                None => {
                    return Err(ExpressionFactsError::Unassigned);
                },
            };
            Ok(reqs.len() == 1 && requirement_matches(&reqs[0], id, axis, StaticIndexUse::Key))
        },
        ExprKind::IndexAccess { args } => {
            if expr.operands.len() == 0 {
                return Ok(false);
            }
            let mut ty = value_type(records, &expr.operands[0])?;
            let ghost t0 = ty@;
            let mut consumed: usize = 0;
            let mut i: usize = 0;
            #[verifier::loop_isolation(false)]
            while i < args.len()
                invariant
                    i <= args@.len(),
                    consumed <= reqs@.len(),
                    index_walk_v(*expr, reqs@, records@, args@, i as int, t0) == Ok::<
                        Option<(TypeV, int)>,
                        FactsErrV,
                    >(Some((ty@, consumed as int))),
                decreases args@.len() - i,
            {
                let (element, index) = match ty {
                    DeclaredType::Indexed { element, index } => (element, index),
                    _ => {
                        proof {
                            lemma_walk_stops(
                                *expr,
                                reqs@,
                                records@,
                                args@,
                                i + 1,
                                args@.len() as int,
                                t0,
                            );
                        }
                        return Ok(false);
                    },
                };
                match args[i] {
                    IndexArg::Variant(_) => {},
                    IndexArg::Operand(p) => {
                        if p >= expr.operands.len() {
                            proof {
                                lemma_walk_stops(
                                    *expr,
                                    reqs@,
                                    records@,
                                    args@,
                                    i + 1,
                                    args@.len() as int,
                                    t0,
                                );
                            }
                            return Ok(false);
                        }
                        let operand = &expr.operands[p];
                        let vt = match value_type(records, operand) {
                            Ok(vt) => vt,
                            Err(e) => {
                                proof {
                                    lemma_walk_stops(
                                        *expr,
                                        reqs@,
                                        records@,
                                        args@,
                                        i + 1,
                                        args@.len() as int,
                                        t0,
                                    );
                                }
                                return Err(e);
                            },
                        };
                        let is_int = match vt {
                            DeclaredType::Int => true,
                            _ => false,
                        };
                        if is_int {
                            let id = match operand.id {
                                Some(id) => id,
                                None => {
                                    return Err(ExpressionFactsError::Unassigned);
                                },
                            };
                            if !(consumed < reqs.len() && requirement_matches(
                                &reqs[consumed],
                                id,
                                index,
                                StaticIndexUse::Selection,
                            )) {
                                proof {
                                    lemma_walk_stops(
                                        *expr,
                                        reqs@,
                                        records@,
                                        args@,
                                        i + 1,
                                        args@.len() as int,
                                        t0,
                                    );
                                }
                                return Ok(false);
                            }
                            consumed += 1;
                        }
                    },
                }
                ty = element;
                i += 1;
            }
            Ok(consumed == reqs.len())
        },
        _ => Ok(reqs.len() == 0),
    }
}

/// Readiness of the first `n` static requirements; every requirement is
/// checked and an out-of-bounds position is an error.
pub open spec fn reqs_ready_v(reqs: Seq<StaticIndexRequirement>, n: int, cat: IndexCardinalities) -> Result<
    bool,
    FactsErrV,
>
    decreases n,
{
    if n <= 0 || n > reqs.len() {
        Ok(true)
    } else {
        match reqs_ready_v(reqs, n - 1, cat) {
            Err(x) => Err(x),
            Ok(b) => match cardinality_v(cat, reqs[n - 1].axis@) {
                Err(x) => Err(x),
                Ok(c) => match static_check_v(reqs[n - 1], c) {
                    Err(e) => Err(FactsErrV::StaticIndex(e)),
                    Ok(rd) => Ok(b && rd == Readiness::Ready),
                },
            },
        }
    }
}

/// A row is ready when its type is ready, its static requirements are all
/// discharged and none of its operands was deferred.
pub open spec fn record_ready_v(
    rec: CheckedExpressionRecord,
    deferred: Set<ExprId>,
    cat: IndexCardinalities,
) -> Result<bool, FactsErrV> {
    let own = match rec.fact {
        ExpressionFact::Value { checked_type, .. } => type_ready_v(checked_type@, cat),
        ExpressionFact::Contextual(_) => Ok(true),
    };
    match own {
        Err(x) => Err(x),
        Ok(b) => match reqs_ready_v(rec.static_indexes@, rec.static_indexes@.len() as int, cat) {
            Err(x) => Err(x),
            Ok(c) => Ok(
                b && c && forall|j: int|
                    0 <= j < rec.children@.len() ==> !deferred.contains(#[trigger] rec.children@[j]),
            ),
        },
    }
}

proof fn lemma_reqs_ready_err(reqs: Seq<StaticIndexRequirement>, n: int, m: int, cat: IndexCardinalities)
    requires
        0 <= n <= m <= reqs.len(),
        reqs_ready_v(reqs, n, cat) is Err,
    ensures
        reqs_ready_v(reqs, m, cat) == reqs_ready_v(reqs, n, cat),
    decreases m - n,
{
    if m > n {
        lemma_reqs_ready_err(reqs, n, m - 1, cat);
    }
}

/// Whether a row's own facts and all of its operands can run now.
pub fn record_is_ready(
    record: &CheckedExpressionRecord,
    deferred: &HashSet<ExprId>,
    cat: &IndexCardinalities,
) -> (r: Result<bool, ExpressionFactsError>)
    ensures
        rb(r) == record_ready_v(*record, deferred@, *cat),
{
    let own = match &record.fact {
        ExpressionFact::Value { checked_type, .. } => type_is_ready(checked_type, cat)?,
        ExpressionFact::Contextual(_) => true,
    };
    let reqs = &record.static_indexes;
    let mut ready = true;
    let mut i: usize = 0;
    while i < reqs.len()
        invariant
            i <= reqs@.len(),
            reqs@ == record.static_indexes@,
            (match record.fact {
                ExpressionFact::Value { checked_type, .. } => type_ready_v(checked_type@, *cat),
                ExpressionFact::Contextual(_) => Ok(true),
            }) == Ok::<bool, FactsErrV>(own),
            reqs_ready_v(reqs@, i as int, *cat) == Ok::<bool, FactsErrV>(ready),
        decreases reqs@.len() - i,
    {
        let size = match checked_index_cardinality(cat, &reqs[i].axis) {
            Ok(size) => size,
            Err(e) => {
                proof {
                    lemma_reqs_ready_err(reqs@, i + 1, reqs@.len() as int, *cat);
                }
                return Err(e);
            },
        };
        match reqs[i].check(size) {
            Ok(rd) => {
                ready = ready && rd == Readiness::Ready;
            },
            Err(e) => {
                proof {
                    lemma_reqs_ready_err(reqs@, i + 1, reqs@.len() as int, *cat);
                }
                return Err(ExpressionFactsError::StaticIndex(e));
            },
        }
        i += 1;
    }
    let children = record.children();
    let mut j: usize = 0;
    let mut clear = true;
    while j < children.len()
        invariant
            j <= children@.len(),
            children@ == record.children@,
            clear == forall|k: int| 0 <= k < j ==> !deferred@.contains(#[trigger] children@[k]),
        decreases children@.len() - j,
    {
        if deferred.contains(&children[j]) {
            clear = false;
        }
        j += 1;
    }
    Ok(own && ready && clear)
}

fn declared_args_equal(a: &Vec<DeclaredGenericArg>, b: &Vec<DeclaredGenericArg>) -> (r: bool)
    ensures
        r == (dargs_view(*a, a@.len() as int) == dargs_view(*b, b@.len() as int)),
{
    proof {
        crate::declared::lemma_dargs_view(*a, a@.len() as int);
        crate::declared::lemma_dargs_view(*b, b@.len() as int);
    }
    if a.len() != b.len() {
        return false;
    }
    let ghost av = dargs_view(*a, a@.len() as int);
    let ghost bv = dargs_view(*b, b@.len() as int);
    let mut i: usize = 0;
    while i < a.len()
        invariant
            a@.len() == b@.len(),
            av == dargs_view(*a, a@.len() as int),
            bv == dargs_view(*b, b@.len() as int),
            av.len() == a@.len(),
            bv.len() == b@.len(),
            forall|j: int| 0 <= j < av.len() ==> #[trigger] av[j] == a@[j]@,
            forall|j: int| 0 <= j < bv.len() ==> #[trigger] bv[j] == b@[j]@,
            i <= a@.len(),
            forall|j: int| 0 <= j < i ==> #[trigger] av[j] == bv[j],
        decreases a@.len() - i,
    {
        let x = crate::declared::inferred_arg_from_declared(&a[i]);
        let y = crate::declared::inferred_arg_from_declared(&b[i]);
        if !crate::types::arg_equal(&x, &y) {
            proof {
                assert(av[i as int] != bv[i as int]);
            }
            return false;
        }
        proof {
            assert(av[i as int] == bv[i as int]);
        }
        i += 1;
    }
    proof {
        assert(av =~= bv);
    }
    true
}

/// Whether a constructor operation produces the row's value.
pub open spec fn is_constructor_operation(op: ExpressionOperation) -> bool {
    op is Constructor || (op matches ExpressionOperation::Constant(c) && c is Constructor)
}

/// A row's fact agrees with its operation: contextual operands keep their
/// kind, values keep a shape that matches their type, and exactly the
/// constructor operations carry the constructor application of their type.
pub open spec fn compatible_v(rec: CheckedExpressionRecord, cat: IndexCardinalities) -> Result<
    bool,
    FactsErrV,
> {
    match rec.fact {
        ExpressionFact::Contextual(actual) => Ok(
            *rec.operation == ExpressionOperation::Contextual(actual),
        ),
        ExpressionFact::Value { checked_type, shape, constructor } => if *rec.operation is Contextual {
            Ok(false)
        } else {
            match shape_matches_v(shape@, checked_type@, cat) {
                Err(x) => Err(x),
                Ok(sm) => Ok(
                    sm && is_constructor_operation(*rec.operation) == constructor is Some && match constructor {
                        None => true,
                        Some(app) => match checked_type {
                            DeclaredType::Struct(identity, args) => identity.spec_resolved()
                                == app.runtime_type && dargs_view(args, args@.len() as int)
                                == dargs_view(app.generic_args, app.generic_args@.len() as int),
                            _ => false,
                        },
                    },
                ),
            }
        },
    }
}

fn compatible(record: &CheckedExpressionRecord, cat: &IndexCardinalities) -> (r: Result<
    bool,
    ExpressionFactsError,
>)
    ensures
        rb(r) == compatible_v(*record, *cat),
{
    let operation = *record.operation;
    match &record.fact {
        ExpressionFact::Contextual(actual) => Ok(
            operation == ExpressionOperation::Contextual(*actual),
        ),
        ExpressionFact::Value { checked_type, shape, constructor } => {
            if let ExpressionOperation::Contextual(_) = operation {
                return Ok(false);
            }
            let shape_matches = shape.matches_type(checked_type, cat)?;
            let is_constructor = match operation {
                ExpressionOperation::Constructor => true,
                ExpressionOperation::Constant(ConstRef::Constructor(_)) => true,
                _ => false,
            };
            let constructor_matches = is_constructor == constructor.is_some();
            let application_matches = match constructor {
                None => true,
                Some(application) => match checked_type {
                    DeclaredType::Struct(identity, args) => *identity.resolved()
                        == application.runtime_type && declared_args_equal(
                        args,
                        &application.generic_args,
                    ),
                    _ => false,
                },
            };
            Ok(shape_matches && constructor_matches && application_matches)
        },
    }
}

/// What publication has gathered so far: the source span of every visited
/// identity and the identities whose checks wait for a binding.
pub type PublishStateV = (Map<ExprId, Span>, Set<ExprId>);

/// Check one node against its row and record it.
pub open spec fn node_step_v(
    n: Expr,
    owner: DagId,
    revision: BodyRevision,
    records: Map<ExprId, Box<CheckedExpressionRecord>>,
    cat: IndexCardinalities,
    st: PublishStateV,
) -> Result<PublishStateV, FactsErrV> {
    match n.id {
        None => Err(FactsErrV::Unassigned),
        Some(id) => if !records.contains_key(id) {
            Err(FactsErrV::Missing(id))
        } else {
            let rec = *records[id];
            if rec.environment.owner != owner || rec.environment.revision != revision {
                Err(FactsErrV::WrongEnvironment)
            } else {
                let structural = if !structure_matches_v(rec, n) {
                    Ok(false)
                } else {
                    coverage_v(n, rec, records)
                };
                match structural {
                    Err(x) => Err(x),
                    Ok(false) => Err(FactsErrV::Incompatible(id)),
                    Ok(true) => if !targets_match_v(n, rec) {
                        Err(FactsErrV::Incompatible(id))
                    } else {
                        match compatible_v(rec, cat) {
                            Err(x) => Err(x),
                            Ok(false) => Err(FactsErrV::Incompatible(id)),
                            Ok(true) => match record_ready_v(rec, st.1, cat) {
                                Err(x) => Err(x),
                                Ok(ready) => if st.0.contains_key(id) && st.0[id] != n.span {
                                    Err(FactsErrV::ConflictingOrigin(id))
                                } else {
                                    Ok(
                                        (
                                            st.0.insert(id, n.span),
                                            if ready {
                                                st.1
                                            } else {
                                                st.1.insert(id)
                                            },
                                        ),
                                    )
                                },
                            },
                        }
                    },
                }
            }
        },
    }
}

/// Check the nodes in order from a state, stopping at the first error.
pub open spec fn run_from(
    nodes: Seq<Expr>,
    owner: DagId,
    revision: BodyRevision,
    records: Map<ExprId, Box<CheckedExpressionRecord>>,
    cat: IndexCardinalities,
    st: PublishStateV,
) -> Result<PublishStateV, FactsErrV>
    decreases nodes.len(),
{
    if nodes.len() == 0 {
        Ok(st)
    } else {
        match node_step_v(nodes[0], owner, revision, records, cat, st) {
            Err(x) => Err(x),
            Ok(st1) => run_from(nodes.drop_first(), owner, revision, records, cat, st1),
        }
    }
}

proof fn lemma_run_concat(
    a: Seq<Expr>,
    b: Seq<Expr>,
    owner: DagId,
    revision: BodyRevision,
    records: Map<ExprId, Box<CheckedExpressionRecord>>,
    cat: IndexCardinalities,
    st: PublishStateV,
)
    ensures
        run_from(a + b, owner, revision, records, cat, st) == (match run_from(
            a,
            owner,
            revision,
            records,
            cat,
            st,
        ) {
            Err(x) => Err(x),
            Ok(st1) => run_from(b, owner, revision, records, cat, st1),
        }),
    decreases a.len(),
{
    if a.len() > 0 {
        assert((a + b).drop_first() =~= a.drop_first() + b);
        assert((a + b)[0] == a[0]);
        match node_step_v(a[0], owner, revision, records, cat, st) {
            Err(_) => {},
            Ok(st1) => {
                lemma_run_concat(a.drop_first(), b, owner, revision, records, cat, st1);
            },
        }
    } else {
        assert(a + b =~= b);
    }
}

proof fn lemma_run_single(
    e: Expr,
    owner: DagId,
    revision: BodyRevision,
    records: Map<ExprId, Box<CheckedExpressionRecord>>,
    cat: IndexCardinalities,
    st: PublishStateV,
)
    ensures
        run_from(seq![e], owner, revision, records, cat, st) == node_step_v(
            e,
            owner,
            revision,
            records,
            cat,
            st,
        ),
{
    assert(seq![e].drop_first() =~= Seq::<Expr>::empty());
    match node_step_v(e, owner, revision, records, cat, st) {
        Err(_) => {},
        Ok(st1) => {
            assert(run_from(Seq::<Expr>::empty(), owner, revision, records, cat, st1) == Ok::<
                PublishStateV,
                FactsErrV,
            >(st1));
        },
    }
}

fn process_node(
    expr: &Expr,
    owner: DagId,
    revision: BodyRevision,
    records: &HashMap<ExprId, Box<CheckedExpressionRecord>>,
    cat: &IndexCardinalities,
    inventory: &mut HashMap<ExprId, Span>,
    deferred: &mut HashSet<ExprId>,
) -> (r: Result<(), ExpressionFactsError>)
    ensures
        match node_step_v(*expr, owner, revision, records@, *cat, (old(inventory)@, old(deferred)@)) {
            Err(x) => r matches Err(e) && e@ == x,
            Ok(st) => r is Ok && final(inventory)@ == st.0 && final(deferred)@ == st.1,
        },
{
    let id = match expr.id {
        Some(id) => id,
        None => {
            return Err(ExpressionFactsError::Unassigned);
        },
    };
    let record = match records.get(&id) {
        Some(record) => record,
        None => {
            return Err(ExpressionFactsError::Missing(id));
        },
    };
    if record.environment.owner != owner || record.environment.revision != revision {
        return Err(ExpressionFactsError::WrongEnvironment);
    }
    let structural = if !record.matches_structure(expr) {
        false
    } else {
        static_requirement_coverage(expr, record, records)?
    };
    if !structural {
        return Err(ExpressionFactsError::Incompatible(id));
    }
    if !matches_constructor_targets(expr, record) {
        return Err(ExpressionFactsError::Incompatible(id));
    }
    if !compatible(record, cat)? {
        return Err(ExpressionFactsError::Incompatible(id));
    }
    let ready = record_is_ready(record, deferred, cat)?;
    if !ready {
        deferred.insert(id);
    }
    match inventory.get(&id) {
        Some(span) => {
            if *span != expr.span {
                return Err(ExpressionFactsError::ConflictingOrigin(id));
            }
            proof {
                assert(inventory@.insert(id, expr.span) =~= inventory@);
            }
        },
        None => {
            inventory.insert(id, expr.span);
        },
    }
    Ok(())
}

proof fn lemma_post_order_list_err(
    v: Vec<Expr>,
    n: int,
    m: int,
    owner: DagId,
    revision: BodyRevision,
    records: Map<ExprId, Box<CheckedExpressionRecord>>,
    cat: IndexCardinalities,
    st: PublishStateV,
)
    requires
        0 <= n <= m <= v@.len(),
        run_from(post_order_list(v, n), owner, revision, records, cat, st) is Err,
    ensures
        run_from(post_order_list(v, m), owner, revision, records, cat, st) == run_from(
            post_order_list(v, n),
            owner,
            revision,
            records,
            cat,
            st,
        ),
    decreases m - n,
{
    if m > n {
        lemma_post_order_list_err(v, n, m - 1, owner, revision, records, cat, st);
        lemma_run_concat(
            post_order_list(v, m - 1),
            post_order(v@[m - 1]),
            owner,
            revision,
            records,
            cat,
            st,
        );
    }
}

fn visit(
    expr: &Expr,
    owner: DagId,
    revision: BodyRevision,
    records: &HashMap<ExprId, Box<CheckedExpressionRecord>>,
    cat: &IndexCardinalities,
    inventory: &mut HashMap<ExprId, Span>,
    deferred: &mut HashSet<ExprId>,
) -> (r: Result<(), ExpressionFactsError>)
    ensures
        match run_from(
            post_order(*expr),
            owner,
            revision,
            records@,
            *cat,
            (old(inventory)@, old(deferred)@),
        ) {
            Err(x) => r matches Err(e) && e@ == x,
            Ok(st) => r is Ok && final(inventory)@ == st.0 && final(deferred)@ == st.1,
        },
    decreases expr,
{
    let ghost st0: PublishStateV = (inventory@, deferred@);
    let ghost ops = expr.operands;
    let ghost n = expr.operands@.len() as int;
    proof {
        assert(post_order(*expr) =~= post_order_list(ops, n) + seq![*expr]);
        assert(run_from(post_order_list(ops, 0), owner, revision, records@, *cat, st0) == Ok::<
            PublishStateV,
            FactsErrV,
        >(st0));
    }
    let mut i: usize = 0;
    while i < expr.operands.len()
        invariant
            i <= expr.operands@.len(),
            ops == expr.operands,
            n == expr.operands@.len(),
            st0 == (old(inventory)@, old(deferred)@),
            post_order(*expr) == post_order_list(ops, n) + seq![*expr],
            run_from(post_order_list(ops, i as int), owner, revision, records@, *cat, st0) == Ok::<
                PublishStateV,
                FactsErrV,
            >((inventory@, deferred@)),
        decreases expr.operands@.len() - i,
    {
        proof {
            assert(decreases_to!(expr => expr.operands@[i as int]));
            lemma_run_concat(
                post_order_list(ops, i as int),
                post_order(ops@[i as int]),
                owner,
                revision,
                records@,
                *cat,
                st0,
            );
        }
        let ghost st_i: PublishStateV = (inventory@, deferred@);
        let r = visit(&expr.operands[i], owner, revision, records, cat, inventory, deferred);
        match r {
            Err(e) => {
                proof {
                    assert(ops@[i as int] == expr.operands@[i as int]);
                    assert(run_from(post_order(ops@[i as int]), owner, revision, records@, *cat, st_i)
                        == Err::<PublishStateV, FactsErrV>(e@));
                    assert(post_order_list(ops, i + 1) == post_order_list(ops, i as int) + post_order(
                        ops@[i as int],
                    ));
                    lemma_post_order_list_err(
                        ops,
                        i + 1,
                        n,
                        owner,
                        revision,
                        records@,
                        *cat,
                        st0,
                    );
                    assert(run_from(post_order_list(ops, i + 1), owner, revision, records@, *cat, st0)
                        == Err::<PublishStateV, FactsErrV>(e@));
                    lemma_run_concat(
                        post_order_list(ops, n),
                        seq![*expr],
                        owner,
                        revision,
                        records@,
                        *cat,
                        st0,
                    );
                    assert(run_from(post_order_list(ops, n), owner, revision, records@, *cat, st0)
                        == Err::<PublishStateV, FactsErrV>(e@));
                }
                return Err(e);
            },
            Ok(()) => {},
        }
        i += 1;
    }
    let ghost st: PublishStateV = (inventory@, deferred@);
    let r = process_node(expr, owner, revision, records, cat, inventory, deferred);
    proof {
        lemma_run_concat(post_order_list(ops, n), seq![*expr], owner, revision, records@, *cat, st0);
        lemma_run_single(*expr, owner, revision, records@, *cat, st);
    }
    r
}

/// The roots, as expressions.
pub open spec fn root_exprs(roots: Seq<&Expr>) -> Seq<Expr> {
    roots.map_values(|r: &Expr| *r)
}

/// What checking every node of the roots, in post-order, concludes.
pub open spec fn publication_v(
    owner: DagId,
    revision: BodyRevision,
    roots: Seq<Expr>,
    records: Map<ExprId, Box<CheckedExpressionRecord>>,
    cat: IndexCardinalities,
) -> Result<PublishStateV, FactsErrV> {
    run_from(
        post_order_roots(roots, roots.len() as int),
        owner,
        revision,
        records,
        cat,
        (Map::empty(), Set::empty()),
    )
}

#[derive(Debug)]
struct PublishedExpressionFacts {
    owner: DagId,
    revision: BodyRevision,
    records: HashMap<ExprId, Box<CheckedExpressionRecord>>,
    spans: HashMap<ExprId, Span>,
    deferred: HashSet<ExprId>,
}

/// Facts published for one body. Clones share one immutable publication.
#[derive(Clone, Debug)]
pub struct CheckedExpressionFacts {
    data: Arc<PublishedExpressionFacts>,
}

impl CheckedExpressionFacts {
    pub closed spec fn spec_owner(self) -> DagId {
        self.data.owner
    }

    pub closed spec fn spec_revision(self) -> BodyRevision {
        self.data.revision
    }

    pub closed spec fn spec_records(self) -> Map<ExprId, Box<CheckedExpressionRecord>> {
        self.data.records@
    }

    pub closed spec fn spec_spans(self) -> Map<ExprId, Span> {
        self.data.spans@
    }

    pub closed spec fn spec_deferred(self) -> Set<ExprId> {
        self.data.deferred@
    }

    /// Publish the rows for `roots` after checking, node by node in
    /// post-order, that each node has a row from this owner and revision that
    /// describes it exactly and is compatible with its operation; rows that
    /// no node uses are rejected.
    pub fn publish(
        owner: DagId,
        revision: BodyRevision,
        roots: &[&Expr],
        records: HashMap<ExprId, Box<CheckedExpressionRecord>>,
        cat: &IndexCardinalities,
    ) -> (r: Result<CheckedExpressionFacts, ExpressionFactsError>)
        ensures
            match publication_v(owner, revision, root_exprs(roots@), records@, *cat) {
                Err(x) => r matches Err(e) && e@ == x,
                Ok(st) => if exists|k: ExprId| #[trigger]
                    records@.contains_key(k) && !st.0.contains_key(k) {
                    r matches Err(e) && e matches ExpressionFactsError::Extra(k) && records@.contains_key(k)
                        && !st.0.contains_key(k)
                } else {
                    r matches Ok(f) && f.spec_owner() == owner && f.spec_revision() == revision
                        && f.spec_records() == records@ && f.spec_spans() == st.0
                        && f.spec_deferred() == st.1
                },
            },
            r matches Ok(f) ==> forall|k: ExprId| #[trigger]
                f.spec_records().contains_key(k) <==> exists|i: int|
                    0 <= i < post_order_roots(root_exprs(roots@), roots@.len() as int).len() && post_order_roots(
                        root_exprs(roots@),
                        roots@.len() as int,
                    )[i].id == Some(k),
            r matches Ok(f) ==> forall|k: ExprId| #[trigger]
                f.spec_records().contains_key(k) ==> f.spec_records()[k].environment.owner == owner
                    && f.spec_records()[k].environment.revision == revision,
    {
        let ghost rs = root_exprs(roots@);
        let mut inventory: HashMap<ExprId, Span> = HashMap::new();
        let mut deferred: HashSet<ExprId> = HashSet::new();
        let ghost st0: PublishStateV = (inventory@, deferred@);
        proof {
            assert(st0 == (Map::<ExprId, Span>::empty(), Set::<ExprId>::empty()));
            assert(run_from(post_order_roots(rs, 0), owner, revision, records@, *cat, st0) == Ok::<
                PublishStateV,
                FactsErrV,
            >(st0));
        }
        let mut i: usize = 0;
        while i < roots.len()
            invariant
                i <= roots@.len(),
                rs == root_exprs(roots@),
                rs.len() == roots@.len(),
                st0 == (Map::<ExprId, Span>::empty(), Set::<ExprId>::empty()),
                run_from(post_order_roots(rs, i as int), owner, revision, records@, *cat, st0)
                    == Ok::<PublishStateV, FactsErrV>((inventory@, deferred@)),
            decreases roots@.len() - i,
        {
            proof {
                assert(rs[i as int] == *roots@[i as int]);
                lemma_run_concat(
                    post_order_roots(rs, i as int),
                    post_order(rs[i as int]),
                    owner,
                    revision,
                    records@,
                    *cat,
                    st0,
                );
            }
            match visit(roots[i], owner, revision, &records, cat, &mut inventory, &mut deferred) {
                Err(e) => {
                    proof {
                        lemma_roots_err(rs, i + 1, rs.len() as int, owner, revision, records@, *cat, st0);
                    }
                    return Err(e);
                },
                Ok(()) => {},
            }
            i += 1;
        }
        let ghost inv = inventory@;
        let mut extra: Option<ExprId> = None;
        for id in it: records.keys()
            invariant
                inventory@ == inv,
                extra matches Some(x) ==> records@.contains_key(x) && !inv.contains_key(x),
                extra is None ==> forall|j: int| 0 <= j < it.index() ==> inv.contains_key(
                    *#[trigger] it.seq()[j],
                ),
        {
            if extra.is_none() && !inventory.contains_key(id) {
                extra = Some(*id);
            }
        }
        match extra {
            Some(k) => Err(ExpressionFactsError::Extra(k)),
            None => {
                proof {
                    crate::laws::law_published_records_are_the_reachable_nodes(owner, revision, rs, records@, *cat);
                }
                Ok(
                CheckedExpressionFacts {
                    data: Arc::new(
                        PublishedExpressionFacts {
                            owner,
                            revision,
                            records,
                            spans: inventory,
                            deferred,
                        },
                    ),
                },
            )
            },
        }
    }
}

impl CheckedExpressionFacts {
    /// Facts may only be used in the environment they were published for.
    pub fn validate_environment(&self, owner: &DagId, revision: &BodyRevision) -> (r: Result<
        (),
        ExpressionFactsError,
    >)
        ensures
            r is Ok <==> (*owner == self.spec_owner() && *revision == self.spec_revision()),
            r matches Err(e) ==> e is WrongEnvironment,
    {
        if self.data.owner == *owner && self.data.revision == *revision {
            Ok(())
        } else {
            Err(ExpressionFactsError::WrongEnvironment)
        }
    }

    /// The row of an expression.
    pub fn get(&self, id: &ExprId) -> (r: Result<&CheckedExpressionRecord, ExpressionFactsError>)
        ensures
            match r {
                Ok(rec) => self.spec_records().contains_key(*id) && *rec == *self.spec_records()[*id],
                Err(e) => !self.spec_records().contains_key(*id) && e == ExpressionFactsError::Missing(
                    *id,
                ),
            },
    {
        match self.data.records.get(id) {
            Some(record) => Ok(record),
            None => Err(ExpressionFactsError::Missing(*id)),
        }
    }

    /// The source span an expression was published from.
    pub fn span(&self, id: &ExprId) -> (r: Result<Span, ExpressionFactsError>)
        ensures
            match r {
                Ok(s) => self.spec_spans().contains_key(*id) && s == self.spec_spans()[*id],
                Err(e) => !self.spec_spans().contains_key(*id) && e == ExpressionFactsError::Source(
                    *id,
                ),
            },
    {
        match self.data.spans.get(id) {
            Some(span) => Ok(*span),
            None => Err(ExpressionFactsError::Source(*id)),
        }
    }

    /// All published rows, by identity.
    pub fn records(&self) -> (r: &HashMap<ExprId, Box<CheckedExpressionRecord>>)
        ensures
            r@ == self.spec_records(),
    {
        &self.data.records
    }

    /// The row of an expression that may run now: its whole subtree has
    /// discharged every static obligation and it is a value, not metadata.
    pub fn executable_value(&self, id: &ExprId) -> (r: Result<
        &CheckedExpressionRecord,
        ExpressionFactsError,
    >)
        ensures
            match r {
                Ok(rec) => self.spec_records().contains_key(*id) && *rec == *self.spec_records()[*id]
                    && !self.spec_deferred().contains(*id) && rec.fact is Value,
                Err(e) => if !self.spec_records().contains_key(*id) {
                    e == ExpressionFactsError::Missing(*id)
                } else if self.spec_deferred().contains(*id) {
                    e == ExpressionFactsError::Deferred(*id)
                } else {
                    e == ExpressionFactsError::Contextual(*id) && self.spec_records()[*id].fact is Contextual
                },
            },
    {
        let record = self.get(id)?;
        if self.data.deferred.contains(id) {
            return Err(ExpressionFactsError::Deferred(*id));
        }
        match record.fact {
            ExpressionFact::Value { .. } => Ok(record),
            ExpressionFact::Contextual(_) => Err(ExpressionFactsError::Contextual(*id)),
        }
    }
}

proof fn lemma_roots_err(
    roots: Seq<Expr>,
    n: int,
    m: int,
    owner: DagId,
    revision: BodyRevision,
    records: Map<ExprId, Box<CheckedExpressionRecord>>,
    cat: IndexCardinalities,
    st: PublishStateV,
)
    requires
        0 <= n <= m <= roots.len(),
        run_from(post_order_roots(roots, n), owner, revision, records, cat, st) is Err,
    ensures
        run_from(post_order_roots(roots, m), owner, revision, records, cat, st) == run_from(
            post_order_roots(roots, n),
            owner,
            revision,
            records,
            cat,
            st,
        ),
    decreases m - n,
{
    if m > n {
        lemma_roots_err(roots, n, m - 1, owner, revision, records, cat, st);
        lemma_run_concat(
            post_order_roots(roots, m - 1),
            post_order(roots[m - 1]),
            owner,
            revision,
            records,
            cat,
            st,
        );
    }
}

/// Why the materialization shape of a checked type cannot be determined.
#[derive(Clone, Debug, PartialEq, Eq)]
pub enum ExpressionShapeError {
    /// An axis has no definition.
    Facts(ExpressionFactsError),
    /// The product of the axis cardinalities crosses the eager policy limit.
    TooLarge { maximum: usize },
}

pub open spec fn all_known(sizes: Seq<Option<nat>>) -> bool {
    forall|i: int| 0 <= i < sizes.len() ==> (#[trigger] sizes[i]) is Some
}

pub open spec fn known(sizes: Seq<Option<nat>>) -> Seq<nat> {
    sizes.map_values(|c: Option<nat>| c->Some_0)
}

pub open spec fn nat_product(s: Seq<nat>) -> nat
    decreases s.len(),
{
    if s.len() == 0 {
        1
    } else {
        nat_product(s.drop_last()) * s.last()
    }
}

proof fn lemma_product_views(s: Seq<IndexCardinality>)
    ensures
        crate::materialized_shape::card_product(s) == nat_product(
            s.map_values(|c: IndexCardinality| c@),
        ),
    decreases s.len(),
{
    if s.len() > 0 {
        lemma_product_views(s.drop_last());
        assert(s.drop_last().map_values(|c: IndexCardinality| c@) =~= s.map_values(
            |c: IndexCardinality| c@,
        ).drop_last());
    }
}

/// The shape of a value of a checked type: scalar without axes, concrete
/// when every axis has a size, symbolic otherwise.
pub fn checked_expression_shape(ty: &DeclaredType, cat: &IndexCardinalities) -> (r: Result<
    ExpressionShape,
    ExpressionShapeError,
>)
    ensures
        match sizes_v(*cat, axes_of(ty@), axes_of(ty@).len() as int) {
            Err(x) => r matches Err(ExpressionShapeError::Facts(e)) && e@ == x,
            Ok(sizes) => if !all_known(sizes) {
                r matches Ok(s) && s@ == ShapeV::Symbolic(axes_of(ty@))
            } else if sizes.len() == 0 {
                r matches Ok(s) && s@ == ShapeV::Scalar
            } else if nat_product(known(sizes)) <= crate::materialized_shape::MAX_EAGER_CARDINALITY {
                r matches Ok(s) && s@ == ShapeV::Concrete(known(sizes))
            } else {
                r == Err::<ExpressionShape, ExpressionShapeError>(
                    ExpressionShapeError::TooLarge {
                        maximum: crate::materialized_shape::MAX_EAGER_CARDINALITY,
                    },
                )
            },
        },
        r matches Ok(s) ==> shape_matches_v(s@, ty@, *cat) == Ok::<bool, FactsErrV>(true),
{
    let axes = declared_axes(ty);
    let ghost av = ref_views(axes@);
    let mut cards: Vec<IndexCardinality> = Vec::new();
    let mut symbolic = false;
    let mut i: usize = 0;
    let ghost mut sizes: Seq<Option<nat>> = Seq::empty();
    while i < axes.len()
        invariant
            i <= axes@.len(),
            av == ref_views(axes@),
            av.len() == axes@.len(),
            axes_of(ty@) == av,
            sizes_v(*cat, av, i as int) == Ok::<Seq<Option<nat>>, FactsErrV>(sizes),
            sizes.len() == i,
            symbolic == !all_known(sizes),
            !symbolic ==> cards@.len() == i && cards@.map_values(|c: IndexCardinality| c@)
                == known(sizes),
        decreases axes@.len() - i,
    {
        proof {
            assert(av[i as int] == axes@[i as int]@);
        }
        match checked_index_cardinality(cat, &axes[i]) {
            Err(e) => {
                proof {
                    lemma_sizes_err(*cat, av, i + 1, av.len() as int);
                }
                return Err(ExpressionShapeError::Facts(e));
            },
            Ok(c) => {
                let ghost before = sizes;
                proof {
                    sizes = sizes.push(card_v(c));
                    if !all_known(before) {
                        let k = choose|k: int| 0 <= k < before.len() && before[k] is None;
                        assert(sizes[k] is None);
                    }
                }
                match c {
                    Some(card) => {
                        if !symbolic {
                            let ghost old_cards = cards@;
                            cards.push(card);
                            proof {
                                assert(sizes == before.push(Some(card@)));
                                assert(known(sizes) =~= known(before).push(card@));
                                assert(cards@.map_values(|c: IndexCardinality| c@) =~= old_cards.map_values(
                                    |c: IndexCardinality| c@,
                                ).push(card@));
                            }
                        }
                    },
                    None => {
                        symbolic = true;
                        proof {
                            assert(sizes[i as int] is None);
                        }
                    },
                }
            },
        }
        i += 1;
    }
    proof {
        lemma_sizes_len(*cat, av, av.len() as int);
    }
    if symbolic {
        let mut v: Vec<IndexTypeRef> = Vec::new();
        let mut j: usize = 0;
        while j < axes.len()
            invariant
                j <= axes@.len(),
                v@.len() == j,
                forall|k: int| 0 <= k < j ==> #[trigger] v@[k]@ == axes@[k]@,
            decreases axes@.len() - j,
        {
            v.push(axes[j].clone());
            j += 1;
        }
        proof {
            assert(ref_views(v@) =~= ref_views(axes@));
            let k = choose|k: int| 0 <= k < sizes.len() && sizes[k] is None;
            assert(sizes[k] is None);
        }
        return Ok(ExpressionShape::Symbolic(v));
    }
    if cards.len() == 0 {
        return Ok(ExpressionShape::Scalar);
    }
    let mut tail: Vec<IndexCardinality> = Vec::new();
    let mut j: usize = 1;
    while j < cards.len()
        invariant
            1 <= j <= cards@.len(),
            tail@ == cards@.subrange(1, j as int),
        decreases cards@.len() - j,
    {
        tail.push(cards[j]);
        j += 1;
        proof {
            assert(tail@ =~= cards@.subrange(1, j as int));
        }
    }
    let axes_ne = NonEmpty::new(cards[0], tail);
    proof {
        assert(axes_ne.elements() =~= cards@);
        lemma_product_views(cards@);
    }
    match MaterializedShape::try_new(axes_ne) {
        Ok(shape) => {
            proof {
                let cv = shape.axes_view().map_values(|c: IndexCardinality| c@);
                assert(cv =~= known(sizes));
                assert forall|k: int| 0 <= k < cv.len() implies #[trigger] sizes[k] == Some(cv[k]) by {
                    assert(sizes[k] is Some);
                }
            }
            Ok(ExpressionShape::Concrete(shape))
        },
        Err(_) => Err(
            ExpressionShapeError::TooLarge { maximum: crate::materialized_shape::MAX_EAGER_CARDINALITY },
        ),
    }
}

} // verus!
