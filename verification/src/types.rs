//! Inferred and declared types of Graphcal expressions.
//!
//! Both type representations share one value-level view, [`TypeV`]: a
//! declared type is viewed as the inferred type it denotes. Equality of types
//! throughout the library is equality of these views, so dimensions compare by
//! exponents, Nat forms by coefficients and identities owner-sensitively.

use crate::dimension::Dimension;
use crate::index::{IndexRefV, IndexTypeRef, ResolvedName, StructTypeRef, Symbol, DagId, IndexName};
use crate::nat_form::NatLinearForm;
use vstd::prelude::*;

verus! {

broadcast use vstd::std_specs::vec::axiom_vec_index_decreases;

/// Time scales in which datetimes are expressed.
#[derive(Clone, Copy, Debug, PartialEq, Eq, Structural, Hash)]
pub enum TimeScale {
    UTC,
    TAI,
    TT,
    TDB,
    ET,
    GPST,
    GST,
    BDT,
    QZSST,
}

/// Value-level view of a type.
pub enum TypeV {
    Quantity(Seq<(int, int)>),
    Complex(Seq<(int, int)>),
    Bool,
    Int,
    Fin((nat, Seq<u64>)),
    Datetime(TimeScale),
    NamedIndexCase(IndexRefV),
    IndexArg(IndexRefV),
    Key(IndexRefV),
    CoordinateIndexLabel(Seq<(int, int)>, IndexRefV),
    Struct(StructTypeRef, Seq<ArgV>),
    Indexed(Box<TypeV>, IndexRefV),
}

/// Value-level view of a generic argument.
pub enum ArgV {
    Dim(Seq<(int, int)>),
    Index(IndexRefV),
    Nat((nat, Seq<u64>)),
    Type(Box<TypeV>),
}

/// Index identity carried by inferred collection and label types.
#[derive(Debug, PartialEq, Eq)]
pub struct InferredIndex {
    reference: IndexTypeRef,
}

impl View for InferredIndex {
    type V = IndexRefV;

    closed spec fn view(&self) -> IndexRefV {
        self.reference@
    }
}

impl Clone for InferredIndex {
    fn clone(&self) -> (r: Self)
        ensures
            r@ == self@,
    {
        InferredIndex { reference: self.reference.clone() }
    }
}

impl InferredIndex {
    /// A declared index owned by `owner`.
    pub fn with_owner(owner: DagId, name: Symbol) -> (r: InferredIndex)
        ensures
            r@ == IndexRefV::Declared(ResolvedName { owner, name }),
    {
        Self::from_ref(IndexTypeRef::with_owner(owner, name))
    }

    /// A declared index from its resolved name.
    pub fn from_resolved(resolved: ResolvedName) -> (r: InferredIndex)
        ensures
            r@ == IndexRefV::Declared(resolved),
    {
        InferredIndex { reference: IndexTypeRef::from_resolved(resolved) }
    }

    pub fn from_ref(reference: IndexTypeRef) -> (r: InferredIndex)
        ensures
            r@ == reference@,
    {
        InferredIndex { reference }
    }

    /// The inferred `range(N)` index for a Nat form.
    pub fn from_nat_range_form(form: NatLinearForm) -> (r: Result<
        InferredIndex,
        crate::index::NatRangeIndexError,
    >)
        ensures
            r is Ok <==> crate::index::valid_range_form(form@),
            r matches Ok(i) ==> i@ == IndexRefV::NatRange(form@),
    {
        match IndexTypeRef::from_nat_range_form(form) {
            Ok(reference) => Ok(InferredIndex { reference }),
            Err(e) => Err(e),
        }
    }

    /// The inferred `range(N)` index for an already validated Nat-range
    /// identity.
    pub fn from_nat_range_identity(identity: &IndexTypeRef) -> (r: Result<
        InferredIndex,
        crate::index::NatRangeIndexError,
    >)
        ensures
            r is Ok <==> (match identity@ {
                IndexRefV::NatRange(f) => crate::index::valid_range_form(f),
                IndexRefV::Declared(_) => false,
            }),
            r matches Ok(i) ==> i@ == identity@,
    {
        match identity.nat_range_form() {
            Some(form) => Self::from_nat_range_form(form),
            None => Err(crate::index::NatRangeIndexError::InvalidSize),
        }
    }

    pub fn type_ref(&self) -> (r: &IndexTypeRef)
        ensures
            r@ == self@,
    {
        &self.reference
    }

    pub fn name(&self) -> (r: IndexName)
        ensures
            match (r, self@) {
                (IndexName::Declared(s), IndexRefV::Declared(n)) => s == n.name,
                (IndexName::Range(f), IndexRefV::NatRange(v)) => f@ == v,
                _ => false,
            },
    {
        self.reference.display_name()
    }

    pub fn declared_resolved(&self) -> (r: Option<ResolvedName>)
        ensures
            r == (match self@ {
                IndexRefV::Declared(n) => Some(n),
                IndexRefV::NatRange(_) => None::<ResolvedName>,
            }),
    {
        self.reference.declared_resolved()
    }

    pub fn concrete_nat_range(&self) -> (r: Option<crate::index::IndexCardinality>)
        ensures
            r is Some <==> (match self@ {
                IndexRefV::NatRange(f) => f.1.len() == 0 && 1 <= f.0
                    <= crate::index::MAX_INDEX_CARDINALITY,
                IndexRefV::Declared(_) => false,
            }),
            r matches Some(c) ==> self@ == IndexRefV::NatRange((c@, Seq::<u64>::empty())),
    {
        self.reference.concrete_nat_range()
    }

    pub fn nat_range_form(&self) -> (r: Option<NatLinearForm>)
        ensures
            r is Some <==> self@ is NatRange,
            r matches Some(f) ==> self@ == IndexRefV::NatRange(f@),
    {
        self.reference.nat_range_form()
    }

    pub fn matches_resolved(&self, expected: &ResolvedName) -> (b: bool)
        ensures
            b == (self@ == IndexRefV::Declared(*expected)),
    {
        match self.declared_resolved() {
            Some(n) => n == *expected,
            None => false,
        }
    }

    pub fn matches_ref(&self, expected: &IndexTypeRef) -> (b: bool)
        ensures
            b == (self@ == expected@),
    {
        self.reference.matches_ref(expected)
    }

    /// Identity comparison of two inferred indexes.
    pub fn equals(&self, other: &InferredIndex) -> (b: bool)
        ensures
            b == (self@ == other@),
    {
        self.reference.matches_ref(&other.reference)
    }
}

/// Struct/type identity carried by inferred constructor, match and field types.
#[derive(Clone, Copy, Debug, PartialEq, Eq, Structural)]
pub struct InferredStructType {
    reference: StructTypeRef,
}

impl InferredStructType {
    pub closed spec fn spec_ref(self) -> StructTypeRef {
        self.reference
    }

    pub fn with_owner(owner: DagId, name: Symbol) -> (r: InferredStructType)
        ensures
            r.spec_ref().spec_resolved() == (ResolvedName { owner, name }),
    {
        InferredStructType { reference: StructTypeRef::with_owner(owner, name) }
    }

    pub fn from_resolved(resolved: ResolvedName) -> (r: InferredStructType)
        ensures
            r.spec_ref().spec_resolved() == resolved,
    {
        InferredStructType { reference: StructTypeRef::from_resolved(resolved) }
    }

    pub fn from_ref(reference: StructTypeRef) -> (r: InferredStructType)
        ensures
            r.spec_ref() == reference,
    {
        InferredStructType { reference }
    }

    pub fn type_ref(&self) -> (r: &StructTypeRef)
        ensures
            *r == self.spec_ref(),
    {
        &self.reference
    }

    pub fn name(&self) -> (r: &Symbol)
        ensures
            *r == self.spec_ref().spec_resolved().name,
    {
        self.reference.name()
    }

    pub fn resolved(&self) -> (r: &ResolvedName)
        ensures
            *r == self.spec_ref().spec_resolved(),
    {
        self.reference.resolved()
    }

    pub fn matches_resolved(&self, expected: &ResolvedName) -> (b: bool)
        ensures
            b == (self.spec_ref().spec_resolved() == *expected),
    {
        *self.reference.resolved() == *expected
    }

    pub fn matches_ref(&self, expected: &StructTypeRef) -> (b: bool)
        ensures
            b == (self.spec_ref() == *expected),
    {
        self.reference.matches_ref(expected)
    }
}

/// A generic argument of an inferred struct type.
#[derive(Debug, PartialEq, Eq)]
pub enum InferredGenericArg {
    Dim(Dimension),
    Index(InferredIndex),
    Nat(NatLinearForm),
    Type(InferredType),
}

/// The inferred type of an expression.
#[derive(Debug, PartialEq, Eq)]
pub enum InferredType {
    /// A real quantity of the given dimension.
    Quantity(Dimension),
    /// A complex quantity of the given dimension.
    Complex(Dimension),
    Bool,
    Int,
    /// A bounded natural number `Fin(N)`: the type of loop variables over `range(N)`.
    Fin(NatLinearForm),
    /// A datetime instant in a specific time scale.
    Datetime(TimeScale),
    /// A loop variable ranging over the cases of a named index.
    NamedIndexCase(InferredIndex),
    /// An index passed as an argument.
    IndexArg(InferredIndex),
    /// A key of an index axis.
    Key(InferredIndex),
    /// A coordinate label of an index axis carrying a quantity.
    CoordinateIndexLabel { dimension: Dimension, index: InferredIndex },
    /// A struct type, with its generic arguments.
    Struct(InferredStructType, Vec<InferredGenericArg>),
    /// A collection indexed by `index` whose elements have type `element`.
    Indexed { element: Box<InferredType>, index: InferredIndex },
}

pub open spec fn type_view(t: InferredType) -> TypeV
    decreases t, 0int,
{
    match t {
        InferredType::Quantity(d) => TypeV::Quantity(d@),
        InferredType::Complex(d) => TypeV::Complex(d@),
        InferredType::Bool => TypeV::Bool,
        InferredType::Int => TypeV::Int,
        InferredType::Fin(f) => TypeV::Fin(f@),
        InferredType::Datetime(s) => TypeV::Datetime(s),
        InferredType::NamedIndexCase(i) => TypeV::NamedIndexCase(i@),
        InferredType::IndexArg(i) => TypeV::IndexArg(i@),
        InferredType::Key(i) => TypeV::Key(i@),
        InferredType::CoordinateIndexLabel { dimension, index } => TypeV::CoordinateIndexLabel(
            dimension@,
            index@,
        ),
        InferredType::Struct(s, args) => TypeV::Struct(
            s.spec_ref(),
            args_view(args, args@.len() as int),
        ),
        InferredType::Indexed { element, index } => TypeV::Indexed(
            Box::new(type_view(*element)),
            index@,
        ),
    }
}

/// Views of the first `n` generic arguments.
pub open spec fn args_view(args: Vec<InferredGenericArg>, n: int) -> Seq<ArgV>
    decreases args, n,
{
    if n <= 0 || n > args@.len() {
        Seq::empty()
    } else {
        args_view(args, n - 1).push(arg_view(args@[n - 1]))
    }
}

pub open spec fn arg_view(a: InferredGenericArg) -> ArgV
    decreases a, 0int,
{
    match a {
        InferredGenericArg::Dim(d) => ArgV::Dim(d@),
        InferredGenericArg::Index(i) => ArgV::Index(i@),
        InferredGenericArg::Nat(f) => ArgV::Nat(f@),
        InferredGenericArg::Type(t) => ArgV::Type(Box::new(type_view(t))),
    }
}

impl View for InferredType {
    type V = TypeV;

    open spec fn view(&self) -> TypeV {
        type_view(*self)
    }
}

impl View for InferredGenericArg {
    type V = ArgV;

    open spec fn view(&self) -> ArgV {
        arg_view(*self)
    }
}

pub proof fn lemma_args_view(args: Vec<InferredGenericArg>, n: int)
    requires
        0 <= n <= args@.len(),
    ensures
        args_view(args, n).len() == n,
        forall|i: int| 0 <= i < n ==> #[trigger] args_view(args, n)[i] == arg_view(args@[i]),
    decreases n,
{
    if n > 0 {
        lemma_args_view(args, n - 1);
    }
}

/// View-level predicates.
pub open spec fn is_int_like_v(t: TypeV) -> bool {
    t is Int || t is Fin
}

pub open spec fn quantity_dim_v(t: TypeV) -> Option<Seq<(int, int)>> {
    match t {
        TypeV::Quantity(d) => Some(d),
        TypeV::CoordinateIndexLabel(d, _) => Some(d),
        _ => None,
    }
}

pub open spec fn complex_dim_v(t: TypeV) -> Option<Seq<(int, int)>> {
    match t {
        TypeV::Complex(d) => Some(d),
        _ => None,
    }
}

/// Copy a generic argument list, preserving its view.
fn clone_args(v: &Vec<InferredGenericArg>) -> (r: Vec<InferredGenericArg>)
    ensures
        r@.len() == v@.len(),
        args_view(r, r@.len() as int) == args_view(*v, v@.len() as int),
    decreases v, 1int,
{
    let mut r: Vec<InferredGenericArg> = Vec::new();
    let mut i: usize = 0;
    while i < v.len()
        invariant
            i <= v@.len(),
            r@.len() == i,
            forall|j: int| 0 <= j < i ==> #[trigger] arg_view(r@[j]) == arg_view(v@[j]),
        decreases v@.len() - i,
    {
        proof {
            assert(decreases_to!(*v => v@[i as int]));
        }
        let a = clone_arg(&v[i]);
        r.push(a);
        i += 1;
    }
    proof {
        lemma_args_view(r, r@.len() as int);
        lemma_args_view(*v, v@.len() as int);
        assert(args_view(r, r@.len() as int) =~= args_view(*v, v@.len() as int));
    }
    r
}

fn clone_arg(a: &InferredGenericArg) -> (r: InferredGenericArg)
    ensures
        r@ == a@,
    decreases a, 0int,
{
    match a {
        InferredGenericArg::Dim(d) => InferredGenericArg::Dim(d.clone()),
        InferredGenericArg::Index(i) => InferredGenericArg::Index(i.clone()),
        InferredGenericArg::Nat(f) => InferredGenericArg::Nat(f.clone()),
        InferredGenericArg::Type(t) => InferredGenericArg::Type(clone_type(t)),
    }
}

fn clone_type(t: &InferredType) -> (r: InferredType)
    ensures
        r@ == t@,
    decreases t, 0int,
{
    match t {
        InferredType::Quantity(d) => InferredType::Quantity(d.clone()),
        InferredType::Complex(d) => InferredType::Complex(d.clone()),
        InferredType::Bool => InferredType::Bool,
        InferredType::Int => InferredType::Int,
        InferredType::Fin(f) => InferredType::Fin(f.clone()),
        InferredType::Datetime(s) => InferredType::Datetime(*s),
        InferredType::NamedIndexCase(i) => InferredType::NamedIndexCase(i.clone()),
        InferredType::IndexArg(i) => InferredType::IndexArg(i.clone()),
        InferredType::Key(i) => InferredType::Key(i.clone()),
        InferredType::CoordinateIndexLabel { dimension, index } => InferredType::CoordinateIndexLabel {
            dimension: dimension.clone(),
            index: index.clone(),
        },
        InferredType::Struct(s, args) => InferredType::Struct(*s, clone_args(args)),
        InferredType::Indexed { element, index } => InferredType::Indexed {
            element: Box::new(clone_type(element)),
            index: index.clone(),
        },
    }
}

impl Clone for InferredType {
    fn clone(&self) -> (r: Self)
        ensures
            r@ == self@,
    {
        clone_type(self)
    }
}

impl Clone for InferredGenericArg {
    fn clone(&self) -> (r: Self)
        ensures
            r@ == self@,
    {
        clone_arg(self)
    }
}

fn args_equal(a: &Vec<InferredGenericArg>, b: &Vec<InferredGenericArg>) -> (r: bool)
    ensures
        r == (args_view(*a, a@.len() as int) == args_view(*b, b@.len() as int)),
    decreases a, 1int,
{
    proof {
        lemma_args_view(*a, a@.len() as int);
        lemma_args_view(*b, b@.len() as int);
    }
    if a.len() != b.len() {
        return false;
    }
    let mut i: usize = 0;
    while i < a.len()
        invariant
            a@.len() == b@.len(),
            i <= a@.len(),
            forall|j: int| 0 <= j < i ==> #[trigger] arg_view(a@[j]) == arg_view(b@[j]),
        decreases a@.len() - i,
    {
        proof {
            assert(decreases_to!(*a => a@[i as int]));
        }
        if !arg_equal(&a[i], &b[i]) {
            proof {
                lemma_args_view(*a, a@.len() as int);
                lemma_args_view(*b, b@.len() as int);
                assert(args_view(*a, a@.len() as int)[i as int] != args_view(*b, b@.len() as int)[i as int]);
            }
            return false;
        }
        i += 1;
    }
    proof {
        lemma_args_view(*a, a@.len() as int);
        lemma_args_view(*b, b@.len() as int);
        assert(args_view(*a, a@.len() as int) =~= args_view(*b, b@.len() as int));
    }
    true
}

pub(crate) fn arg_equal(a: &InferredGenericArg, b: &InferredGenericArg) -> (r: bool)
    ensures
        r == (a@ == b@),
    decreases a, 0int,
{
    match (a, b) {
        (InferredGenericArg::Dim(x), InferredGenericArg::Dim(y)) => x.equals(y),
        (InferredGenericArg::Index(x), InferredGenericArg::Index(y)) => x.equals(y),
        (InferredGenericArg::Nat(x), InferredGenericArg::Nat(y)) => x.equals(y),
        (InferredGenericArg::Type(x), InferredGenericArg::Type(y)) => type_equal(x, y),
        _ => false,
    }
}

/// Type equality: equality of views.
pub fn type_equal(a: &InferredType, b: &InferredType) -> (r: bool)
    ensures
        r == (a@ == b@),
    decreases a, 0int,
{
    match (a, b) {
        (InferredType::Quantity(x), InferredType::Quantity(y)) => x.equals(y),
        (InferredType::Complex(x), InferredType::Complex(y)) => x.equals(y),
        (InferredType::Bool, InferredType::Bool) => true,
        (InferredType::Int, InferredType::Int) => true,
        (InferredType::Fin(x), InferredType::Fin(y)) => x.equals(y),
        (InferredType::Datetime(x), InferredType::Datetime(y)) => *x == *y,
        (InferredType::NamedIndexCase(x), InferredType::NamedIndexCase(y)) => x.equals(y),
        (InferredType::IndexArg(x), InferredType::IndexArg(y)) => x.equals(y),
        (InferredType::Key(x), InferredType::Key(y)) => x.equals(y),
        (
            InferredType::CoordinateIndexLabel { dimension: d1, index: i1 },
            InferredType::CoordinateIndexLabel { dimension: d2, index: i2 },
        ) => d1.equals(d2) && i1.equals(i2),
        (InferredType::Struct(s1, a1), InferredType::Struct(s2, a2)) => {
            s1.matches_ref(s2.type_ref()) && args_equal(a1, a2)
        },
        (
            InferredType::Indexed { element: e1, index: i1 },
            InferredType::Indexed { element: e2, index: i2 },
        ) => i1.equals(i2) && type_equal(e1, e2),
        _ => false,
    }
}

impl InferredType {
    /// `true` if this type is `Int` or `Fin(N)` (integer-like).
    pub fn is_int_like(&self) -> (b: bool)
        ensures
            b == is_int_like_v(self@),
    {
        match self {
            InferredType::Int | InferredType::Fin(_) => true,
            _ => false,
        }
    }

    /// The dimension of a real quantity (including coordinate labels).
    pub fn quantity_dimension(&self) -> (r: Option<&Dimension>)
        ensures
            r is Some <==> quantity_dim_v(self@) is Some,
            r matches Some(d) ==> quantity_dim_v(self@) == Some(d@),
    {
        match self {
            InferredType::Quantity(d) => Some(d),
            InferredType::CoordinateIndexLabel { dimension, .. } => Some(dimension),
            _ => None,
        }
    }

    /// The dimension of a complex quantity.
    pub fn complex_dimension(&self) -> (r: Option<&Dimension>)
        ensures
            r is Some <==> complex_dim_v(self@) is Some,
            r matches Some(d) ==> complex_dim_v(self@) == Some(d@),
    {
        match self {
            InferredType::Complex(d) => Some(d),
            _ => None,
        }
    }
}

} // verus!
