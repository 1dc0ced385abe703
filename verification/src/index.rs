//! Index and nominal type identities.
//!
//! Names are interned: a [`Symbol`] identifies one source spelling and a
//! [`DagId`] identifies the DAG (module) that owns a declaration. Declared
//! indexes and struct types compare by owner-qualified identity; Nat-range
//! indexes compare by their normalized Nat form.

use crate::nat_form::{NatLinearForm, NatParam};
use vstd::prelude::*;

verus! {

/// Largest cardinality of one index axis.
pub const MAX_INDEX_CARDINALITY: usize = 1_000_000;

/// Identity of one DAG (a source module or an inline DAG).
#[derive(Clone, Copy, Debug, PartialEq, Eq, Structural, Hash)]
pub struct DagId(pub u64);

/// An interned source name.
#[derive(Clone, Copy, Debug, PartialEq, Eq, Structural, Hash)]
pub struct Symbol(pub u64);

/// A name qualified by the DAG that declares it.
#[derive(Clone, Copy, Debug, PartialEq, Eq, Structural, Hash)]
pub struct ResolvedName {
    pub owner: DagId,
    pub name: Symbol,
}

/// Number of elements of one concrete index axis: between one and
/// [`MAX_INDEX_CARDINALITY`].
#[derive(Clone, Copy, Debug, PartialEq, Eq, Structural, Hash)]
pub struct IndexCardinality(usize);

impl View for IndexCardinality {
    type V = nat;

    closed spec fn view(&self) -> nat {
        self.0 as nat
    }
}

impl IndexCardinality {
    #[verifier::type_invariant]
    spec fn inv(self) -> bool {
        1 <= self.0 <= MAX_INDEX_CARDINALITY
    }

    /// Validate a cardinality.
    pub fn try_from_u64(value: u64) -> (r: Option<IndexCardinality>)
        ensures
            r is Some <==> 1 <= value <= MAX_INDEX_CARDINALITY,
            r matches Some(c) ==> c@ == value,
    {
        if value >= 1 && value <= MAX_INDEX_CARDINALITY as u64 {
            Some(IndexCardinality(value as usize))
        } else {
            None
        }
    }

    /// The number of elements.
    pub fn get(&self) -> (n: usize)
        ensures
            n == self@,
            1 <= n <= MAX_INDEX_CARDINALITY,
    {
        proof {
            use_type_invariant(self);
        }
        self.0
    }
}

/// A sequence with at least one element.
#[derive(Clone, Debug, PartialEq, Eq, Hash)]
pub struct NonEmpty<T> {
    pub head: T,
    pub tail: Vec<T>,
}

impl<T> NonEmpty<T> {
    /// All elements, head first.
    pub open spec fn elements(self) -> Seq<T> {
        seq![self.head].add(self.tail@)
    }

    pub fn new(head: T, tail: Vec<T>) -> (r: NonEmpty<T>)
        ensures
            r.head == head,
            r.tail@ == tail@,
    {
        NonEmpty { head, tail }
    }

    /// Number of elements.
    pub fn len(&self) -> (n: usize)
        requires
            self.tail@.len() < usize::MAX,
        ensures
            n == self.elements().len(),
    {
        self.tail.len() + 1
    }

    /// The element at position `i`.
    pub fn get(&self, i: usize) -> (r: &T)
        requires
            i < self.elements().len(),
        ensures
            *r == self.elements()[i as int],
    {
        if i == 0 {
            &self.head
        } else {
            &self.tail[i - 1]
        }
    }
}

/// Failure to build a Nat-range index identity.
#[derive(Clone, Copy, Debug, PartialEq, Eq, Structural)]
pub enum NatRangeIndexError {
    /// A concrete range size of zero or above [`MAX_INDEX_CARDINALITY`].
    InvalidSize,
}

/// Identity of an index type: a declared index or a `range(N)` axis.
#[derive(Debug, PartialEq, Eq, Hash)]
pub enum IndexTypeRef {
    Declared(ResolvedName),
    NatRange(NatLinearForm),
}

/// Value-level identity of an index reference.
pub enum IndexRefV {
    Declared(ResolvedName),
    NatRange((nat, Seq<u64>)),
}

impl View for IndexTypeRef {
    type V = IndexRefV;

    open spec fn view(&self) -> IndexRefV {
        match self {
            IndexTypeRef::Declared(n) => IndexRefV::Declared(*n),
            IndexTypeRef::NatRange(f) => IndexRefV::NatRange(f@),
        }
    }
}

impl Clone for IndexTypeRef {
    fn clone(&self) -> (r: Self)
        ensures
            r@ == self@,
    {
        match self {
            IndexTypeRef::Declared(n) => IndexTypeRef::Declared(*n),
            IndexTypeRef::NatRange(f) => IndexTypeRef::NatRange(f.clone()),
        }
    }
}

/// A concrete range size that is a valid cardinality, when the form is constant.
pub open spec fn valid_range_form(f: (nat, Seq<u64>)) -> bool {
    f.1.len() == 0 ==> 1 <= f.0 <= MAX_INDEX_CARDINALITY
}

/// Display name of an index reference.
#[derive(Clone, Debug, PartialEq, Eq)]
pub enum IndexName {
    Declared(Symbol),
    Range(NatLinearForm),
}

impl IndexTypeRef {
    /// A declared index owned by `owner`.
    pub fn with_owner(owner: DagId, name: Symbol) -> (r: IndexTypeRef)
        ensures
            r@ == IndexRefV::Declared(ResolvedName { owner, name }),
    {
        IndexTypeRef::Declared(ResolvedName { owner, name })
    }

    /// A declared index from its resolved name.
    pub fn from_resolved(resolved: ResolvedName) -> (r: IndexTypeRef)
        ensures
            r@ == IndexRefV::Declared(resolved),
    {
        IndexTypeRef::Declared(resolved)
    }

    /// The `range(N)` index for a Nat form; a constant size must be a valid
    /// cardinality.
    pub fn from_nat_range_form(form: NatLinearForm) -> (r: Result<IndexTypeRef, NatRangeIndexError>)
        ensures
            r is Ok <==> valid_range_form(form@),
            r matches Ok(i) ==> i@ == IndexRefV::NatRange(form@),
    {
        match form.constant_value() {
            Some(n) => {
                if n == 0 || n > MAX_INDEX_CARDINALITY as u64 {
                    return Err(NatRangeIndexError::InvalidSize);
                }
            },
            None => {},
        }
        Ok(IndexTypeRef::NatRange(form))
    }

    /// The concrete `range(n)` index.
    pub fn from_cardinality(size: IndexCardinality) -> (r: IndexTypeRef)
        ensures
            r@ == IndexRefV::NatRange((size@, Seq::<u64>::empty())),
    {
        let n = size.get();
        let f = NatLinearForm::from_constant(n as u64);
        assert(f@.1 =~= Seq::<u64>::empty());
        IndexTypeRef::NatRange(f)
    }

    /// The declared identity, when this is a declared index.
    pub fn declared_resolved(&self) -> (r: Option<ResolvedName>)
        ensures
            r == (match self@ {
                IndexRefV::Declared(n) => Some(n),
                IndexRefV::NatRange(_) => None::<ResolvedName>,
            }),
    {
        match self {
            IndexTypeRef::Declared(n) => Some(*n),
            IndexTypeRef::NatRange(_) => None,
        }
    }

    /// The Nat form of a `range(N)` index.
    pub fn nat_range_form(&self) -> (r: Option<NatLinearForm>)
        ensures
            r is Some <==> self@ is NatRange,
            r matches Some(f) ==> self@ == IndexRefV::NatRange(f@),
    {
        match self {
            IndexTypeRef::Declared(_) => None,
            IndexTypeRef::NatRange(f) => Some(f.clone()),
        }
    }

    /// The cardinality of a concrete `range(n)` index.
    pub fn concrete_nat_range(&self) -> (r: Option<IndexCardinality>)
        ensures
            r is Some <==> (match self@ {
                IndexRefV::NatRange(f) => f.1.len() == 0 && 1 <= f.0 <= MAX_INDEX_CARDINALITY,
                IndexRefV::Declared(_) => false,
            }),
            r matches Some(c) ==> self@ == IndexRefV::NatRange((c@, Seq::<u64>::empty())),
    {
        match self {
            IndexTypeRef::Declared(_) => None,
            IndexTypeRef::NatRange(f) => match f.constant_value() {
                Some(n) => {
                    assert(f@.1 =~= Seq::<u64>::empty());
                    IndexCardinality::try_from_u64(n)
                },
                None => None,
            },
        }
    }

    /// The name shown in diagnostics.
    pub fn display_name(&self) -> (r: IndexName)
        ensures
            match (r, self@) {
                (IndexName::Declared(s), IndexRefV::Declared(n)) => s == n.name,
                (IndexName::Range(f), IndexRefV::NatRange(v)) => f@ == v,
                _ => false,
            },
    {
        match self {
            IndexTypeRef::Declared(n) => IndexName::Declared(n.name),
            IndexTypeRef::NatRange(f) => IndexName::Range(f.clone()),
        }
    }

    /// Identity comparison.
    pub fn matches_ref(&self, other: &IndexTypeRef) -> (b: bool)
        ensures
            b == (self@ == other@),
    {
        match (self, other) {
            (IndexTypeRef::Declared(a), IndexTypeRef::Declared(b)) => *a == *b,
            (IndexTypeRef::NatRange(a), IndexTypeRef::NatRange(b)) => a.equals(b),
            _ => false,
        }
    }
}

/// A finite-index obligation that a concrete type cannot discharge.
#[derive(Debug)]
pub enum FiniteIndexObligationError {
    /// `Fin(N)` whose size still mentions a Nat parameter.
    Unresolved(NatLinearForm),
    /// `Fin(0)`: a finite index must contain at least one key.
    Empty,
}

/// Check the finite-index obligation of one index reference in a concrete
/// type: a `range(N)` index must have a constant, nonzero size; declared
/// indexes carry no obligation.
pub fn validate_finite_index(index: &IndexTypeRef) -> (r: Result<(), FiniteIndexObligationError>)
    ensures
        match index@ {
            IndexRefV::Declared(_) => r is Ok,
            IndexRefV::NatRange(f) => {
                &&& (f.1.len() != 0 <==> r is Err && r->Err_0 is Unresolved)
                &&& (r matches Err(FiniteIndexObligationError::Unresolved(g)) ==> g@ == f)
                &&& (f.1.len() == 0 && f.0 == 0 <==> r matches Err(FiniteIndexObligationError::Empty))
                &&& (r is Ok <==> f.1.len() == 0 && f.0 != 0)
            },
        },
{
    match index {
        IndexTypeRef::Declared(_) => Ok(()),
        IndexTypeRef::NatRange(form) => match form.constant_value() {
            None => Err(FiniteIndexObligationError::Unresolved(form.clone())),
            Some(0) => Err(FiniteIndexObligationError::Empty),
            Some(_) => Ok(()),
        },
    }
}

/// Identity of a declared struct or union type.
#[derive(Clone, Copy, Debug, PartialEq, Eq, Structural, Hash)]
pub struct StructTypeRef {
    resolved: ResolvedName,
}

/// The struct type reference for a resolved name.
pub closed spec fn struct_ref_v(n: ResolvedName) -> StructTypeRef {
    StructTypeRef { resolved: n }
}

/// A struct type reference is determined by its resolved name.
pub proof fn lemma_struct_ref_v(s: StructTypeRef)
    ensures
        s == struct_ref_v(s.spec_resolved()),
        struct_ref_v(s.spec_resolved()).spec_resolved() == s.spec_resolved(),
{
}

impl StructTypeRef {
    pub closed spec fn spec_resolved(self) -> ResolvedName {
        self.resolved
    }

    /// A struct type owned by `owner`.
    pub fn with_owner(owner: DagId, name: Symbol) -> (r: StructTypeRef)
        ensures
            r.spec_resolved() == (ResolvedName { owner, name }),
    {
        StructTypeRef { resolved: ResolvedName { owner, name } }
    }

    /// A struct type from its resolved name.
    pub fn from_resolved(resolved: ResolvedName) -> (r: StructTypeRef)
        ensures
            r.spec_resolved() == resolved,
    {
        StructTypeRef { resolved }
    }

    pub fn resolved(&self) -> (r: &ResolvedName)
        ensures
            *r == self.spec_resolved(),
    {
        &self.resolved
    }

    pub fn name(&self) -> (r: &Symbol)
        ensures
            *r == self.spec_resolved().name,
    {
        &self.resolved.name
    }

    /// Owner-sensitive identity comparison.
    pub fn matches_ref(&self, other: &StructTypeRef) -> (b: bool)
        ensures
            b == (*self == *other),
    {
        self.resolved == other.resolved
    }
}

/// The linear form of one generic Nat parameter, checked against the
/// supported parameter positions.
pub fn nat_param_form(param: NatParam) -> (r: Option<NatLinearForm>)
    ensures
        r is Some <==> param.0 < 0x10000,
        r matches Some(f) ==> f@.0 == 0 && forall|i: int| 0 <= i ==> #[trigger] f.coefficient(i) == (
        if i == param.0 {
            1nat
        } else {
            0nat
        }),
{
    if param.0 < 0x10000 {
        Some(NatLinearForm::from_var(param))
    } else {
        None
    }
}

} // verus!
