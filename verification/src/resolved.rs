//! Resolved declaration types and their comparison with inferred types.
//!
//! A resolved type is a declaration's annotation after name resolution: its
//! structs and indexes carry canonical identities, its generic arguments are
//! bound, and an indexed type lists its axes outermost first.  Comparison
//! with an inferred type preserves those identities.

use crate::declared::{types_match, types_match_v, DeclaredType};
use crate::dimension::Dimension;
use crate::index::{lemma_struct_ref_v, struct_ref_v, IndexRefV, IndexTypeRef, ResolvedName, Symbol};
use crate::nat_form::NatLinearForm;
use crate::types::{
    args_view, arg_view, is_int_like_v, lemma_args_view, quantity_dim_v, ArgV, InferredGenericArg,
    InferredIndex, InferredStructType, InferredType, TimeScale, TypeV,
};
use vstd::prelude::*;

verus! {

broadcast use vstd::std_specs::vec::axiom_vec_index_decreases;

/// An axis of a resolved indexed type.
#[derive(Debug, PartialEq, Eq)]
pub enum ResolvedIndex {
    /// A declared index.
    Concrete(ResolvedName),
    /// A finite `range(N)` axis.
    Finite(NatLinearForm),
    /// An unbound generic index parameter.
    GenericParam(Symbol),
}

/// A resolved dimension argument.
#[derive(Debug, PartialEq, Eq)]
pub enum ResolvedDimArg {
    Dimensionless,
    Concrete(Dimension),
    /// An unbound generic dimension parameter.
    GenericParam(Symbol),
    /// A dimension expression over generic parameters.
    Expr,
}

/// A resolved generic argument of a struct type.
#[derive(Debug, PartialEq, Eq)]
pub enum ResolvedGenericArg {
    Dim(ResolvedDimArg),
    Index(ResolvedIndex),
    Nat(NatLinearForm),
    Type(ResolvedTypeExpr),
}

/// A resolved declaration type.
#[derive(Debug, PartialEq, Eq)]
pub enum ResolvedTypeExpr {
    Dimensionless,
    Quantity(Dimension),
    Bool,
    Int,
    Datetime(TimeScale),
    /// A label of a declared index.
    Label(ResolvedName),
    IndexArg(ResolvedIndex),
    /// A struct without generic parameters.
    Struct(ResolvedName),
    GenericStruct { name: ResolvedName, generic_args: Vec<ResolvedGenericArg> },
    /// An unbound generic dimension parameter.
    GenericDimParam(Symbol),
    /// An unbound generic type parameter.
    GenericTypeParam(Symbol),
    /// A dimension expression over generic parameters.
    GenericDimExpr,
    /// `base` indexed by `indexes`, outermost axis first.
    Indexed { base: Box<ResolvedTypeExpr>, indexes: Vec<ResolvedIndex> },
}

/// Whether a resolved axis is the inferred axis `actual`.  An unbound
/// generic parameter matches nothing.
pub open spec fn index_matches_v(index: ResolvedIndex, actual: IndexRefV) -> bool {
    match index {
        ResolvedIndex::Concrete(n) => actual == IndexRefV::Declared(n),
        ResolvedIndex::Finite(f) => actual == IndexRefV::NatRange(f@),
        ResolvedIndex::GenericParam(_) => false,
    }
}

/// Whether a resolved type accepts an inferred type (viewed).
pub open spec fn resolved_matches_v(r: ResolvedTypeExpr, i: TypeV) -> bool
    decreases r, 0int,
{
    match r {
        ResolvedTypeExpr::Dimensionless => match quantity_dim_v(i) {
            Some(d) => d.len() == 0,
            None => false,
        },
        ResolvedTypeExpr::Bool => i is Bool,
        ResolvedTypeExpr::Int => is_int_like_v(i),
        ResolvedTypeExpr::Datetime(s) => i == TypeV::Datetime(s),
        ResolvedTypeExpr::Quantity(d) => quantity_dim_v(i) == Some(d@),
        ResolvedTypeExpr::IndexArg(x) => match i {
            TypeV::IndexArg(a) => index_matches_v(x, a),
            _ => false,
        },
        ResolvedTypeExpr::Struct(n) => match i {
            TypeV::Struct(s, args) => s.spec_resolved() == n && args.len() == 0,
            _ => false,
        },
        ResolvedTypeExpr::GenericStruct { name, generic_args } => match i {
            TypeV::Struct(s, args) => s.spec_resolved() == name && generic_args@.len() == args.len()
                && rargs_match_v(generic_args, args, generic_args@.len() as int),
            _ => false,
        },
        ResolvedTypeExpr::Indexed { base, indexes } => indexed_matches_v(*base, indexes@, i),
        _ => false,
    }
}

/// The first `n` resolved generic arguments accept their inferred ones.
pub open spec fn rargs_match_v(args: Vec<ResolvedGenericArg>, inferred: Seq<ArgV>, n: int) -> bool
    decreases args, n,
{
    if n <= 0 || n > args@.len() {
        true
    } else {
        rargs_match_v(args, inferred, n - 1) && rarg_match_v(args@[n - 1], inferred[n - 1])
    }
}

/// Whether one resolved generic argument accepts an inferred one.
pub open spec fn rarg_match_v(a: ResolvedGenericArg, b: ArgV) -> bool
    decreases a, 0int,
{
    match (a, b) {
        (ResolvedGenericArg::Dim(d), ArgV::Dim(x)) => match d {
            ResolvedDimArg::Dimensionless => x.len() == 0,
            ResolvedDimArg::Concrete(c) => c@ == x,
            _ => false,
        },
        (ResolvedGenericArg::Index(r), ArgV::Index(x)) => index_matches_v(r, x),
        (ResolvedGenericArg::Nat(f), ArgV::Nat(x)) => f@ == x,
        (ResolvedGenericArg::Type(t), ArgV::Type(x)) => resolved_matches_v(t, *x),
        _ => false,
    }
}

/// Whether `i` is `base` wrapped in the axes `indexes`, outermost first.
pub open spec fn indexed_matches_v(base: ResolvedTypeExpr, indexes: Seq<ResolvedIndex>, i: TypeV) -> bool
    decreases base, indexes.len() + 1,
{
    if indexes.len() == 0 {
        resolved_matches_v(base, i)
    } else {
        match i {
            TypeV::Indexed(e, a) => index_matches_v(indexes[0], a) && indexed_matches_v(
                base,
                indexes.drop_first(),
                *e,
            ),
            _ => false,
        }
    }
}

proof fn lemma_rargs_match_v(args: Vec<ResolvedGenericArg>, inferred: Seq<ArgV>, n: int)
    requires
        0 <= n <= args@.len(),
    ensures
        rargs_match_v(args, inferred, n) == forall|k: int|
            0 <= k < n ==> #[trigger] rarg_match_v(args@[k], inferred[k]),
    decreases n,
{
    if n > 0 {
        lemma_rargs_match_v(args, inferred, n - 1);
        if forall|k: int| 0 <= k < n ==> #[trigger] rarg_match_v(args@[k], inferred[k]) {
            assert forall|k: int| 0 <= k < n - 1 implies #[trigger] rarg_match_v(
                args@[k],
                inferred[k],
            ) by {}
            assert(rarg_match_v(args@[n - 1], inferred[n - 1]));
        }
    }
}

/// Whether a resolved axis is the inferred axis.
pub fn resolved_index_matches_inferred(index: &ResolvedIndex, actual: &InferredIndex) -> (b: bool)
    ensures
        b == index_matches_v(*index, actual@),
{
    match index {
        ResolvedIndex::Concrete(expected) => actual.matches_resolved(expected),
        ResolvedIndex::Finite(form) => match actual.nat_range_form() {
            Some(actual_form) => actual_form.equals(form),
            None => false,
        },
        ResolvedIndex::GenericParam(_) => false,
    }
}

/// Whether a resolved generic argument accepts an inferred one.  Dimension
/// arguments over unbound generic parameters accept nothing.
pub fn resolved_generic_arg_matches(resolved: &ResolvedGenericArg, inferred: &InferredGenericArg) -> (b:
    bool)
    ensures
        b == rarg_match_v(*resolved, inferred@),
    decreases resolved, 0int,
{
    match (resolved, inferred) {
        (ResolvedGenericArg::Dim(d), InferredGenericArg::Dim(x)) => match d {
            ResolvedDimArg::Dimensionless => x.is_dimensionless(),
            ResolvedDimArg::Concrete(c) => c.equals(x),
            ResolvedDimArg::GenericParam(_) | ResolvedDimArg::Expr => false,
        },
        (ResolvedGenericArg::Index(r), InferredGenericArg::Index(x)) => resolved_index_matches_inferred(
            r,
            x,
        ),
        (ResolvedGenericArg::Nat(f), InferredGenericArg::Nat(x)) => f.equals(x),
        (ResolvedGenericArg::Type(t), InferredGenericArg::Type(x)) => resolved_type_matches_inferred(
            t,
            x,
        ),
        _ => false,
    }
}

/// Whether `inferred` is `base` wrapped in the axes `indexes`, outermost
/// first.
pub fn resolved_indexed_type_matches_inferred(
    base: &ResolvedTypeExpr,
    indexes: &Vec<ResolvedIndex>,
    inferred: &InferredType,
) -> (b: bool)
    ensures
        b == indexed_matches_v(*base, indexes@, inferred@),
    decreases base, 1int,
{
    let mut current: &InferredType = inferred;
    let mut k: usize = 0;
    proof {
        assert(indexes@.skip(0) =~= indexes@);
    }
    while k < indexes.len()
        invariant
            k <= indexes@.len(),
            indexed_matches_v(*base, indexes@, inferred@) == indexed_matches_v(
                *base,
                indexes@.skip(k as int),
                current@,
            ),
        decreases indexes@.len() - k,
    {
        proof {
            let rest = indexes@.skip(k as int);
            assert(rest.drop_first() =~= indexes@.skip(k + 1));
            assert(rest[0] == indexes@[k as int]);
        }
        match current {
            InferredType::Indexed { element, index } => {
                if !resolved_index_matches_inferred(&indexes[k], index) {
                    return false;
                }
                current = element;
            },
            _ => return false,
        }
        k += 1;
    }
    proof {
        assert(indexes@.skip(k as int).len() == 0);
    }
    resolved_type_matches_inferred(base, current)
}

/// Whether a resolved declaration type accepts an inferred expression type,
/// comparing struct and index identities canonically.
pub fn resolved_type_matches_inferred(resolved: &ResolvedTypeExpr, inferred: &InferredType) -> (b: bool)
    ensures
        b == resolved_matches_v(*resolved, inferred@),
    decreases resolved, 0int,
{
    match (resolved, inferred) {
        (ResolvedTypeExpr::Dimensionless, _) => match inferred.quantity_dimension() {
            Some(d) => d.is_dimensionless(),
            None => false,
        },
        (ResolvedTypeExpr::Bool, InferredType::Bool) => true,
        (ResolvedTypeExpr::Int, _) => inferred.is_int_like(),
        (ResolvedTypeExpr::Datetime(expected), InferredType::Datetime(actual)) => *expected == *actual,
        (ResolvedTypeExpr::Quantity(expected), _) => match inferred.quantity_dimension() {
            Some(d) => d.equals(expected),
            None => false,
        },
        (ResolvedTypeExpr::IndexArg(expected), InferredType::IndexArg(actual)) => {
            resolved_index_matches_inferred(expected, actual)
        },
        (ResolvedTypeExpr::Struct(expected), InferredType::Struct(actual, args)) => {
            proof {
                lemma_args_view(*args, args@.len() as int);
            }
            actual.matches_resolved(expected) && args.len() == 0
        },
        (
            ResolvedTypeExpr::GenericStruct { name, generic_args },
            InferredType::Struct(actual, actual_args),
        ) => {
            proof {
                lemma_args_view(*actual_args, actual_args@.len() as int);
            }
            if !actual.matches_resolved(name) || generic_args.len() != actual_args.len() {
                return false;
            }
            let ghost iargs = args_view(*actual_args, actual_args@.len() as int);
            let mut k: usize = 0;
            #[verifier::loop_isolation(false)]
            while k < generic_args.len()
                invariant
                    generic_args@.len() == actual_args@.len(),
                    iargs == args_view(*actual_args, actual_args@.len() as int),
                    iargs.len() == actual_args@.len(),
                    forall|j: int| 0 <= j < actual_args@.len() ==> #[trigger] iargs[j] == arg_view(
                        actual_args@[j],
                    ),
                    k <= generic_args@.len(),
                    forall|j: int| 0 <= j < k ==> #[trigger] rarg_match_v(generic_args@[j], iargs[j]),
                decreases generic_args@.len() - k,
            {
                proof {
                    assert(decreases_to!(*resolved => generic_args@[k as int]));
                }
                if !resolved_generic_arg_matches(&generic_args[k], &actual_args[k]) {
                    proof {
                        lemma_rargs_match_v(*generic_args, iargs, generic_args@.len() as int);
                        assert(!rarg_match_v(generic_args@[k as int], iargs[k as int]));
                    }
                    return false;
                }
                k += 1;
            }
            proof {
                lemma_rargs_match_v(*generic_args, iargs, generic_args@.len() as int);
            }
            true
        },
        (ResolvedTypeExpr::Indexed { base, indexes }, _) => {
            resolved_indexed_type_matches_inferred(base, indexes, inferred)
        },
        _ => false,
    }
}

/// Whether a declaration's annotation accepts the inferred type of its
/// expression: through the resolved type when one is recorded for the
/// declaration, else through the declared type.
pub fn annotation_accepts(
    declared: &DeclaredType,
    resolved: Option<&ResolvedTypeExpr>,
    inferred: &InferredType,
) -> (b: bool)
    ensures
        b == match resolved {
            Some(r) => resolved_matches_v(*r, inferred@),
            None => types_match_v(declared@, inferred@),
        },
{
    match resolved {
        Some(r) => resolved_type_matches_inferred(r, inferred),
        None => types_match(declared, inferred),
    }
}

/// The axis a resolved index denotes; none for an unbound parameter.
pub open spec fn rindex_v(i: ResolvedIndex) -> Option<IndexRefV> {
    match i {
        ResolvedIndex::Concrete(n) => Some(IndexRefV::Declared(n)),
        ResolvedIndex::Finite(f) => Some(IndexRefV::NatRange(f@)),
        ResolvedIndex::GenericParam(_) => None,
    }
}

/// `t` indexed by the first `n` axes of `indexes`, the first outermost.
pub open spec fn wrap_axes_v(t: TypeV, indexes: Seq<ResolvedIndex>, n: int) -> Option<TypeV>
    decreases n,
{
    if n <= 0 || n > indexes.len() {
        Some(t)
    } else {
        match rindex_v(indexes[n - 1]) {
            None => None,
            Some(a) => wrap_axes_v(TypeV::Indexed(Box::new(t), a), indexes, n - 1),
        }
    }
}

/// The type a resolved declaration type denotes, when it mentions no
/// unbound generic parameter and no generic struct application.
pub open spec fn resolved_type_v(r: ResolvedTypeExpr) -> Option<TypeV>
    decreases r, 0int,
{
    match r {
        ResolvedTypeExpr::Dimensionless => Some(TypeV::Quantity(Seq::empty())),
        ResolvedTypeExpr::Quantity(d) => Some(TypeV::Quantity(d@)),
        ResolvedTypeExpr::Bool => Some(TypeV::Bool),
        ResolvedTypeExpr::Int => Some(TypeV::Int),
        ResolvedTypeExpr::Datetime(s) => Some(TypeV::Datetime(s)),
        ResolvedTypeExpr::Label(n) => Some(TypeV::Key(IndexRefV::Declared(n))),
        ResolvedTypeExpr::IndexArg(i) => match rindex_v(i) {
            Some(a) => Some(TypeV::IndexArg(a)),
            None => None,
        },
        ResolvedTypeExpr::Struct(n) => Some(TypeV::Struct(struct_ref_v(n), Seq::empty())),
        ResolvedTypeExpr::Indexed { base, indexes } => match resolved_type_v(*base) {
            Some(b) => wrap_axes_v(b, indexes@, indexes@.len() as int),
            None => None,
        },
        _ => None,
    }
}

fn index_of(i: &ResolvedIndex) -> (r: Option<InferredIndex>)
    ensures
        match (r, rindex_v(*i)) {
            (Some(x), Some(a)) => x@ == a,
            (None, None) => true,
            _ => false,
        },
{
    match i {
        ResolvedIndex::Concrete(n) => Some(InferredIndex::from_resolved(*n)),
        ResolvedIndex::Finite(f) => Some(InferredIndex::from_ref(IndexTypeRef::NatRange(f.clone()))),
        ResolvedIndex::GenericParam(_) => None,
    }
}

/// The inferred type a resolved declaration type denotes.
pub fn resolved_to_inferred(r: &ResolvedTypeExpr) -> (o: Option<InferredType>)
    ensures
        match (o, resolved_type_v(*r)) {
            (Some(t), Some(v)) => t@ == v,
            (None, None) => true,
            _ => false,
        },
    decreases r,
{
    match r {
        ResolvedTypeExpr::Dimensionless => {
            let d = Dimension::dimensionless();
            proof {
                assert(d@ =~= Seq::<(int, int)>::empty());
            }
            Some(InferredType::Quantity(d))
        },
        ResolvedTypeExpr::Quantity(d) => Some(InferredType::Quantity(d.clone())),
        ResolvedTypeExpr::Bool => Some(InferredType::Bool),
        ResolvedTypeExpr::Int => Some(InferredType::Int),
        ResolvedTypeExpr::Datetime(s) => Some(InferredType::Datetime(*s)),
        ResolvedTypeExpr::Label(n) => Some(InferredType::Key(InferredIndex::from_resolved(*n))),
        ResolvedTypeExpr::IndexArg(i) => match index_of(i) {
            Some(x) => Some(InferredType::IndexArg(x)),
            None => None,
        },
        ResolvedTypeExpr::Struct(n) => {
            let s = InferredStructType::from_resolved(*n);
            let args: Vec<InferredGenericArg> = Vec::new();
            proof {
                lemma_struct_ref_v(s.spec_ref());
                assert(args_view(args, 0) =~= Seq::<ArgV>::empty());
            }
            Some(InferredType::Struct(s, args))
        },
        ResolvedTypeExpr::Indexed { base, indexes } => {
            let mut t = match resolved_to_inferred(base) {
                Some(b) => b,
                None => {
                    return None;
                },
            };
            let ghost bv = t@;
            let mut k: usize = indexes.len();
            proof {
                assert(resolved_type_v(*r) == wrap_axes_v(bv, indexes@, indexes@.len() as int));
            }
            while k > 0
                invariant
                    k <= indexes@.len(),
                    resolved_type_v(*r) == wrap_axes_v(t@, indexes@, k as int),
                decreases k,
            {
                let a = match index_of(&indexes[k - 1]) {
                    Some(a) => a,
                    None => {
                        return None;
                    },
                };
                t = InferredType::Indexed { element: Box::new(t), index: a };
                k -= 1;
            }
            Some(t)
        },
        _ => None,
    }
}

} // verus!
