//! Typing of comprehensions `for a: A, b: B { body }`.
//!
//! Each binding introduces a loop local: a case of a named index, a
//! coordinate label of a coordinate range, or a `Fin(N)` position of a
//! nat range.  The comprehension holds one body value per combination, so its
//! type is the body's type indexed by the bindings' axes, the first binding
//! outermost.

use crate::index::{valid_range_form, IndexRefV, ResolvedName};
use crate::index_access::{axis_def, axis_def_v, AxisDef};
use crate::keys::{indexed_from, indexed_over_v};
use crate::nat_form::NatLinearForm;
use crate::rules::Span;
use crate::types::{InferredIndex, InferredType, TypeV};
use vstd::prelude::*;

verus! {

/// The index a comprehension binding ranges over.
#[derive(Clone, Debug, PartialEq, Eq)]
pub enum ForBindingIndex {
    /// A declared index.
    Named { index: ResolvedName, span: Span },
    /// `range(N)` for a Nat form `N`.
    Range { form: NatLinearForm, span: Span },
}

/// Why a comprehension binding cannot be typed.
#[derive(Clone, Copy, Debug, PartialEq, Eq, Structural)]
pub enum ForCompError {
    /// The declared index has no definition.
    UnknownIndex { index: ResolvedName, span: Span },
    /// A `range(N)` whose constant size is zero or beyond the cardinality
    /// limit.
    InvalidRange { span: Span },
}

/// The type of the loop local a binding introduces.
pub open spec fn binding_local_v(defs: Seq<(ResolvedName, AxisDef)>, b: ForBindingIndex) -> Result<
    TypeV,
    ForCompError,
> {
    match b {
        ForBindingIndex::Named { index, span } => {
            let axis = IndexRefV::Declared(index);
            match axis_def_v(defs, axis) {
                None => Err(ForCompError::UnknownIndex { index, span }),
                Some(AxisDef::Named) => Ok(TypeV::NamedIndexCase(axis)),
                Some(AxisDef::Coordinate(d)) => Ok(TypeV::CoordinateIndexLabel(d@, axis)),
                Some(AxisDef::NatRange(n)) => Ok(TypeV::Fin((n as nat, Seq::empty()))),
            }
        },
        ForBindingIndex::Range { form, .. } => Ok(TypeV::Fin(form@)),
    }
}

/// The axis a binding ranges over.
pub open spec fn binding_axis_v(b: ForBindingIndex) -> IndexRefV {
    match b {
        ForBindingIndex::Named { index, .. } => IndexRefV::Declared(index),
        ForBindingIndex::Range { form, .. } => IndexRefV::NatRange(form@),
    }
}

/// A binding's axis is a valid index: a `range(N)` must have a valid
/// constant size.
pub open spec fn binding_valid_v(b: ForBindingIndex) -> bool {
    match b {
        ForBindingIndex::Named { .. } => true,
        ForBindingIndex::Range { form, .. } => valid_range_form(form@),
    }
}

pub open spec fn binding_span_v(b: ForBindingIndex) -> Span {
    match b {
        ForBindingIndex::Named { span, .. } => span,
        ForBindingIndex::Range { span, .. } => span,
    }
}

/// The axes of the bindings, in order.
pub open spec fn binding_axes_v(bs: Seq<ForBindingIndex>) -> Seq<IndexRefV> {
    bs.map_values(|b: ForBindingIndex| binding_axis_v(b))
}

/// The type of the loop local a binding introduces: a case of a named
/// index, a coordinate label of a coordinate range, `Fin(n)` for a declared
/// nat range of `n` positions and `Fin(N)` for `range(N)`.
pub fn for_binding_local_type(binding: &ForBindingIndex, defs: &Vec<(ResolvedName, AxisDef)>) -> (r: Result<
    InferredType,
    ForCompError,
>)
    ensures
        match (r, binding_local_v(defs@, *binding)) {
            (Ok(t), Ok(v)) => t@ == v,
            (Err(e), Err(f)) => e == f,
            _ => false,
        },
{
    match binding {
        ForBindingIndex::Named { index, span } => {
            let axis = InferredIndex::from_resolved(*index);
            match axis_def(defs, &axis) {
                None => Err(ForCompError::UnknownIndex { index: *index, span: *span }),
                Some(AxisDef::Named) => Ok(InferredType::NamedIndexCase(axis)),
                Some(AxisDef::Coordinate(d)) => Ok(
                    InferredType::CoordinateIndexLabel { dimension: d.clone(), index: axis },
                ),
                Some(AxisDef::NatRange(n)) => {
                    let f = NatLinearForm::from_constant(*n);
                    proof {
                        assert(f@.1 =~= Seq::<u64>::empty());
                    }
                    Ok(InferredType::Fin(f))
                },
            }
        },
        ForBindingIndex::Range { form, .. } => Ok(InferredType::Fin(form.clone())),
    }
}

/// The type of a comprehension once its body is typed: the body indexed by
/// the bindings' axes, the first binding outermost.  Bindings are turned
/// into axes from the last one back, so the last invalid `range(N)` is the
/// one reported.
pub fn for_comp_type(bindings: &Vec<ForBindingIndex>, body: InferredType) -> (r: Result<
    InferredType,
    ForCompError,
>)
    ensures
        (forall|j: int| 0 <= j < bindings@.len() ==> #[trigger] binding_valid_v(bindings@[j])) ==> (r matches Ok(
            t,
        ) && t@ == indexed_over_v(body@, binding_axes_v(bindings@))),
        r is Ok ==> forall|j: int| 0 <= j < bindings@.len() ==> #[trigger] binding_valid_v(bindings@[j]),
        r matches Err(e) ==> exists|j: int|
            {
                &&& 0 <= j < bindings@.len()
                &&& !#[trigger] binding_valid_v(bindings@[j])
                &&& e == (ForCompError::InvalidRange { span: binding_span_v(bindings@[j]) })
                &&& forall|i: int| j < i < bindings@.len() ==> #[trigger] binding_valid_v(bindings@[i])
            },
{
    let ghost axes = binding_axes_v(bindings@);
    let ghost b = body@;
    let mut result = body;
    let mut k: usize = bindings.len();
    while 0 < k
        invariant
            k <= bindings@.len(),
            axes == binding_axes_v(bindings@),
            axes.len() == bindings@.len(),
            result@ == indexed_from(b, axes, k as int),
            forall|i: int| k <= i < bindings@.len() ==> #[trigger] binding_valid_v(bindings@[i]),
        decreases k,
    {
        let index = match &bindings[k - 1] {
            ForBindingIndex::Named { index, .. } => InferredIndex::from_resolved(*index),
            ForBindingIndex::Range { form, span } => match InferredIndex::from_nat_range_form(form.clone()) {
                Ok(i) => i,
                Err(_) => {
                    proof {
                        assert(!binding_valid_v(bindings@[k - 1]));
                    }
                    return Err(ForCompError::InvalidRange { span: *span });
                },
            },
        };
        proof {
            assert(index@ == axes[k - 1]);
        }
        result = InferredType::Indexed { element: Box::new(result), index };
        k -= 1;
    }
    Ok(result)
}

} // verus!
