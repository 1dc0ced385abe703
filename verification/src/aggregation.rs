//! Typing of one-argument reductions over an indexed collection.
//!
//! `sum`, `min`, `max` and `mean` reduce a collection of quantities along its
//! single axis to one quantity of the same dimension; `count` counts the
//! elements of any collection and gives an `Int`.  A collection with several
//! axes is rejected rather than reduced along an implicitly chosen one.  A
//! call whose argument is not indexed is not a reduction and is typed as an
//! ordinary built-in instead.

use crate::builtin_call::AggregationFn;
use crate::rules::{Operand, Span};
use crate::scan::{rank, rank_usize, rank_v};
use crate::types::{quantity_dim_v, InferredType, TypeV};
use vstd::prelude::*;

verus! {

/// Why a reduction does not type.
#[derive(Clone, Copy, Debug, PartialEq, Eq, Structural)]
pub enum AggregationError {
    /// The collection has `rank` axes (saturating at `usize::MAX`).
    MultiAxis { rank: usize, span: Span },
    /// A numeric reduction over elements that are not quantities.
    ExpectedQuantityElements { span: Span },
}

/// The type of a reduction of a value of type `t`, or `None` when `t` is
/// not indexed.
pub open spec fn aggregation_v(kind: AggregationFn, t: TypeV, span: Span) -> Option<Result<TypeV, AggregationError>> {
    match t {
        TypeV::Indexed(e, _) => Some(
            if rank_v(*e) != 0 {
                Err(AggregationError::MultiAxis { rank: rank_usize(t), span })
            } else if kind is Count {
                Ok(TypeV::Int)
            } else if quantity_dim_v(*e) is Some {
                Ok(*e)
            } else {
                Err(AggregationError::ExpectedQuantityElements { span })
            },
        ),
        _ => None,
    }
}

/// Types a reduction of `arg`; `None` when the argument is not indexed.
pub fn aggregation_rule(kind: AggregationFn, arg: &Operand) -> (r: Option<Result<InferredType, AggregationError>>)
    ensures
        match (r, aggregation_v(kind, arg.ty@, arg.span)) {
            (Some(Ok(t)), Some(Ok(v))) => t@ == v,
            (Some(Err(e)), Some(Err(f))) => e == f,
            (None, None) => true,
            _ => false,
        },
{
    match &arg.ty {
        InferredType::Indexed { element, .. } => {
            match &**element {
                InferredType::Indexed { .. } => {
                    proof {
                        assert(rank_v(element@) > 0);
                    }
                    return Some(Err(AggregationError::MultiAxis { rank: rank(&arg.ty), span: arg.span }));
                },
                _ => {
                    proof {
                        assert(rank_v(element@) == 0);
                    }
                },
            }
            match kind {
                AggregationFn::Count => Some(Ok(InferredType::Int)),
                _ => match element.quantity_dimension() {
                    Some(_) => Some(Ok((**element).clone())),
                    None => Some(Err(AggregationError::ExpectedQuantityElements { span: arg.span })),
                },
            }
        },
        _ => None,
    }
}

} // verus!
