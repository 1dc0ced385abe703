//! Types of domain-constraint bounds.
//!
//! A declaration such as `param m: Mass(min: 1.0 kg)` constrains its value by
//! bound expressions. Each bound is type-checked against the constrained base
//! type (an indexed type is constrained element-wise): a quantity bound must
//! have the target's dimension (a bare `Int` is accepted only for a
//! dimensionless target), an `Int` target takes exact `Int` bounds, and a
//! datetime target takes datetimes of the same time scale.

use crate::dimension::Dimension;
use crate::types::{InferredType, TimeScale, TypeV};
use vstd::prelude::*;

verus! {

/// What a bound expression must infer to for one constrained base type.
#[derive(Debug)]
pub enum ExpectedBound {
    Quantity(Dimension),
    Int,
    Datetime(TimeScale),
}

/// Value-level view of an expected bound.
pub enum ExpectedBoundV {
    Quantity(Seq<(int, int)>),
    Int,
    Datetime(TimeScale),
}

impl View for ExpectedBound {
    type V = ExpectedBoundV;

    open spec fn view(&self) -> ExpectedBoundV {
        match self {
            ExpectedBound::Quantity(d) => ExpectedBoundV::Quantity(d@),
            ExpectedBound::Int => ExpectedBoundV::Int,
            ExpectedBound::Datetime(s) => ExpectedBoundV::Datetime(*s),
        }
    }
}

/// Why a bound expression does not fit its constrained type.
#[derive(Clone, Copy, Debug, PartialEq, Eq, Structural)]
pub enum DomainBoundError {
    /// A quantity target with a bound of another dimension or kind.
    DimensionMismatch,
    /// An `Int` target with a bound that is not an exact `Int`.
    IntTypeMismatch,
    /// A datetime target with a bound that is not a datetime of its scale.
    DatetimeTypeMismatch,
}

/// The bound a target accepts, looking through indexed types to their
/// element; `None` for targets that carry no numeric bounds.
pub open spec fn expected_bound_v(target: TypeV) -> Option<ExpectedBoundV>
    decreases target,
{
    match target {
        TypeV::Quantity(d) => Some(ExpectedBoundV::Quantity(d)),
        TypeV::Int => Some(ExpectedBoundV::Int),
        TypeV::Datetime(s) => Some(ExpectedBoundV::Datetime(s)),
        TypeV::Indexed(e, _) => expected_bound_v(*e),
        _ => None,
    }
}

/// Whether a bound of type `bound` fits the expectation.
pub open spec fn bound_check_v(bound: TypeV, expected: ExpectedBoundV) -> Result<(), DomainBoundError> {
    match expected {
        ExpectedBoundV::Quantity(target) => {
            let ok = match bound {
                TypeV::Quantity(d) => d == target,
                TypeV::Int => target.len() == 0,
                _ => false,
            };
            if ok {
                Ok(())
            } else {
                Err(DomainBoundError::DimensionMismatch)
            }
        },
        ExpectedBoundV::Int => if bound is Int {
            Ok(())
        } else {
            Err(DomainBoundError::IntTypeMismatch)
        },
        ExpectedBoundV::Datetime(scale) => if bound == TypeV::Datetime(scale) {
            Ok(())
        } else {
            Err(DomainBoundError::DatetimeTypeMismatch)
        },
    }
}

/// The bound a constrained declaration type accepts.
pub fn expected_bound_from_inferred(target: &InferredType) -> (r: Option<ExpectedBound>)
    ensures
        match (r, expected_bound_v(target@)) {
            (Some(e), Some(v)) => e@ == v,
            (None, None) => true,
            _ => false,
        },
    decreases target,
{
    match target {
        InferredType::Quantity(d) => Some(ExpectedBound::Quantity(d.clone())),
        InferredType::Int => Some(ExpectedBound::Int),
        InferredType::Datetime(s) => Some(ExpectedBound::Datetime(*s)),
        InferredType::Indexed { element, .. } => expected_bound_from_inferred(element),
        _ => None,
    }
}

/// Check the inferred type of one bound expression against its expectation.
pub fn check_bound_type(bound: &InferredType, expected: &ExpectedBound) -> (r: Result<(), DomainBoundError>)
    ensures
        r == bound_check_v(bound@, expected@),
{
    match expected {
        ExpectedBound::Quantity(target) => {
            let ok = match bound {
                InferredType::Quantity(d) => d.equals(target),
                InferredType::Int => target.is_dimensionless(),
                _ => false,
            };
            if ok {
                Ok(())
            } else {
                Err(DomainBoundError::DimensionMismatch)
            }
        },
        ExpectedBound::Int => match bound {
            InferredType::Int => Ok(()),
            _ => Err(DomainBoundError::IntTypeMismatch),
        },
        ExpectedBound::Datetime(scale) => match bound {
            InferredType::Datetime(s) => {
                if *s == *scale {
                    Ok(())
                } else {
                    Err(DomainBoundError::DatetimeTypeMismatch)
                }
            },
            _ => Err(DomainBoundError::DatetimeTypeMismatch),
        },
    }
}

} // verus!
