//! Typing of the category conversions `to_float` and `to_int`.
//!
//! `to_float` turns an integer into a dimensionless quantity; `to_int` turns
//! a dimensionless quantity, or a `Fin` position, into an integer.  Both take
//! exactly one argument.

use crate::builtin_call::TypeConversionFn;
use crate::dimension::Dimension;
use crate::rules::{Operand, Span};
use crate::types::{is_int_like_v, quantity_dim_v, InferredType, TypeV};
use vstd::prelude::*;

verus! {

/// Why a conversion call does not type.
#[derive(Clone, Copy, Debug, PartialEq, Eq, Structural)]
pub enum TypeConversionError {
    WrongArity { expected: usize, got: usize, span: Span },
    /// `to_float` of a value that is not an integer.
    ExpectedInt { span: Span },
    /// `to_int` of a value that is neither a quantity nor a `Fin` position.
    ExpectedQuantity { span: Span },
    /// `to_int` of a dimensioned quantity.
    ExpectedDimensionless { span: Span },
}

/// The type of a conversion call on arguments of the given types.
pub open spec fn type_conversion_v(kind: TypeConversionFn, args: Seq<(TypeV, Span)>, call_span: Span) -> Result<
    TypeV,
    TypeConversionError,
> {
    if args.len() != 1 {
        Err(TypeConversionError::WrongArity { expected: 1, got: args.len() as usize, span: call_span })
    } else {
        let (t, span) = args[0];
        match kind {
            TypeConversionFn::ToFloat => if is_int_like_v(t) {
                Ok(TypeV::Quantity(Seq::empty()))
            } else {
                Err(TypeConversionError::ExpectedInt { span })
            },
            TypeConversionFn::ToInt => if t is Fin {
                Ok(TypeV::Int)
            } else {
                match quantity_dim_v(t) {
                    None => Err(TypeConversionError::ExpectedQuantity { span }),
                    Some(d) => if d.len() == 0 {
                        Ok(TypeV::Int)
                    } else {
                        Err(TypeConversionError::ExpectedDimensionless { span })
                    },
                }
            },
        }
    }
}

pub open spec fn operand_views(args: Seq<Operand>) -> Seq<(TypeV, Span)> {
    args.map_values(|a: Operand| (a.ty@, a.span))
}

/// Types a `to_float` or `to_int` call from its typed arguments.
pub fn type_conversion_rule(kind: TypeConversionFn, args: &Vec<Operand>, call_span: Span) -> (r: Result<
    InferredType,
    TypeConversionError,
>)
    ensures
        match (r, type_conversion_v(kind, operand_views(args@), call_span)) {
            (Ok(t), Ok(v)) => t@ == v,
            (Err(e), Err(f)) => e == f,
            _ => false,
        },
{
    if args.len() != 1 {
        return Err(TypeConversionError::WrongArity { expected: 1, got: args.len(), span: call_span });
    }
    let arg = &args[0];
    proof {
        assert(operand_views(args@)[0] == (arg.ty@, arg.span));
    }
    match kind {
        TypeConversionFn::ToFloat => {
            if arg.ty.is_int_like() {
                let d = Dimension::dimensionless();
                proof {
                    assert(d@ =~= Seq::<(int, int)>::empty());
                }
                Ok(InferredType::Quantity(d))
            } else {
                Err(TypeConversionError::ExpectedInt { span: arg.span })
            }
        },
        TypeConversionFn::ToInt => match &arg.ty {
            InferredType::Fin(_) => Ok(InferredType::Int),
            _ => match arg.ty.quantity_dimension() {
                None => Err(TypeConversionError::ExpectedQuantity { span: arg.span }),
                Some(d) => {
                    if d.is_dimensionless() {
                        Ok(InferredType::Int)
                    } else {
                        Err(TypeConversionError::ExpectedDimensionless { span: arg.span })
                    }
                },
            },
        },
    }
}

} // verus!
