//! Typing rules for the dimension-aware complex built-ins.

use crate::dimension::{base_position, base_v, BaseDimId, Dimension, PreludeBaseDimension};
use crate::types::{complex_dim_v, quantity_dim_v, InferredType, TypeV};
use vstd::prelude::*;

verus! {

/// Complex built-in functions.
#[derive(Clone, Copy, Debug, PartialEq, Eq, Structural)]
pub enum ComplexFn {
    Rectangular,
    Polar,
    ToComplex,
    Real,
    Imaginary,
    Absolute,
    Phase,
    Conjugate,
    Exponential,
}

pub open spec fn complex_arity(f: ComplexFn) -> nat {
    match f {
        ComplexFn::Rectangular | ComplexFn::Polar => 2,
        _ => 1,
    }
}

impl ComplexFn {
    /// Number of arguments the function takes.
    pub fn arity(self) -> (n: usize)
        ensures
            n == complex_arity(self),
    {
        match self {
            ComplexFn::Rectangular | ComplexFn::Polar => 2,
            _ => 1,
        }
    }
}

/// Why a complex built-in call cannot be typed.
#[derive(Clone, Copy, Debug, PartialEq, Eq, Structural)]
pub enum ComplexTypeError {
    WrongArity { expected: usize, got: usize },
    ExpectedQuantity { argument: usize },
    ExpectedComplex { argument: usize },
    ExpectedQuantityOrComplex { argument: usize },
    DimensionMismatch { left: usize, right: usize },
    ExpectedAngle { argument: usize },
    ExpectedDimensionless { argument: usize },
}

/// The dimension of angles.
pub open spec fn angle_v() -> Seq<(int, int)> {
    base_v(base_position(BaseDimId::Prelude(PreludeBaseDimension::Angle)))
}

pub open spec fn quantity_arg_v(args: Seq<TypeV>, i: usize) -> Result<Seq<(int, int)>, ComplexTypeError> {
    match quantity_dim_v(args[i as int]) {
        Some(d) => Ok(d),
        None => Err(ComplexTypeError::ExpectedQuantity { argument: i }),
    }
}

pub open spec fn complex_arg_v(args: Seq<TypeV>, i: usize) -> Result<Seq<(int, int)>, ComplexTypeError> {
    match complex_dim_v(args[i as int]) {
        Some(d) => Ok(d),
        None => Err(ComplexTypeError::ExpectedComplex { argument: i }),
    }
}

/// The typing rule of a complex built-in over argument views.
pub open spec fn complex_v(f: ComplexFn, args: Seq<TypeV>) -> Result<TypeV, ComplexTypeError> {
    if args.len() != complex_arity(f) {
        Err(ComplexTypeError::WrongArity { expected: complex_arity(f) as usize, got: args.len() as usize })
    } else {
        match f {
            ComplexFn::Rectangular => match quantity_arg_v(args, 0) {
                Err(e) => Err(e),
                Ok(re) => match quantity_arg_v(args, 1) {
                    Err(e) => Err(e),
                    Ok(im) => if re != im {
                        Err(ComplexTypeError::DimensionMismatch { left: 0, right: 1 })
                    } else {
                        Ok(TypeV::Complex(re))
                    },
                },
            },
            ComplexFn::Polar => match quantity_arg_v(args, 0) {
                Err(e) => Err(e),
                Ok(m) => match quantity_arg_v(args, 1) {
                    Err(e) => Err(e),
                    Ok(p) => if p != angle_v() {
                        Err(ComplexTypeError::ExpectedAngle { argument: 1 })
                    } else {
                        Ok(TypeV::Complex(m))
                    },
                },
            },
            ComplexFn::ToComplex => match quantity_arg_v(args, 0) {
                Err(e) => Err(e),
                Ok(d) => Ok(TypeV::Complex(d)),
            },
            ComplexFn::Real | ComplexFn::Imaginary => match complex_arg_v(args, 0) {
                Err(e) => Err(e),
                Ok(d) => Ok(TypeV::Quantity(d)),
            },
            ComplexFn::Absolute => match args[0] {
                TypeV::Complex(d) => Ok(TypeV::Quantity(d)),
                TypeV::Quantity(d) => Ok(TypeV::Quantity(d)),
                _ => Err(ComplexTypeError::ExpectedQuantityOrComplex { argument: 0 }),
            },
            ComplexFn::Phase => match complex_arg_v(args, 0) {
                Err(e) => Err(e),
                Ok(_) => Ok(TypeV::Quantity(angle_v())),
            },
            ComplexFn::Conjugate => match complex_arg_v(args, 0) {
                Err(e) => Err(e),
                Ok(d) => Ok(TypeV::Complex(d)),
            },
            ComplexFn::Exponential => match args[0] {
                TypeV::Complex(d) => if d.len() != 0 {
                    Err(ComplexTypeError::ExpectedDimensionless { argument: 0 })
                } else {
                    Ok(TypeV::Complex(Seq::empty()))
                },
                TypeV::Quantity(d) => if d.len() != 0 {
                    Err(ComplexTypeError::ExpectedDimensionless { argument: 0 })
                } else {
                    Ok(TypeV::Quantity(Seq::empty()))
                },
                _ => Err(ComplexTypeError::ExpectedQuantityOrComplex { argument: 0 }),
            },
        }
    }
}

pub open spec fn types_view(v: Seq<InferredType>) -> Seq<TypeV> {
    v.map_values(|t: InferredType| t@)
}

/// Quantity dimension of argument `argument`.
pub fn quantity_dimension(arguments: &Vec<InferredType>, argument: usize) -> (r: Result<
    &Dimension,
    ComplexTypeError,
>)
    requires
        argument < arguments@.len(),
    ensures
        match (r, quantity_arg_v(types_view(arguments@), argument)) {
            (Ok(d), Ok(v)) => d@ == v,
            (Err(e), Err(f)) => e == f,
            _ => false,
        },
{
    match arguments[argument].quantity_dimension() {
        Some(d) => Ok(d),
        None => Err(ComplexTypeError::ExpectedQuantity { argument }),
    }
}

/// Complex dimension of argument `argument`.
pub fn complex_dimension(arguments: &Vec<InferredType>, argument: usize) -> (r: Result<
    &Dimension,
    ComplexTypeError,
>)
    requires
        argument < arguments@.len(),
    ensures
        match (r, complex_arg_v(types_view(arguments@), argument)) {
            (Ok(d), Ok(v)) => d@ == v,
            (Err(e), Err(f)) => e == f,
            _ => false,
        },
{
    match arguments[argument].complex_dimension() {
        Some(d) => Ok(d),
        None => Err(ComplexTypeError::ExpectedComplex { argument }),
    }
}

fn angle() -> (d: Dimension)
    ensures
        d@ == angle_v(),
{
    Dimension::base(BaseDimId::Prelude(PreludeBaseDimension::Angle))
}

/// Infer the result type of a complex built-in from its argument types.
pub fn infer(function: ComplexFn, arguments: &Vec<InferredType>) -> (r: Result<
    InferredType,
    ComplexTypeError,
>)
    ensures
        match (r, complex_v(function, types_view(arguments@))) {
            (Ok(t), Ok(v)) => t@ == v,
            (Err(e), Err(f)) => e == f,
            _ => false,
        },
{
    if arguments.len() != function.arity() {
        return Err(
            ComplexTypeError::WrongArity { expected: function.arity(), got: arguments.len() },
        );
    }
    match function {
        ComplexFn::Rectangular => {
            let re = quantity_dimension(arguments, 0)?;
            let im = quantity_dimension(arguments, 1)?;
            if !re.equals(im) {
                return Err(ComplexTypeError::DimensionMismatch { left: 0, right: 1 });
            }
            Ok(InferredType::Complex(re.clone()))
        },
        ComplexFn::Polar => {
            let magnitude = quantity_dimension(arguments, 0)?;
            let phase = quantity_dimension(arguments, 1)?;
            if !phase.equals(&angle()) {
                return Err(ComplexTypeError::ExpectedAngle { argument: 1 });
            }
            Ok(InferredType::Complex(magnitude.clone()))
        },
        ComplexFn::ToComplex => {
            let d = quantity_dimension(arguments, 0)?;
            Ok(InferredType::Complex(d.clone()))
        },
        ComplexFn::Real | ComplexFn::Imaginary => {
            let d = complex_dimension(arguments, 0)?;
            Ok(InferredType::Quantity(d.clone()))
        },
        ComplexFn::Absolute => match &arguments[0] {
            InferredType::Complex(d) | InferredType::Quantity(d) => Ok(
                InferredType::Quantity(d.clone()),
            ),
            _ => Err(ComplexTypeError::ExpectedQuantityOrComplex { argument: 0 }),
        },
        ComplexFn::Phase => {
            let _ = complex_dimension(arguments, 0)?;
            Ok(InferredType::Quantity(angle()))
        },
        ComplexFn::Conjugate => {
            let d = complex_dimension(arguments, 0)?;
            Ok(InferredType::Complex(d.clone()))
        },
        ComplexFn::Exponential => match &arguments[0] {
            InferredType::Complex(d) => {
                if !d.is_dimensionless() {
                    return Err(ComplexTypeError::ExpectedDimensionless { argument: 0 });
                }
                let z = Dimension::dimensionless();
                assert(z@ =~= Seq::<(int, int)>::empty());
                Ok(InferredType::Complex(z))
            },
            InferredType::Quantity(d) => {
                if !d.is_dimensionless() {
                    return Err(ComplexTypeError::ExpectedDimensionless { argument: 0 });
                }
                let z = Dimension::dimensionless();
                assert(z@ =~= Seq::<(int, int)>::empty());
                Ok(InferredType::Quantity(z))
            },
            _ => Err(ComplexTypeError::ExpectedQuantityOrComplex { argument: 0 }),
        },
    }
}

} // verus!
