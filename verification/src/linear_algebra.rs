//! Typing rules for the built-in linear-algebra functions.
//!
//! The rules receive already-inferred argument types and return either a
//! result type or a typed shape error. Axis matching uses index identity, not
//! display names.

use crate::dimension::{dim_div_v, dim_mul_v, dim_pow_v, Dimension};
use crate::index::IndexRefV;
use crate::types::{InferredIndex, InferredType, TypeV};
use crate::complex::types_view;
use vstd::prelude::*;

verus! {

/// Linear-algebra built-in functions.
#[derive(Clone, Copy, Debug, PartialEq, Eq, Structural)]
pub enum LinearAlgebraFn {
    Dot,
    Matmul,
    Transpose,
    Trace,
    Norm,
    Cross,
    Outer,
    Solve,
    Inverse,
    Determinant,
}

pub open spec fn la_arity(f: LinearAlgebraFn) -> nat {
    match f {
        LinearAlgebraFn::Transpose | LinearAlgebraFn::Trace | LinearAlgebraFn::Norm
        | LinearAlgebraFn::Inverse | LinearAlgebraFn::Determinant => 1,
        _ => 2,
    }
}

impl LinearAlgebraFn {
    pub fn arity(self) -> (n: usize)
        ensures
            n == la_arity(self),
    {
        match self {
            LinearAlgebraFn::Transpose | LinearAlgebraFn::Trace | LinearAlgebraFn::Norm
            | LinearAlgebraFn::Inverse | LinearAlgebraFn::Determinant => 1,
            _ => 2,
        }
    }
}

/// A linear-algebra call cannot be typed from the supplied argument shapes.
#[derive(Debug, PartialEq, Eq)]
pub enum LinearAlgebraTypeError {
    WrongArity { expected: usize, found: usize },
    /// An argument is not an indexed quantity of the required rank.
    ExpectedIndexedQuantity { argument: usize, rank: usize },
    /// Two axis positions of one contraction have different identities.
    AxisMismatch { argument: usize, expected: InferredIndex, found: InferredIndex },
    /// An operation requires a fixed axis cardinality.
    CardinalityMismatch { argument: usize, expected: usize, found: Option<usize> },
    /// The concrete cardinality of an axis is needed and unknown.
    ConcreteCardinalityRequired { argument: usize },
    /// Dimension exponent arithmetic overflowed.
    DimensionOverflow,
}

/// Value-level view of a linear-algebra error.
pub enum LaErrV {
    WrongArity { expected: usize, found: usize },
    ExpectedIndexedQuantity { argument: usize, rank: usize },
    AxisMismatch { argument: usize, expected: IndexRefV, found: IndexRefV },
    CardinalityMismatch { argument: usize, expected: usize, found: Option<usize> },
    ConcreteCardinalityRequired { argument: usize },
    DimensionOverflow,
}

impl View for LinearAlgebraTypeError {
    type V = LaErrV;

    open spec fn view(&self) -> LaErrV {
        match *self {
            LinearAlgebraTypeError::WrongArity { expected, found } => LaErrV::WrongArity {
                expected,
                found,
            },
            LinearAlgebraTypeError::ExpectedIndexedQuantity { argument, rank } => {
                LaErrV::ExpectedIndexedQuantity { argument, rank }
            },
            LinearAlgebraTypeError::AxisMismatch { argument, expected, found } => LaErrV::AxisMismatch {
                argument,
                expected: expected@,
                found: found@,
            },
            LinearAlgebraTypeError::CardinalityMismatch { argument, expected, found } => {
                LaErrV::CardinalityMismatch { argument, expected, found }
            },
            LinearAlgebraTypeError::ConcreteCardinalityRequired { argument } => {
                LaErrV::ConcreteCardinalityRequired { argument }
            },
            LinearAlgebraTypeError::DimensionOverflow => LaErrV::DimensionOverflow,
        }
    }
}

/// The axes of an indexed type, outermost first.
pub open spec fn axes_v(t: TypeV) -> Seq<IndexRefV>
    decreases t,
{
    match t {
        TypeV::Indexed(e, i) => seq![i] + axes_v(*e),
        _ => Seq::empty(),
    }
}

/// The element type under all index axes.
pub open spec fn leaf_v(t: TypeV) -> TypeV
    decreases t,
{
    match t {
        TypeV::Indexed(e, _) => leaf_v(*e),
        _ => t,
    }
}

/// A quantity indexed by `axes`, outermost first.
pub open spec fn quantity_over_v(d: Seq<(int, int)>, axes: Seq<IndexRefV>) -> TypeV
    decreases axes.len(),
{
    if axes.len() == 0 {
        TypeV::Quantity(d)
    } else {
        TypeV::Indexed(Box::new(quantity_over_v(d, axes.drop_first())), axes[0])
    }
}

/// The dimension and axes of an indexed quantity of the given rank.
pub open spec fn indexed_quantity_v(argument: usize, t: TypeV, rank: usize) -> Result<
    (Seq<(int, int)>, Seq<IndexRefV>),
    LaErrV,
> {
    match leaf_v(t) {
        TypeV::Quantity(d) => if axes_v(t).len() == rank {
            Ok((d, axes_v(t)))
        } else {
            Err(LaErrV::ExpectedIndexedQuantity { argument, rank })
        },
        _ => Err(LaErrV::ExpectedIndexedQuantity { argument, rank }),
    }
}

pub open spec fn same_axis_v(expected: IndexRefV, argument: usize, found: IndexRefV) -> Result<(), LaErrV> {
    if expected == found {
        Ok(())
    } else {
        Err(LaErrV::AxisMismatch { argument, expected, found })
    }
}

pub open spec fn overflow_or<T>(o: Option<T>) -> Result<T, LaErrV> {
    match o {
        Some(x) => Ok(x),
        None => Err(LaErrV::DimensionOverflow),
    }
}

/// The typing rule over argument views; `card` is the concrete cardinality of
/// the first axis of the first argument, consulted by `cross` and `det`.
pub open spec fn la_v(f: LinearAlgebraFn, args: Seq<TypeV>, card: Option<usize>) -> Result<TypeV, LaErrV> {
    if args.len() != la_arity(f) {
        Err(LaErrV::WrongArity { expected: la_arity(f) as usize, found: args.len() as usize })
    } else {
        match f {
            LinearAlgebraFn::Dot => match indexed_quantity_v(0, args[0], 1) {
                Err(e) => Err(e),
                Ok((ld, la)) => match indexed_quantity_v(1, args[1], 1) {
                    Err(e) => Err(e),
                    Ok((rd, ra)) => match same_axis_v(la[0], 1, ra[0]) {
                        Err(e) => Err(e),
                        Ok(_) => match overflow_or(dim_mul_v(ld, rd)) {
                            Err(e) => Err(e),
                            Ok(d) => Ok(TypeV::Quantity(d)),
                        },
                    },
                },
            },
            LinearAlgebraFn::Matmul => match indexed_quantity_v(0, args[0], 2) {
                Err(e) => Err(e),
                Ok((ld, la)) => match indexed_quantity_v(1, args[1], 2) {
                    Err(e) => Err(e),
                    Ok((rd, ra)) => match same_axis_v(la[1], 1, ra[0]) {
                        Err(e) => Err(e),
                        Ok(_) => match overflow_or(dim_mul_v(ld, rd)) {
                            Err(e) => Err(e),
                            Ok(d) => Ok(quantity_over_v(d, seq![la[0], ra[1]])),
                        },
                    },
                },
            },
            LinearAlgebraFn::Transpose => match indexed_quantity_v(0, args[0], 2) {
                Err(e) => Err(e),
                Ok((d, a)) => Ok(quantity_over_v(d, seq![a[1], a[0]])),
            },
            LinearAlgebraFn::Trace => match indexed_quantity_v(0, args[0], 2) {
                Err(e) => Err(e),
                Ok((d, a)) => match same_axis_v(a[0], 0, a[1]) {
                    Err(e) => Err(e),
                    Ok(_) => Ok(TypeV::Quantity(d)),
                },
            },
            LinearAlgebraFn::Norm => match indexed_quantity_v(0, args[0], 1) {
                Err(e) => Err(e),
                Ok((d, _)) => Ok(TypeV::Quantity(d)),
            },
            LinearAlgebraFn::Cross => match indexed_quantity_v(0, args[0], 1) {
                Err(e) => Err(e),
                Ok((ld, la)) => match indexed_quantity_v(1, args[1], 1) {
                    Err(e) => Err(e),
                    Ok((rd, ra)) => match same_axis_v(la[0], 1, ra[0]) {
                        Err(e) => Err(e),
                        Ok(_) => if card != Some(3usize) {
                            Err(LaErrV::CardinalityMismatch { argument: 0, expected: 3, found: card })
                        } else {
                            match overflow_or(dim_mul_v(ld, rd)) {
                                Err(e) => Err(e),
                                Ok(d) => Ok(quantity_over_v(d, seq![la[0]])),
                            }
                        },
                    },
                },
            },
            LinearAlgebraFn::Outer => match indexed_quantity_v(0, args[0], 1) {
                Err(e) => Err(e),
                Ok((ld, la)) => match indexed_quantity_v(1, args[1], 1) {
                    Err(e) => Err(e),
                    Ok((rd, ra)) => match overflow_or(dim_mul_v(ld, rd)) {
                        Err(e) => Err(e),
                        Ok(d) => Ok(quantity_over_v(d, seq![la[0], ra[0]])),
                    },
                },
            },
            LinearAlgebraFn::Solve => match indexed_quantity_v(0, args[0], 2) {
                Err(e) => Err(e),
                Ok((md, ma)) => match indexed_quantity_v(1, args[1], 1) {
                    Err(e) => Err(e),
                    Ok((rd, ra)) => match same_axis_v(ma[0], 0, ma[1]) {
                        Err(e) => Err(e),
                        Ok(_) => match same_axis_v(ma[0], 1, ra[0]) {
                            Err(e) => Err(e),
                            Ok(_) => match overflow_or(dim_div_v(rd, md)) {
                                Err(e) => Err(e),
                                Ok(d) => Ok(quantity_over_v(d, seq![ma[0]])),
                            },
                        },
                    },
                },
            },
            LinearAlgebraFn::Inverse => match indexed_quantity_v(0, args[0], 2) {
                Err(e) => Err(e),
                Ok((md, ma)) => match same_axis_v(ma[0], 0, ma[1]) {
                    Err(e) => Err(e),
                    Ok(_) => match overflow_or(dim_div_v(Seq::empty(), md)) {
                        Err(e) => Err(e),
                        Ok(d) => Ok(quantity_over_v(d, seq![ma[0], ma[1]])),
                    },
                },
            },
            LinearAlgebraFn::Determinant => match indexed_quantity_v(0, args[0], 2) {
                Err(e) => Err(e),
                Ok((md, ma)) => match same_axis_v(ma[0], 0, ma[1]) {
                    Err(e) => Err(e),
                    Ok(_) => match card {
                        None => Err(LaErrV::ConcreteCardinalityRequired { argument: 0 }),
                        Some(n) => if n > i32::MAX {
                            Err(LaErrV::DimensionOverflow)
                        } else {
                            match overflow_or(dim_pow_v(md, (n as int, 1int))) {
                                Err(e) => Err(e),
                                Ok(d) => Ok(TypeV::Quantity(d)),
                            }
                        },
                    },
                },
            },
        }
    }
}

pub open spec fn same_la(r: Result<InferredType, LinearAlgebraTypeError>, s: Result<TypeV, LaErrV>) -> bool {
    match (r, s) {
        (Ok(t), Ok(v)) => t@ == v,
        (Err(e), Err(f)) => e@ == f,
        _ => false,
    }
}

/// An indexed quantity: its dimension and axes, outermost first.
pub struct IndexedQuantity<'a> {
    pub dimension: &'a Dimension,
    pub axes: Vec<&'a InferredIndex>,
}

impl<'a> IndexedQuantity<'a> {
    pub open spec fn axes_view(&self) -> Seq<IndexRefV> {
        self.axes@.map_values(|i: &InferredIndex| i@)
    }

    /// The axis at `position`.
    pub fn axis(&self, position: usize) -> (r: &'a InferredIndex)
        requires
            position < self.axes@.len(),
        ensures
            r@ == self.axes_view()[position as int],
    {
        self.axes[position]
    }
}

/// Decompose an argument into an indexed quantity of the given rank.
pub fn indexed_quantity(argument: usize, ty: &InferredType, rank: usize) -> (r: Result<
    IndexedQuantity<'_>,
    LinearAlgebraTypeError,
>)
    ensures
        match (r, indexed_quantity_v(argument, ty@, rank)) {
            (Ok(q), Ok((d, a))) => q.dimension@ == d && q.axes_view() == a && q.axes@.len() == rank,
            (Err(e), Err(f)) => e@ == f,
            _ => false,
        },
{
    let mut current = ty;
    let mut axes: Vec<&InferredIndex> = Vec::new();
    loop
        invariant
            leaf_v(current@) == leaf_v(ty@),
            axes@.map_values(|i: &InferredIndex| i@) + axes_v(current@) == axes_v(ty@),
        ensures
            leaf_v(current@) == leaf_v(ty@),
            axes@.map_values(|i: &InferredIndex| i@) + axes_v(current@) == axes_v(ty@),
            !(current@ is Indexed),
        decreases current,
    {
        match current {
            InferredType::Indexed { element, index } => {
                let ghost before = axes@.map_values(|i: &InferredIndex| i@);
                axes.push(index);
                proof {
                    assert(axes@.map_values(|i: &InferredIndex| i@) =~= before.push(index@));
                    assert(axes_v(current@) == seq![index@] + axes_v(element@));
                    assert(before.push(index@) + axes_v(element@) =~= before + (seq![index@]
                        + axes_v(element@)));
                }
                current = element;
            },
            _ => {
                break ;
            },
        }
    }
    proof {
        assert(axes_v(current@) =~= Seq::<IndexRefV>::empty());
        assert(axes@.map_values(|i: &InferredIndex| i@) =~= axes_v(ty@));
    }
    let dimension = match current {
        InferredType::Quantity(d) => d,
        _ => {
            return Err(LinearAlgebraTypeError::ExpectedIndexedQuantity { argument, rank });
        },
    };
    if axes.len() != rank {
        return Err(LinearAlgebraTypeError::ExpectedIndexedQuantity { argument, rank });
    }
    Ok(IndexedQuantity { dimension, axes })
}

/// Require two axis positions of one contraction to have the same identity.
pub fn require_same_axis(expected: &InferredIndex, argument: usize, found: &InferredIndex) -> (r: Result<
    (),
    LinearAlgebraTypeError,
>)
    ensures
        match (r, same_axis_v(expected@, argument, found@)) {
            (Ok(_), Ok(_)) => true,
            (Err(e), Err(f)) => e@ == f,
            _ => false,
        },
{
    if expected.equals(found) {
        Ok(())
    } else {
        Err(
            LinearAlgebraTypeError::AxisMismatch {
                argument,
                expected: expected.clone(),
                found: found.clone(),
            },
        )
    }
}

/// A quantity of the given dimension indexed by `axes`, outermost first.
pub fn quantity_over(dimension: Dimension, axes: &Vec<&InferredIndex>) -> (r: InferredType)
    ensures
        r@ == quantity_over_v(dimension@, axes@.map_values(|i: &InferredIndex| i@)),
{
    let ghost av = axes@.map_values(|i: &InferredIndex| i@);
    let ghost d = dimension@;
    let mut result = InferredType::Quantity(dimension);
    let mut k = axes.len();
    while k > 0
        invariant
            k <= axes@.len(),
            av == axes@.map_values(|i: &InferredIndex| i@),
            result@ == quantity_over_v(d, av.subrange(k as int, av.len() as int)),
        decreases k,
    {
        k -= 1;
        let index = axes[k].clone();
        proof {
            let tail = av.subrange(k as int, av.len() as int);
            assert(tail.drop_first() =~= av.subrange(k + 1, av.len() as int));
            assert(tail[0] == av[k as int]);
        }
        result = InferredType::Indexed { element: Box::new(result), index };
    }
    proof {
        assert(av.subrange(0, av.len() as int) =~= av);
    }
    result
}

pub fn product_dimension(lhs: &Dimension, rhs: &Dimension) -> (r: Result<Dimension, LinearAlgebraTypeError>)
    ensures
        match (r, overflow_or(dim_mul_v(lhs@, rhs@))) {
            (Ok(d), Ok(v)) => d@ == v,
            (Err(e), Err(f)) => e@ == f,
            _ => false,
        },
{
    match lhs.checked_mul(rhs) {
        Ok(d) => Ok(d),
        Err(_) => Err(LinearAlgebraTypeError::DimensionOverflow),
    }
}

pub fn quotient_dimension(numerator: &Dimension, denominator: &Dimension) -> (r: Result<
    Dimension,
    LinearAlgebraTypeError,
>)
    ensures
        match (r, overflow_or(dim_div_v(numerator@, denominator@))) {
            (Ok(d), Ok(v)) => d@ == v,
            (Err(e), Err(f)) => e@ == f,
            _ => false,
        },
{
    match numerator.checked_div(denominator) {
        Ok(d) => Ok(d),
        Err(_) => Err(LinearAlgebraTypeError::DimensionOverflow),
    }
}

pub fn reciprocal_dimension(dimension: &Dimension) -> (r: Result<Dimension, LinearAlgebraTypeError>)
    ensures
        match (r, overflow_or(dim_div_v(Seq::empty(), dimension@))) {
            (Ok(d), Ok(v)) => d@ == v,
            (Err(e), Err(f)) => e@ == f,
            _ => false,
        },
{
    let one = Dimension::dimensionless();
    assert(one@ =~= Seq::<(int, int)>::empty());
    quotient_dimension(&one, dimension)
}

fn one_axis<'a>(a: &'a InferredIndex) -> (v: Vec<&'a InferredIndex>)
    ensures
        v@.map_values(|i: &InferredIndex| i@) == seq![a@],
{
    let mut v: Vec<&InferredIndex> = Vec::new();
    v.push(a);
    assert(v@.map_values(|i: &InferredIndex| i@) =~= seq![a@]);
    v
}

fn two_axes<'a>(a: &'a InferredIndex, b: &'a InferredIndex) -> (v: Vec<&'a InferredIndex>)
    ensures
        v@.map_values(|i: &InferredIndex| i@) == seq![a@, b@],
{
    let mut v: Vec<&InferredIndex> = Vec::new();
    v.push(a);
    v.push(b);
    assert(v@.map_values(|i: &InferredIndex| i@) =~= seq![a@, b@]);
    v
}

/// Infer one linear-algebra call from already-inferred arguments, given the
/// concrete cardinality of the first axis of the first argument (consulted
/// only by the fixed-size operations `cross` and `det`).
pub fn infer_linear_algebra_type_with(
    function: LinearAlgebraFn,
    arguments: &Vec<InferredType>,
    first_axis_cardinality: Option<usize>,
) -> (r: Result<InferredType, LinearAlgebraTypeError>)
    ensures
        same_la(r, la_v(function, types_view(arguments@), first_axis_cardinality)),
{
    if arguments.len() != function.arity() {
        return Err(
            LinearAlgebraTypeError::WrongArity { expected: function.arity(), found: arguments.len() },
        );
    }
    proof {
        assert(types_view(arguments@)[0] == arguments@[0]@);
        if arguments@.len() > 1 {
            assert(types_view(arguments@)[1] == arguments@[1]@);
        }
    }
    match function {
        LinearAlgebraFn::Dot => {
            let lhs = indexed_quantity(0, &arguments[0], 1)?;
            let rhs = indexed_quantity(1, &arguments[1], 1)?;
            require_same_axis(lhs.axis(0), 1, rhs.axis(0))?;
            Ok(InferredType::Quantity(product_dimension(lhs.dimension, rhs.dimension)?))
        },
        LinearAlgebraFn::Matmul => {
            let lhs = indexed_quantity(0, &arguments[0], 2)?;
            let rhs = indexed_quantity(1, &arguments[1], 2)?;
            require_same_axis(lhs.axis(1), 1, rhs.axis(0))?;
            let d = product_dimension(lhs.dimension, rhs.dimension)?;
            Ok(quantity_over(d, &two_axes(lhs.axis(0), rhs.axis(1))))
        },
        LinearAlgebraFn::Transpose => {
            let matrix = indexed_quantity(0, &arguments[0], 2)?;
            Ok(quantity_over(matrix.dimension.clone(), &two_axes(matrix.axis(1), matrix.axis(0))))
        },
        LinearAlgebraFn::Trace => {
            let matrix = indexed_quantity(0, &arguments[0], 2)?;
            require_same_axis(matrix.axis(0), 0, matrix.axis(1))?;
            Ok(InferredType::Quantity(matrix.dimension.clone()))
        },
        LinearAlgebraFn::Norm => {
            let vector = indexed_quantity(0, &arguments[0], 1)?;
            Ok(InferredType::Quantity(vector.dimension.clone()))
        },
        LinearAlgebraFn::Cross => {
            let lhs = indexed_quantity(0, &arguments[0], 1)?;
            let rhs = indexed_quantity(1, &arguments[1], 1)?;
            require_same_axis(lhs.axis(0), 1, rhs.axis(0))?;
            let found = first_axis_cardinality;
            if found != Some(3usize) {
                return Err(
                    LinearAlgebraTypeError::CardinalityMismatch { argument: 0, expected: 3, found },
                );
            }
            let d = product_dimension(lhs.dimension, rhs.dimension)?;
            Ok(quantity_over(d, &one_axis(lhs.axis(0))))
        },
        LinearAlgebraFn::Outer => {
            let lhs = indexed_quantity(0, &arguments[0], 1)?;
            let rhs = indexed_quantity(1, &arguments[1], 1)?;
            let d = product_dimension(lhs.dimension, rhs.dimension)?;
            Ok(quantity_over(d, &two_axes(lhs.axis(0), rhs.axis(0))))
        },
        LinearAlgebraFn::Solve => {
            let matrix = indexed_quantity(0, &arguments[0], 2)?;
            let rhs = indexed_quantity(1, &arguments[1], 1)?;
            require_same_axis(matrix.axis(0), 0, matrix.axis(1))?;
            require_same_axis(matrix.axis(0), 1, rhs.axis(0))?;
            let d = quotient_dimension(rhs.dimension, matrix.dimension)?;
            Ok(quantity_over(d, &one_axis(matrix.axis(0))))
        },
        LinearAlgebraFn::Inverse => {
            let matrix = indexed_quantity(0, &arguments[0], 2)?;
            require_same_axis(matrix.axis(0), 0, matrix.axis(1))?;
            let d = reciprocal_dimension(matrix.dimension)?;
            Ok(quantity_over(d, &two_axes(matrix.axis(0), matrix.axis(1))))
        },
        LinearAlgebraFn::Determinant => {
            let matrix = indexed_quantity(0, &arguments[0], 2)?;
            require_same_axis(matrix.axis(0), 0, matrix.axis(1))?;
            let cardinality = match first_axis_cardinality {
                Some(n) => n,
                None => {
                    return Err(LinearAlgebraTypeError::ConcreteCardinalityRequired { argument: 0 });
                },
            };
            if cardinality > i32::MAX as usize {
                return Err(LinearAlgebraTypeError::DimensionOverflow);
            }
            match matrix.dimension.powi(cardinality as i32) {
                Ok(d) => Ok(InferredType::Quantity(d)),
                Err(_) => Err(LinearAlgebraTypeError::DimensionOverflow),
            }
        },
    }
}

/// The outermost axis of an indexed type.
pub fn first_axis(ty: &InferredType) -> (r: Option<&InferredIndex>)
    ensures
        r is Some <==> ty@ is Indexed,
        r matches Some(i) ==> axes_v(ty@)[0] == i@,
{
    match ty {
        InferredType::Indexed { index, .. } => Some(index),
        _ => None,
    }
}

/// `c` is what `cardinality` gives for the first axis of the first
/// argument, or `None` when that argument is missing or not indexed.
pub open spec fn cardinality_of_first_axis<F: Fn(&InferredIndex) -> Option<usize>>(
    cardinality: F,
    arguments: Seq<InferredType>,
    c: Option<usize>,
) -> bool {
    if arguments.len() > 0 {
        match arguments[0] {
            InferredType::Indexed { index, .. } => cardinality.ensures((&index,), c),
            _ => c is None,
        }
    } else {
        c is None
    }
}

/// Infer one linear-algebra call from already-inferred arguments.
///
/// `cardinality` supplies concrete axis sizes from the caller's semantic
/// registry; it is consulted only for the fixed-size operations `cross` and
/// `det`, on the first axis of the first argument.
pub fn infer_linear_algebra_type(
    function: LinearAlgebraFn,
    arguments: &Vec<InferredType>,
    cardinality: impl Fn(&InferredIndex) -> Option<usize>,
) -> (r: Result<InferredType, LinearAlgebraTypeError>)
    requires
        forall|i: &InferredIndex| #[trigger] cardinality.requires((i,)),
    ensures
        !(function is Cross || function is Determinant) ==> same_la(
            r,
            la_v(function, types_view(arguments@), None),
        ),
        (function is Cross || function is Determinant) ==> exists|c: Option<usize>|
            {
                &&& same_la(r, #[trigger] la_v(function, types_view(arguments@), c))
                &&& cardinality_of_first_axis(cardinality, arguments@, c)
            },
{
    let card = match function {
        LinearAlgebraFn::Cross | LinearAlgebraFn::Determinant => {
            if arguments.len() > 0 {
                match &arguments[0] {
                    InferredType::Indexed { index, .. } => cardinality(index),
                    _ => None,
                }
            } else {
                None
            }
        },
        _ => None,
    };
    let r = infer_linear_algebra_type_with(function, arguments, card);
    assert(same_la(r, la_v(function, types_view(arguments@), card)));
    proof {
        if function is Cross || function is Determinant {
            assert(cardinality_of_first_axis(cardinality, arguments@, card));
        }
    }
    r
}

} // verus!
