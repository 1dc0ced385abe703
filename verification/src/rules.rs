//! Pure typing rules for operators, conditionals and `match` arms.
//!
//! The rules receive already-inferred operand types and return either the
//! result type or a typed rule violation naming the reason and the source
//! span a diagnostic points at. Each rule's contract is the rule table stated
//! over type views.

use crate::dimension::{
    base_position, base_v, dim_div_v, dim_mul_v, dim_pow_v, exp_fits, in_exponent_range, BaseDimId,
    Dimension, PreludeBaseDimension,
};
use crate::index::{valid_range_form, IndexRefV};
use crate::nat_form::{lemma_coeffs_ext, NatLinearForm};
use crate::rational::Rational;
use crate::types::{
    complex_dim_v, is_int_like_v, quantity_dim_v, type_equal, InferredIndex, InferredType, TimeScale,
    TypeV,
};
use vstd::prelude::*;

verus! {

/// A byte range of source text.
#[derive(Clone, Copy, Debug, PartialEq, Eq, Structural, Hash)]
pub struct Span {
    pub start: usize,
    pub end: usize,
}

impl Span {
    pub fn new(start: usize, end: usize) -> (s: Span)
        ensures
            s.start == start,
            s.end == end,
    {
        Span { start, end }
    }

    /// The smallest span covering both.
    pub fn merge(self, other: Span) -> (s: Span)
        ensures
            s.start == (if self.start <= other.start { self.start } else { other.start }),
            s.end == (if self.end >= other.end { self.end } else { other.end }),
    {
        Span {
            start: if self.start <= other.start { self.start } else { other.start },
            end: if self.end >= other.end { self.end } else { other.end },
        }
    }
}

/// A typed operand with the span diagnostics should point at.
#[derive(Debug)]
pub struct Operand {
    pub ty: InferredType,
    pub span: Span,
}

/// The exponent of a power expression as written.
#[derive(Clone, Copy, Debug, PartialEq, Eq, Structural)]
pub enum PowerExponent {
    /// An exact integer or rational literal exponent.
    Exact(Rational),
    /// A float literal exponent, with its exact value when it has one.
    FloatSyntax { exact: Option<Rational> },
    /// An exponent known only at run time.
    Runtime,
}

/// Binary operators.
#[derive(Clone, Copy, Debug, PartialEq, Eq, Structural)]
pub enum BinOp {
    And,
    Or,
    Eq,
    Ne,
    Lt,
    Le,
    Gt,
    Ge,
    Add,
    Sub,
    Mul,
    Div,
    Mod,
    Pow(PowerExponent),
}

/// Unary operators.
#[derive(Clone, Copy, Debug, PartialEq, Eq, Structural)]
pub enum UnaryOp {
    Not,
    Neg,
}

/// Exact spelling suggested in place of a float exponent.
#[derive(Clone, Copy, Debug, PartialEq, Eq, Structural)]
pub enum ExponentReplacement {
    Integer(i64),
    Fraction(i64, i64),
}

/// Why a typing rule rejected its operands.
#[derive(Clone, Copy, Debug, PartialEq, Eq, Structural)]
pub enum MismatchReason {
    LogicalOperandNotBool,
    IndexLabelNotValue,
    EqualityTypeMismatch,
    ComplexUnordered,
    ComparisonTypeMismatch,
    DatetimeComparisonScale,
    ComparisonDimensionMismatch,
    ExpectedQuantity,
    FinKeyNotFin,
    FinKeySubtraction,
    FinKeyAddendNotInt,
    FinKeyRuntimeOffset,
    FinKeyNegativeAddend,
    KeyNotFirst,
    ComplexDimensionMismatch,
    ComplexPromotion,
    DatetimeSubtractionScale,
    DatetimeAddition,
    DurationNotTime,
    LeadingDurationNotTime,
    QuantityMinusDatetime,
    AdditionDimensionMismatch,
    ModuloNotInt,
    NegativeIntExponent,
    NonExactIntExponent,
    ExponentNotDimensionless,
    NotOperandNotBool,
    NegateFin,
    NegateNonNumeric,
    IfConditionNotBool,
    IfBranchMismatch,
    MatchArmMismatch,
    DisplayTimezoneNotDatetime,
    ConversionDimensionMismatch,
    TimeScaleConversionNotDatetime,
    /// A datetime extractor or numeric conversion applied to a non-datetime.
    DatetimeArgumentNotDatetime,
    /// A numeric-to-datetime constructor applied to other than a
    /// dimensionless quantity or an integer.
    DatetimeFromNotNumeric,
    /// A `datetime()` text argument that is not a string literal.
    DatetimeTextNotString,
    /// A `datetime()` time-zone argument that is not a string literal.
    DatetimeZoneNotString,
    /// An `epoch()` text argument that is not a string literal.
    EpochTextNotString,
    /// An `epoch()` scale argument that is not a time scale.
    EpochScaleNotTimeScale,
}

/// A typing-rule violation.
#[derive(Clone, Copy, Debug, PartialEq, Eq, Structural)]
pub enum TypeRuleError {
    Mismatch { reason: MismatchReason, span: Span },
    DimensionOverflow { span: Span },
    FloatPowerExponent { replacement: Option<ExponentReplacement>, span: Span },
    RuntimeExponentForDimensionedBase { span: Span },
    IndexedComparisonOperand { span: Span },
    NoMatchArms { span: Span },
    NatArithmetic { span: Span },
    InvalidTimezone { span: Span },
}

pub open spec fn mm(reason: MismatchReason, span: Span) -> TypeRuleError {
    TypeRuleError::Mismatch { reason, span }
}

/// An executable result agrees with a view-level result.
pub open spec fn same_result(r: Result<InferredType, TypeRuleError>, s: Result<TypeV, TypeRuleError>) -> bool {
    match (r, s) {
        (Ok(t), Ok(v)) => t@ == v,
        (Err(e), Err(f)) => e == f,
        _ => false,
    }
}

/// The dimension of time.
pub open spec fn time_v() -> Seq<(int, int)> {
    base_v(base_position(BaseDimId::Prelude(PreludeBaseDimension::Time)))
}

pub open spec fn expect_quantity_v(t: TypeV, span: Span) -> Result<Seq<(int, int)>, TypeRuleError> {
    match quantity_dim_v(t) {
        Some(d) => Ok(d),
        None => Err(mm(MismatchReason::ExpectedQuantity, span)),
    }
}

pub open spec fn cmp_operand_v(t: TypeV, span: Span) -> Result<TypeV, TypeRuleError> {
    if t is Indexed {
        Err(TypeRuleError::IndexedComparisonOperand { span })
    } else {
        Ok(t)
    }
}

pub open spec fn is_label_v(t: TypeV) -> bool {
    t is NamedIndexCase || t is IndexArg
}

pub open spec fn logic_v(l: TypeV, ls: Span, r: TypeV, rs: Span) -> Result<TypeV, TypeRuleError> {
    if l != TypeV::Bool {
        Err(mm(MismatchReason::LogicalOperandNotBool, ls))
    } else if r != TypeV::Bool {
        Err(mm(MismatchReason::LogicalOperandNotBool, rs))
    } else {
        Ok(TypeV::Bool)
    }
}

pub open spec fn equality_v(l: TypeV, ls: Span, r: TypeV, rs: Span) -> Result<TypeV, TypeRuleError> {
    match cmp_operand_v(l, ls) {
        Err(e) => Err(e),
        Ok(l) => match cmp_operand_v(r, rs) {
            Err(e) => Err(e),
            Ok(r) => if is_label_v(l) || is_label_v(r) {
                Err(
                    mm(
                        MismatchReason::IndexLabelNotValue,
                        if is_label_v(l) {
                            ls
                        } else {
                            rs
                        },
                    ),
                )
            } else if l == r || (is_int_like_v(l) && is_int_like_v(r)) {
                Ok(TypeV::Bool)
            } else if quantity_dim_v(l) is Some && quantity_dim_v(l) == quantity_dim_v(r) {
                Ok(TypeV::Bool)
            } else {
                Err(mm(MismatchReason::EqualityTypeMismatch, rs))
            },
        },
    }
}

pub open spec fn ordering_v(l: TypeV, ls: Span, r: TypeV, rs: Span) -> Result<TypeV, TypeRuleError> {
    match cmp_operand_v(l, ls) {
        Err(e) => Err(e),
        Ok(l) => match cmp_operand_v(r, rs) {
            Err(e) => Err(e),
            Ok(r) => if l is Complex || r is Complex {
                Err(
                    mm(
                        MismatchReason::ComplexUnordered,
                        if l is Complex {
                            ls
                        } else {
                            rs
                        },
                    ),
                )
            } else if is_int_like_v(l) || is_int_like_v(r) {
                if is_int_like_v(l) && is_int_like_v(r) {
                    Ok(TypeV::Bool)
                } else {
                    Err(mm(MismatchReason::ComparisonTypeMismatch, rs))
                }
            } else {
                match (l, r) {
                    (TypeV::Datetime(a), TypeV::Datetime(b)) => if a == b {
                        Ok(TypeV::Bool)
                    } else {
                        Err(mm(MismatchReason::DatetimeComparisonScale, rs))
                    },
                    _ => match expect_quantity_v(l, ls) {
                        Err(e) => Err(e),
                        Ok(ld) => match expect_quantity_v(r, rs) {
                            Err(e) => Err(e),
                            Ok(rd) => if ld == rd {
                                Ok(TypeV::Bool)
                            } else {
                                Err(mm(MismatchReason::ComparisonDimensionMismatch, rs))
                            },
                        },
                    },
                }
            },
        },
    }
}

/// `k + c` on a key of a `Fin` axis with a static constant `c`.
pub open spec fn fin_key_v(
    is_sub: bool,
    k: IndexRefV,
    r: TypeV,
    rs: Span,
    rhs_const: Option<i64>,
) -> Result<TypeV, TypeRuleError> {
    match k {
        IndexRefV::Declared(_) => Err(mm(MismatchReason::FinKeyNotFin, rs)),
        IndexRefV::NatRange(f) => if is_sub {
            Err(mm(MismatchReason::FinKeySubtraction, rs))
        } else if !is_int_like_v(r) {
            Err(mm(MismatchReason::FinKeyAddendNotInt, rs))
        } else {
            match rhs_const {
                None => Err(mm(MismatchReason::FinKeyRuntimeOffset, rs)),
                Some(c) => if c < 0 {
                    Err(mm(MismatchReason::FinKeyNegativeAddend, rs))
                } else if f.0 + c > u64::MAX || !valid_range_form(((f.0 + c) as nat, f.1)) {
                    Err(TypeRuleError::NatArithmetic { span: rs })
                } else {
                    Ok(TypeV::Key(IndexRefV::NatRange(((f.0 + c) as nat, f.1))))
                },
            }
        },
    }
}

pub open spec fn additive_v(
    is_sub: bool,
    l: TypeV,
    ls: Span,
    r: TypeV,
    rs: Span,
    rhs_const: Option<i64>,
) -> Result<TypeV, TypeRuleError> {
    match l {
        TypeV::Key(k) => fin_key_v(is_sub, k, r, rs, rhs_const),
        _ => if r is Key {
            Err(mm(MismatchReason::KeyNotFirst, rs))
        } else if is_int_like_v(l) && is_int_like_v(r) {
            Ok(TypeV::Int)
        } else {
            match (l, r) {
                (TypeV::Complex(a), TypeV::Complex(b)) => if a == b {
                    Ok(TypeV::Complex(a))
                } else {
                    Err(mm(MismatchReason::ComplexDimensionMismatch, rs))
                },
                (TypeV::Complex(_), _) => Err(mm(MismatchReason::ComplexPromotion, rs)),
                (_, TypeV::Complex(_)) => Err(mm(MismatchReason::ComplexPromotion, rs)),
                (TypeV::Datetime(a), TypeV::Datetime(b)) => if is_sub {
                    if a == b {
                        Ok(TypeV::Quantity(time_v()))
                    } else {
                        Err(mm(MismatchReason::DatetimeSubtractionScale, rs))
                    }
                } else {
                    Err(mm(MismatchReason::DatetimeAddition, rs))
                },
                (TypeV::Datetime(a), _) => match expect_quantity_v(r, rs) {
                    Err(e) => Err(e),
                    Ok(rd) => if rd == time_v() {
                        Ok(TypeV::Datetime(a))
                    } else {
                        Err(mm(MismatchReason::DurationNotTime, rs))
                    },
                },
                (_, TypeV::Datetime(b)) => if !is_sub {
                    match expect_quantity_v(l, ls) {
                        Err(e) => Err(e),
                        Ok(ld) => if ld == time_v() {
                            Ok(TypeV::Datetime(b))
                        } else {
                            Err(mm(MismatchReason::LeadingDurationNotTime, ls))
                        },
                    }
                } else {
                    Err(mm(MismatchReason::QuantityMinusDatetime, rs))
                },
                _ => match expect_quantity_v(l, ls) {
                    Err(e) => Err(e),
                    Ok(ld) => match expect_quantity_v(r, rs) {
                        Err(e) => Err(e),
                        Ok(rd) => if ld == rd {
                            Ok(TypeV::Quantity(ld))
                        } else {
                            Err(mm(MismatchReason::AdditionDimensionMismatch, rs))
                        },
                    },
                },
            }
        },
    }
}

/// The dimension of a real or complex operand, and whether it is complex.
pub open spec fn operand_dim_v(t: TypeV, span: Span) -> Result<(Seq<(int, int)>, bool), TypeRuleError> {
    match t {
        TypeV::Complex(d) => Ok((d, true)),
        _ => match expect_quantity_v(t, span) {
            Ok(d) => Ok((d, false)),
            Err(e) => Err(e),
        },
    }
}

pub open spec fn multiplicative_v(
    is_div: bool,
    l: TypeV,
    ls: Span,
    r: TypeV,
    rs: Span,
    es: Span,
) -> Result<TypeV, TypeRuleError> {
    if is_int_like_v(l) && is_int_like_v(r) {
        Ok(TypeV::Int)
    } else {
        match operand_dim_v(l, ls) {
            Err(e) => Err(e),
            Ok((ld, lc)) => match operand_dim_v(r, rs) {
                Err(e) => Err(e),
                Ok((rd, rc)) => match (if is_div {
                    dim_div_v(ld, rd)
                } else {
                    dim_mul_v(ld, rd)
                }) {
                    None => Err(TypeRuleError::DimensionOverflow { span: es }),
                    Some(d) => Ok(
                        if lc || rc {
                            TypeV::Complex(d)
                        } else {
                            TypeV::Quantity(d)
                        },
                    ),
                },
            },
        }
    }
}

pub open spec fn replacement_v(exact: Option<Rational>) -> Option<ExponentReplacement> {
    match exact {
        None => None,
        Some(x) => if !exp_fits(x@) {
            None
        } else if x@.1 == 1 {
            Some(ExponentReplacement::Integer(x@.0 as i64))
        } else {
            Some(ExponentReplacement::Fraction(x@.0 as i64, x@.1 as i64))
        },
    }
}

/// The integer exponent of an `Int` power, when one is known.
pub open spec fn int_exponent_v(e: PowerExponent, rhs_const: Option<i64>) -> Option<int> {
    match e {
        PowerExponent::Exact(x) => if x@.1 == 1 {
            Some(x@.0)
        } else {
            None
        },
        PowerExponent::Runtime => match rhs_const {
            Some(c) => Some(c as int),
            None => None,
        },
        PowerExponent::FloatSyntax { .. } => None,
    }
}

/// A non-exact exponent must be a dimensionless quantity.
pub open spec fn exponent_check_v(e: PowerExponent, r: TypeV, rs: Span) -> Result<(), TypeRuleError> {
    if e is Exact {
        Ok(())
    } else {
        match expect_quantity_v(r, rs) {
            Err(x) => Err(x),
            Ok(rd) => if rd.len() == 0 {
                Ok(())
            } else {
                Err(mm(MismatchReason::ExponentNotDimensionless, rs))
            },
        }
    }
}

pub open spec fn power_v(
    e: PowerExponent,
    l: TypeV,
    ls: Span,
    r: TypeV,
    rs: Span,
    es: Span,
    rhs_const: Option<i64>,
) -> Result<TypeV, TypeRuleError> {
    if is_int_like_v(l) {
        match int_exponent_v(e, rhs_const) {
            Some(v) => if v >= 0 {
                Ok(TypeV::Int)
            } else {
                Err(mm(MismatchReason::NegativeIntExponent, rs))
            },
            None => Err(mm(MismatchReason::NonExactIntExponent, rs)),
        }
    } else {
        match expect_quantity_v(l, ls) {
            Err(x) => Err(x),
            Ok(ld) => match exponent_check_v(e, r, rs) {
                Err(x) => Err(x),
                Ok(_) => if ld.len() == 0 {
                    Ok(TypeV::Quantity(Seq::empty()))
                } else {
                    match e {
                        PowerExponent::Exact(x) => if !exp_fits(x@) {
                            Err(TypeRuleError::DimensionOverflow { span: rs })
                        } else {
                            match dim_pow_v(ld, x@) {
                                None => Err(TypeRuleError::DimensionOverflow { span: es }),
                                Some(d) => Ok(TypeV::Quantity(d)),
                            }
                        },
                        PowerExponent::FloatSyntax { exact } => Err(
                            TypeRuleError::FloatPowerExponent {
                                replacement: replacement_v(exact),
                                span: rs,
                            },
                        ),
                        PowerExponent::Runtime => Err(
                            TypeRuleError::RuntimeExponentForDimensionedBase { span: rs },
                        ),
                    }
                },
            },
        }
    }
}

/// The typing rule of a binary operation over operand views.
pub open spec fn binop_v(
    op: BinOp,
    l: TypeV,
    ls: Span,
    r: TypeV,
    rs: Span,
    es: Span,
    rhs_const: Option<i64>,
) -> Result<TypeV, TypeRuleError> {
    match op {
        BinOp::And | BinOp::Or => logic_v(l, ls, r, rs),
        BinOp::Eq | BinOp::Ne => equality_v(l, ls, r, rs),
        BinOp::Lt | BinOp::Le | BinOp::Gt | BinOp::Ge => ordering_v(l, ls, r, rs),
        BinOp::Add => additive_v(false, l, ls, r, rs, rhs_const),
        BinOp::Sub => additive_v(true, l, ls, r, rs, rhs_const),
        BinOp::Mul => multiplicative_v(false, l, ls, r, rs, es),
        BinOp::Div => multiplicative_v(true, l, ls, r, rs, es),
        BinOp::Mod => if is_int_like_v(l) && is_int_like_v(r) {
            Ok(TypeV::Int)
        } else {
            Err(mm(MismatchReason::ModuloNotInt, es))
        },
        BinOp::Pow(e) => power_v(e, l, ls, r, rs, es, rhs_const),
    }
}

pub open spec fn unary_v(op: UnaryOp, t: TypeV, span: Span) -> Result<TypeV, TypeRuleError> {
    match op {
        UnaryOp::Not => if t == TypeV::Bool {
            Ok(TypeV::Bool)
        } else {
            Err(mm(MismatchReason::NotOperandNotBool, span))
        },
        UnaryOp::Neg => match t {
            TypeV::Quantity(_) | TypeV::Complex(_) | TypeV::Int => Ok(t),
            TypeV::CoordinateIndexLabel(d, _) => Ok(TypeV::Quantity(d)),
            TypeV::Fin(_) => Err(mm(MismatchReason::NegateFin, span)),
            _ => Err(mm(MismatchReason::NegateNonNumeric, span)),
        },
    }
}

pub open spec fn if_v(c: TypeV, cs: Span, t: TypeV, e: TypeV, es: Span) -> Result<TypeV, TypeRuleError> {
    if c != TypeV::Bool {
        Err(mm(MismatchReason::IfConditionNotBool, cs))
    } else if t != e {
        Err(mm(MismatchReason::IfBranchMismatch, es))
    } else {
        Ok(t)
    }
}

/// The time dimension.
fn time_dimension() -> (d: Dimension)
    ensures
        d@ == time_v(),
{
    Dimension::base(BaseDimId::Prelude(PreludeBaseDimension::Time))
}

/// Require a real quantity (or coordinate label) and return its dimension.
pub fn expect_quantity(inferred: &InferredType, span: Span) -> (r: Result<&Dimension, TypeRuleError>)
    ensures
        match (r, expect_quantity_v(inferred@, span)) {
            (Ok(d), Ok(v)) => d@ == v,
            (Err(e), Err(f)) => e == f,
            _ => false,
        },
{
    match inferred.quantity_dimension() {
        Some(d) => Ok(d),
        None => Err(TypeRuleError::Mismatch { reason: MismatchReason::ExpectedQuantity, span }),
    }
}

/// Require one comparison operand to be an unindexed value.
///
/// Comparisons follow arithmetic's no-broadcasting rule: callers must use an
/// explicit `for` comprehension and compare one element at a time.
pub fn comparison_operand_type(operand: &Operand) -> (r: Result<&InferredType, TypeRuleError>)
    ensures
        match (r, cmp_operand_v(operand.ty@, operand.span)) {
            (Ok(t), Ok(v)) => t@ == v,
            (Err(e), Err(f)) => e == f,
            _ => false,
        },
{
    match &operand.ty {
        InferredType::Indexed { .. } => Err(TypeRuleError::IndexedComparisonOperand { span: operand.span }),
        ty => Ok(ty),
    }
}

/// The exact spelling to suggest in place of a float exponent.
pub fn exact_float_replacement(exact: Option<Rational>) -> (r: Option<ExponentReplacement>)
    ensures
        r == replacement_v(exact),
{
    match exact {
        None => None,
        Some(x) => {
            if !in_exponent_range(&x) {
                None
            } else if x.is_integer() {
                Some(ExponentReplacement::Integer(x.numerator()))
            } else {
                Some(ExponentReplacement::Fraction(x.numerator(), x.denominator()))
            }
        },
    }
}

fn is_label(t: &InferredType) -> (b: bool)
    ensures
        b == is_label_v(t@),
{
    match t {
        InferredType::NamedIndexCase(_) | InferredType::IndexArg(_) => true,
        _ => false,
    }
}

fn logic_rule(lhs: &Operand, rhs: &Operand) -> (r: Result<InferredType, TypeRuleError>)
    ensures
        same_result(r, logic_v(lhs.ty@, lhs.span, rhs.ty@, rhs.span)),
{
    match &lhs.ty {
        InferredType::Bool => {},
        _ => {
            return Err(
                TypeRuleError::Mismatch {
                    reason: MismatchReason::LogicalOperandNotBool,
                    span: lhs.span,
                },
            );
        },
    }
    match &rhs.ty {
        InferredType::Bool => Ok(InferredType::Bool),
        _ => Err(
            TypeRuleError::Mismatch { reason: MismatchReason::LogicalOperandNotBool, span: rhs.span },
        ),
    }
}

fn equality_rule(lhs: &Operand, rhs: &Operand) -> (r: Result<InferredType, TypeRuleError>)
    ensures
        same_result(r, equality_v(lhs.ty@, lhs.span, rhs.ty@, rhs.span)),
{
    let lt = comparison_operand_type(lhs)?;
    let rt = comparison_operand_type(rhs)?;
    if is_label(lt) || is_label(rt) {
        let span = if is_label(lt) {
            lhs.span
        } else {
            rhs.span
        };
        return Err(TypeRuleError::Mismatch { reason: MismatchReason::IndexLabelNotValue, span });
    }
    if type_equal(lt, rt) || (lt.is_int_like() && rt.is_int_like()) {
        return Ok(InferredType::Bool);
    }
    match (lt.quantity_dimension(), rt.quantity_dimension()) {
        (Some(a), Some(b)) => {
            if a.equals(b) {
                return Ok(InferredType::Bool);
            }
        },
        _ => {},
    }
    Err(TypeRuleError::Mismatch { reason: MismatchReason::EqualityTypeMismatch, span: rhs.span })
}

fn ordering_rule(lhs: &Operand, rhs: &Operand) -> (r: Result<InferredType, TypeRuleError>)
    ensures
        same_result(r, ordering_v(lhs.ty@, lhs.span, rhs.ty@, rhs.span)),
{
    let lt = comparison_operand_type(lhs)?;
    let rt = comparison_operand_type(rhs)?;
    let l_complex = match lt {
        InferredType::Complex(_) => true,
        _ => false,
    };
    let r_complex = match rt {
        InferredType::Complex(_) => true,
        _ => false,
    };
    if l_complex || r_complex {
        let span = if l_complex {
            lhs.span
        } else {
            rhs.span
        };
        return Err(TypeRuleError::Mismatch { reason: MismatchReason::ComplexUnordered, span });
    }
    if lt.is_int_like() || rt.is_int_like() {
        if !lt.is_int_like() || !rt.is_int_like() {
            return Err(
                TypeRuleError::Mismatch {
                    reason: MismatchReason::ComparisonTypeMismatch,
                    span: rhs.span,
                },
            );
        }
        return Ok(InferredType::Bool);
    }
    match (lt, rt) {
        (InferredType::Datetime(a), InferredType::Datetime(b)) => {
            if *a != *b {
                return Err(
                    TypeRuleError::Mismatch {
                        reason: MismatchReason::DatetimeComparisonScale,
                        span: rhs.span,
                    },
                );
            }
            return Ok(InferredType::Bool);
        },
        _ => {},
    }
    let ld = expect_quantity(lt, lhs.span)?;
    let rd = expect_quantity(rt, rhs.span)?;
    if !ld.equals(rd) {
        return Err(
            TypeRuleError::Mismatch {
                reason: MismatchReason::ComparisonDimensionMismatch,
                span: rhs.span,
            },
        );
    }
    Ok(InferredType::Bool)
}

/// The exact additive fragment of Fin-key arithmetic: a key of `Fin(N)` plus a
/// static Nat constant `c` is a key of `Fin(N + c)`.
pub fn fin_key_additive_rule(
    is_sub: bool,
    key_index: &InferredIndex,
    rhs: &Operand,
    rhs_const_int: Option<i64>,
) -> (r: Result<InferredType, TypeRuleError>)
    ensures
        same_result(r, fin_key_v(is_sub, key_index@, rhs.ty@, rhs.span, rhs_const_int)),
{
    let bound = match key_index.nat_range_form() {
        Some(f) => f,
        None => {
            return Err(
                TypeRuleError::Mismatch { reason: MismatchReason::FinKeyNotFin, span: rhs.span },
            );
        },
    };
    if is_sub {
        return Err(
            TypeRuleError::Mismatch { reason: MismatchReason::FinKeySubtraction, span: rhs.span },
        );
    }
    if !rhs.ty.is_int_like() {
        return Err(
            TypeRuleError::Mismatch { reason: MismatchReason::FinKeyAddendNotInt, span: rhs.span },
        );
    }
    let addend = match rhs_const_int {
        Some(c) => c,
        None => {
            return Err(
                TypeRuleError::Mismatch {
                    reason: MismatchReason::FinKeyRuntimeOffset,
                    span: rhs.span,
                },
            );
        },
    };
    if addend < 0 {
        return Err(
            TypeRuleError::Mismatch { reason: MismatchReason::FinKeyNegativeAddend, span: rhs.span },
        );
    }
    let _ = bound.constant();
    let c = NatLinearForm::from_constant(addend as u64);
    let shifted = match bound.add(&c) {
        Ok(s) => s,
        Err(_) => {
            return Err(TypeRuleError::NatArithmetic { span: rhs.span });
        },
    };
    proof {
        assert forall|i: int| 0 <= i implies #[trigger] crate::nat_form::coeff_at(shifted@.1, i)
            == crate::nat_form::coeff_at(bound@.1, i) by {
            assert(shifted.coefficient(i) == bound.coefficient(i) + c.coefficient(i));
        }
        lemma_coeffs_ext(shifted@.1, bound@.1);
    }
    match InferredIndex::from_nat_range_form(shifted) {
        Ok(index) => Ok(InferredType::Key(index)),
        Err(_) => Err(TypeRuleError::NatArithmetic { span: rhs.span }),
    }
}

fn additive_rule(is_sub: bool, lhs: &Operand, rhs: &Operand, rhs_const_int: Option<i64>) -> (r:
    Result<InferredType, TypeRuleError>)
    ensures
        same_result(r, additive_v(is_sub, lhs.ty@, lhs.span, rhs.ty@, rhs.span, rhs_const_int)),
{
    let lt = &lhs.ty;
    let rt = &rhs.ty;
    match lt {
        InferredType::Key(k) => {
            return fin_key_additive_rule(is_sub, k, rhs, rhs_const_int);
        },
        _ => {},
    }
    match rt {
        InferredType::Key(_) => {
            return Err(
                TypeRuleError::Mismatch { reason: MismatchReason::KeyNotFirst, span: rhs.span },
            );
        },
        _ => {},
    }
    if lt.is_int_like() && rt.is_int_like() {
        return Ok(InferredType::Int);
    }
    match (lt, rt) {
        (InferredType::Complex(a), InferredType::Complex(b)) => {
            if !a.equals(b) {
                return Err(
                    TypeRuleError::Mismatch {
                        reason: MismatchReason::ComplexDimensionMismatch,
                        span: rhs.span,
                    },
                );
            }
            return Ok(InferredType::Complex(a.clone()));
        },
        (InferredType::Complex(_), _) | (_, InferredType::Complex(_)) => {
            return Err(
                TypeRuleError::Mismatch { reason: MismatchReason::ComplexPromotion, span: rhs.span },
            );
        },
        _ => {},
    }
    match lt {
        InferredType::Datetime(ls) => {
            match rt {
                InferredType::Datetime(rs) => {
                    if is_sub {
                        if *ls != *rs {
                            return Err(
                                TypeRuleError::Mismatch {
                                    reason: MismatchReason::DatetimeSubtractionScale,
                                    span: rhs.span,
                                },
                            );
                        }
                        return Ok(InferredType::Quantity(time_dimension()));
                    }
                    return Err(
                        TypeRuleError::Mismatch {
                            reason: MismatchReason::DatetimeAddition,
                            span: rhs.span,
                        },
                    );
                },
                _ => {},
            }
            let rd = expect_quantity(rt, rhs.span)?;
            let time = time_dimension();
            if !rd.equals(&time) {
                return Err(
                    TypeRuleError::Mismatch { reason: MismatchReason::DurationNotTime, span: rhs.span },
                );
            }
            return Ok(InferredType::Datetime(*ls));
        },
        _ => {},
    }
    match rt {
        InferredType::Datetime(rs) => {
            if !is_sub {
                let ld = expect_quantity(lt, lhs.span)?;
                let time = time_dimension();
                if !ld.equals(&time) {
                    return Err(
                        TypeRuleError::Mismatch {
                            reason: MismatchReason::LeadingDurationNotTime,
                            span: lhs.span,
                        },
                    );
                }
                return Ok(InferredType::Datetime(*rs));
            }
            return Err(
                TypeRuleError::Mismatch {
                    reason: MismatchReason::QuantityMinusDatetime,
                    span: rhs.span,
                },
            );
        },
        _ => {},
    }
    let ld = expect_quantity(lt, lhs.span)?;
    let rd = expect_quantity(rt, rhs.span)?;
    if !ld.equals(rd) {
        return Err(
            TypeRuleError::Mismatch {
                reason: MismatchReason::AdditionDimensionMismatch,
                span: rhs.span,
            },
        );
    }
    Ok(InferredType::Quantity(ld.clone()))
}

fn operand_dimension(t: &InferredType, span: Span) -> (r: Result<(&Dimension, bool), TypeRuleError>)
    ensures
        match (r, operand_dim_v(t@, span)) {
            (Ok((d, c)), Ok((v, w))) => d@ == v && c == w,
            (Err(e), Err(f)) => e == f,
            _ => false,
        },
{
    match t {
        InferredType::Complex(d) => Ok((d, true)),
        _ => {
            let d = expect_quantity(t, span)?;
            Ok((d, false))
        },
    }
}

fn multiplicative_rule(is_div: bool, expr_span: Span, lhs: &Operand, rhs: &Operand) -> (r: Result<
    InferredType,
    TypeRuleError,
>)
    ensures
        same_result(r, multiplicative_v(is_div, lhs.ty@, lhs.span, rhs.ty@, rhs.span, expr_span)),
{
    if lhs.ty.is_int_like() && rhs.ty.is_int_like() {
        return Ok(InferredType::Int);
    }
    let (ld, lc) = operand_dimension(&lhs.ty, lhs.span)?;
    let (rd, rc) = operand_dimension(&rhs.ty, rhs.span)?;
    let dim = if is_div {
        ld.checked_div(rd)
    } else {
        ld.checked_mul(rd)
    };
    match dim {
        Ok(d) => {
            if lc || rc {
                Ok(InferredType::Complex(d))
            } else {
                Ok(InferredType::Quantity(d))
            }
        },
        Err(_) => Err(TypeRuleError::DimensionOverflow { span: expr_span }),
    }
}

fn power_rule(
    exponent: PowerExponent,
    expr_span: Span,
    lhs: &Operand,
    rhs: &Operand,
    rhs_const_int: Option<i64>,
) -> (r: Result<InferredType, TypeRuleError>)
    ensures
        same_result(
            r,
            power_v(exponent, lhs.ty@, lhs.span, rhs.ty@, rhs.span, expr_span, rhs_const_int),
        ),
{
    if lhs.ty.is_int_like() {
        let int_exp: Option<i64> = match exponent {
            PowerExponent::Exact(x) => {
                if x.is_integer() {
                    Some(x.numerator())
                } else {
                    None
                }
            },
            PowerExponent::Runtime => rhs_const_int,
            PowerExponent::FloatSyntax { .. } => None,
        };
        return match int_exp {
            Some(v) => {
                if v >= 0 {
                    Ok(InferredType::Int)
                } else {
                    Err(
                        TypeRuleError::Mismatch {
                            reason: MismatchReason::NegativeIntExponent,
                            span: rhs.span,
                        },
                    )
                }
            },
            None => Err(
                TypeRuleError::Mismatch {
                    reason: MismatchReason::NonExactIntExponent,
                    span: rhs.span,
                },
            ),
        };
    }
    let ld = expect_quantity(&lhs.ty, lhs.span)?;
    match exponent {
        PowerExponent::Exact(_) => {},
        _ => {
            let rd = expect_quantity(&rhs.ty, rhs.span)?;
            if !rd.is_dimensionless() {
                return Err(
                    TypeRuleError::Mismatch {
                        reason: MismatchReason::ExponentNotDimensionless,
                        span: rhs.span,
                    },
                );
            }
        },
    }
    if ld.is_dimensionless() {
        let d = Dimension::dimensionless();
        assert(d@ =~= Seq::<(int, int)>::empty());
        return Ok(InferredType::Quantity(d));
    }
    match exponent {
        PowerExponent::Exact(x) => if !in_exponent_range(&x) {
            Err(TypeRuleError::DimensionOverflow { span: rhs.span })
        } else {
            match ld.pow(x) {
                Ok(d) => Ok(InferredType::Quantity(d)),
                Err(_) => Err(TypeRuleError::DimensionOverflow { span: expr_span }),
            }
        },
        PowerExponent::FloatSyntax { exact } => Err(
            TypeRuleError::FloatPowerExponent {
                replacement: exact_float_replacement(exact),
                span: rhs.span,
            },
        ),
        PowerExponent::Runtime => Err(
            TypeRuleError::RuntimeExponentForDimensionedBase { span: rhs.span },
        ),
    }
}

/// Typing rule for a binary operation, given already-inferred operands.
///
/// `rhs_const_int` is the right operand's constant-folded `Int` value, used by
/// runtime-classified `Int ^ Int` chains and by the additive Fin-key rule.
pub fn binop_rule(expr_span: Span, op: BinOp, lhs: &Operand, rhs: &Operand, rhs_const_int: Option<
    i64,
>) -> (r: Result<InferredType, TypeRuleError>)
    ensures
        same_result(r, binop_v(op, lhs.ty@, lhs.span, rhs.ty@, rhs.span, expr_span, rhs_const_int)),
{
    match op {
        BinOp::And | BinOp::Or => logic_rule(lhs, rhs),
        BinOp::Eq | BinOp::Ne => equality_rule(lhs, rhs),
        BinOp::Lt | BinOp::Le | BinOp::Gt | BinOp::Ge => ordering_rule(lhs, rhs),
        BinOp::Add => additive_rule(false, lhs, rhs, rhs_const_int),
        BinOp::Sub => additive_rule(true, lhs, rhs, rhs_const_int),
        BinOp::Mul => multiplicative_rule(false, expr_span, lhs, rhs),
        BinOp::Div => multiplicative_rule(true, expr_span, lhs, rhs),
        BinOp::Mod => {
            if lhs.ty.is_int_like() && rhs.ty.is_int_like() {
                Ok(InferredType::Int)
            } else {
                Err(TypeRuleError::Mismatch { reason: MismatchReason::ModuloNotInt, span: expr_span })
            }
        },
        BinOp::Pow(e) => power_rule(e, expr_span, lhs, rhs, rhs_const_int),
    }
}

/// Typing rule for a unary operation, given the already-inferred operand.
pub fn unary_rule(op: UnaryOp, operand: &Operand) -> (r: Result<InferredType, TypeRuleError>)
    ensures
        same_result(r, unary_v(op, operand.ty@, operand.span)),
{
    match op {
        UnaryOp::Not => match &operand.ty {
            InferredType::Bool => Ok(InferredType::Bool),
            _ => Err(
                TypeRuleError::Mismatch {
                    reason: MismatchReason::NotOperandNotBool,
                    span: operand.span,
                },
            ),
        },
        UnaryOp::Neg => match &operand.ty {
            InferredType::Quantity(_) | InferredType::Complex(_) | InferredType::Int => Ok(
                operand.ty.clone(),
            ),
            InferredType::CoordinateIndexLabel { dimension, .. } => Ok(
                InferredType::Quantity(dimension.clone()),
            ),
            InferredType::Fin(_) => Err(
                TypeRuleError::Mismatch { reason: MismatchReason::NegateFin, span: operand.span },
            ),
            _ => Err(
                TypeRuleError::Mismatch {
                    reason: MismatchReason::NegateNonNumeric,
                    span: operand.span,
                },
            ),
        },
    }
}

/// Typing rule for an `if`/`else` expression, given inferred parts.
pub fn if_rule(cond: &Operand, then_branch: &Operand, else_branch: &Operand) -> (r: Result<
    InferredType,
    TypeRuleError,
>)
    ensures
        same_result(
            r,
            if_v(cond.ty@, cond.span, then_branch.ty@, else_branch.ty@, else_branch.span),
        ),
{
    match &cond.ty {
        InferredType::Bool => {},
        _ => {
            return Err(
                TypeRuleError::Mismatch {
                    reason: MismatchReason::IfConditionNotBool,
                    span: cond.span,
                },
            );
        },
    }
    if !type_equal(&then_branch.ty, &else_branch.ty) {
        return Err(
            TypeRuleError::Mismatch {
                reason: MismatchReason::IfBranchMismatch,
                span: else_branch.span,
            },
        );
    }
    Ok(then_branch.ty.clone())
}

/// Typing rule for `match` arms: at least one arm, and all arms of one type.
/// `arm_spans[i]` is the span of arm `i`'s body.
pub fn match_arms_rule(arm_types: &Vec<InferredType>, arm_spans: &Vec<Span>, expr_span: Span) -> (r:
    Result<InferredType, TypeRuleError>)
    requires
        arm_spans@.len() == arm_types@.len(),
    ensures
        arm_types@.len() == 0 ==> r == Err::<InferredType, TypeRuleError>(
            TypeRuleError::NoMatchArms { span: expr_span },
        ),
        r matches Ok(t) ==> arm_types@.len() > 0 && t@ == arm_types@[0]@ && forall|i: int|
            0 <= i < arm_types@.len() ==> #[trigger] arm_types@[i]@ == arm_types@[0]@,
        r matches Err(e) ==> arm_types@.len() == 0 || exists|i: int|
            1 <= i < arm_types@.len() && arm_types@[i]@ != arm_types@[0]@ && (forall|j: int|
                0 <= j < i ==> #[trigger] arm_types@[j]@ == arm_types@[0]@) && e == mm(
                MismatchReason::MatchArmMismatch,
                arm_spans@[i],
            ),
{
    if arm_types.len() == 0 {
        return Err(TypeRuleError::NoMatchArms { span: expr_span });
    }
    let first = &arm_types[0];
    let mut i: usize = 1;
    while i < arm_types.len()
        invariant
            arm_spans@.len() == arm_types@.len(),
            arm_types@.len() > 0,
            *first == arm_types@[0],
            1 <= i <= arm_types@.len(),
            forall|j: int| 0 <= j < i ==> #[trigger] arm_types@[j]@ == arm_types@[0]@,
        decreases arm_types@.len() - i,
    {
        if !type_equal(&arm_types[i], first) {
            return Err(
                TypeRuleError::Mismatch {
                    reason: MismatchReason::MatchArmMismatch,
                    span: arm_spans[i],
                },
            );
        }
        i += 1;
    }
    Ok(first.clone())
}

/// The rule of a timezone display `e -> "zone"`, given whether the zone name
/// is known: the operand must be a datetime, which the display keeps.
pub open spec fn display_timezone_v(inner: TypeV, inner_span: Span, zone_known: bool, expr_span: Span) -> Result<
    TypeV,
    TypeRuleError,
> {
    if !(inner is Datetime) {
        Err(mm(MismatchReason::DisplayTimezoneNotDatetime, inner_span))
    } else if !zone_known {
        Err(TypeRuleError::InvalidTimezone { span: expr_span })
    } else {
        Ok(inner)
    }
}

/// Typing rule of a timezone display, given the outcome of the zone lookup.
pub fn display_timezone_rule(inner: &Operand, zone_known: bool, expr_span: Span) -> (r: Result<
    InferredType,
    TypeRuleError,
>)
    ensures
        same_result(r, display_timezone_v(inner.ty@, inner.span, zone_known, expr_span)),
{
    match &inner.ty {
        InferredType::Datetime(_) => {},
        _ => {
            return Err(
                TypeRuleError::Mismatch {
                    reason: MismatchReason::DisplayTimezoneNotDatetime,
                    span: inner.span,
                },
            );
        },
    }
    if !zone_known {
        return Err(TypeRuleError::InvalidTimezone { span: expr_span });
    }
    Ok(inner.ty.clone())
}

/// The rule of a unit conversion `e -> unit`: the operand must be a quantity of
/// the target unit's dimension, and the result is a quantity of it.
pub open spec fn convert_v(inner: TypeV, inner_span: Span, target: Seq<(int, int)>, target_span: Span) -> Result<
    TypeV,
    TypeRuleError,
> {
    match expect_quantity_v(inner, inner_span) {
        Err(e) => Err(e),
        Ok(d) => if d != target {
            Err(mm(MismatchReason::ConversionDimensionMismatch, target_span))
        } else {
            Ok(TypeV::Quantity(d))
        },
    }
}

/// Typing rule of a unit conversion, given the dimension of the target unit.
pub fn convert_rule(inner: &Operand, target: &Dimension, target_span: Span) -> (r: Result<
    InferredType,
    TypeRuleError,
>)
    ensures
        same_result(r, convert_v(inner.ty@, inner.span, target@, target_span)),
{
    let d = expect_quantity(&inner.ty, inner.span)?;
    if !d.equals(target) {
        return Err(
            TypeRuleError::Mismatch {
                reason: MismatchReason::ConversionDimensionMismatch,
                span: target_span,
            },
        );
    }
    Ok(InferredType::Quantity(d.clone()))
}

/// The rule of a time-scale conversion such as `to_tt(e)`: the operand must be
/// a datetime, and the result is a datetime in the target scale.
pub open spec fn time_scale_conversion_v(arg: TypeV, arg_span: Span, scale: TimeScale) -> Result<
    TypeV,
    TypeRuleError,
> {
    if arg is Datetime {
        Ok(TypeV::Datetime(scale))
    } else {
        Err(mm(MismatchReason::TimeScaleConversionNotDatetime, arg_span))
    }
}

/// Typing rule of a time-scale conversion of one already-inferred argument.
pub fn time_scale_conversion_rule(arg: &Operand, scale: TimeScale) -> (r: Result<
    InferredType,
    TypeRuleError,
>)
    ensures
        same_result(r, time_scale_conversion_v(arg.ty@, arg.span, scale)),
{
    match &arg.ty {
        InferredType::Datetime(_) => Ok(InferredType::Datetime(scale)),
        _ => Err(
            TypeRuleError::Mismatch {
                reason: MismatchReason::TimeScaleConversionNotDatetime,
                span: arg.span,
            },
        ),
    }
}

/// Whether `jiff::tz::TimeZone::get` finds the name in the global time zone
/// database. That database is the one found on the machine (a zoneinfo
/// directory, a concatenated database or none at all), so nothing is stated
/// of the result: even `UTC` is not found when the machine has no database.
#[verifier::external_body]
pub(crate) fn timezone_exists(name: &str) -> (r: bool) {
    jiff::tz::TimeZone::get(name).is_ok()
}

/// Type a timezone display `inner -> "timezone"`: the operand must be a
/// datetime and the zone an IANA name known to the time zone database.
pub fn infer_display_timezone(inner: &Operand, timezone: &str, expr_span: Span) -> (r: Result<
    InferredType,
    TypeRuleError,
>)
    ensures
        exists|known: bool| same_result(r, #[trigger] display_timezone_v(inner.ty@, inner.span, known, expr_span)),
        !(inner.ty@ is Datetime) ==> r == Err::<InferredType, TypeRuleError>(
            mm(MismatchReason::DisplayTimezoneNotDatetime, inner.span),
        ),
{
    match &inner.ty {
        InferredType::Datetime(_) => {},
        _ => {
            return Err(
                TypeRuleError::Mismatch {
                    reason: MismatchReason::DisplayTimezoneNotDatetime,
                    span: inner.span,
                },
            );
        },
    }
    let known = timezone_exists(timezone);
    let r = display_timezone_rule(inner, known, expr_span);
    assert(same_result(r, display_timezone_v(inner.ty@, inner.span, known, expr_span)));
    r
}

} // verus!
