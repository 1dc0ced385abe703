use graphcal_compiler::builtin_call::TypeConversionFn;
use graphcal_compiler::dimension::{BaseDimId, Dimension, PreludeBaseDimension};
use graphcal_compiler::nat_form::NatLinearForm;
use graphcal_compiler::rules::{Operand, Span};
use graphcal_compiler::type_conversion::{type_conversion_rule, TypeConversionError};
use graphcal_compiler::types::InferredType;

fn operand(ty: InferredType, start: usize) -> Operand {
    Operand { ty, span: Span::new(start, start + 1) }
}

fn dimensionless() -> InferredType {
    InferredType::Quantity(Dimension::dimensionless())
}

fn length() -> InferredType {
    InferredType::Quantity(Dimension::base(BaseDimId::Prelude(PreludeBaseDimension::Length)))
}

#[test]
fn fin_arithmetic_with_int() {
    // `to_float(to_int(i))` for a loop position `i: Fin(3)`.
    let i = InferredType::Fin(NatLinearForm::from_constant(3));
    let int = type_conversion_rule(TypeConversionFn::ToInt, &vec![operand(i, 20)], Span::new(13, 22)).unwrap();
    assert_eq!(int, InferredType::Int);
    assert_eq!(
        type_conversion_rule(TypeConversionFn::ToFloat, &vec![operand(int, 13)], Span::new(4, 23)),
        Ok(dimensionless())
    );
}

#[test]
fn to_float_takes_integers_only() {
    assert_eq!(
        type_conversion_rule(TypeConversionFn::ToFloat, &vec![operand(InferredType::Int, 9)], Span::new(0, 11)),
        Ok(dimensionless())
    );
    assert_eq!(
        type_conversion_rule(TypeConversionFn::ToFloat, &vec![operand(dimensionless(), 9)], Span::new(0, 11)),
        Err(TypeConversionError::ExpectedInt { span: Span::new(9, 10) })
    );
}

#[test]
fn to_int_takes_dimensionless_quantities() {
    assert_eq!(
        type_conversion_rule(TypeConversionFn::ToInt, &vec![operand(dimensionless(), 7)], Span::new(0, 9)),
        Ok(InferredType::Int)
    );
    assert_eq!(
        type_conversion_rule(TypeConversionFn::ToInt, &vec![operand(length(), 7)], Span::new(0, 9)),
        Err(TypeConversionError::ExpectedDimensionless { span: Span::new(7, 8) })
    );
    assert_eq!(
        type_conversion_rule(TypeConversionFn::ToInt, &vec![operand(InferredType::Bool, 7)], Span::new(0, 9)),
        Err(TypeConversionError::ExpectedQuantity { span: Span::new(7, 8) })
    );
}

#[test]
fn conversions_take_exactly_one_argument() {
    assert_eq!(
        type_conversion_rule(TypeConversionFn::ToInt, &Vec::new(), Span::new(0, 8)),
        Err(TypeConversionError::WrongArity { expected: 1, got: 0, span: Span::new(0, 8) })
    );
    let two = vec![operand(InferredType::Int, 9), operand(InferredType::Int, 12)];
    assert_eq!(
        type_conversion_rule(TypeConversionFn::ToFloat, &two, Span::new(0, 14)),
        Err(TypeConversionError::WrongArity { expected: 1, got: 2, span: Span::new(0, 14) })
    );
}
