use graphcal_compiler::declared::{types_match, DeclaredType};
use graphcal_compiler::dimension::{BaseDimId, Dimension, PreludeBaseDimension};
use graphcal_compiler::index::Symbol;
use graphcal_compiler::rational::Rational;
use graphcal_compiler::rules::Span;
use graphcal_compiler::signature::{
    check_quantity_param, first_binding_param, infer_fn_dim, DimMonomial, DimVar, FunctionSignature,
    MonomialEvalError, SignatureError, SignatureParam, ValueKind,
};
use graphcal_compiler::types::InferredType;
use std::collections::HashMap;

fn base(p: PreludeBaseDimension) -> Dimension {
    Dimension::base(BaseDimId::Prelude(p))
}

fn length() -> Dimension {
    base(PreludeBaseDimension::Length)
}

fn time() -> Dimension {
    base(PreludeBaseDimension::Time)
}

fn angle() -> Dimension {
    base(PreludeBaseDimension::Angle)
}

fn powered(var: u32, numerator: i64, denominator: i64) -> DimMonomial {
    DimMonomial {
        constant: Dimension::dimensionless(),
        factors: vec![(DimVar(var), Rational::new(numerator, denominator).unwrap())],
    }
}

fn fixed(d: Dimension) -> DimMonomial {
    DimMonomial { constant: d, factors: Vec::new() }
}

/// `sqrt(x: D) -> D^(1/2)`.
fn sqrt_signature() -> FunctionSignature {
    FunctionSignature {
        params: vec![SignatureParam { name: Symbol(1), kind: ValueKind::Quantity(DimMonomial::var(DimVar(0))) }],
        result: ValueKind::Quantity(powered(0, 1, 2)),
    }
}

/// `sin(x: Angle) -> Dimensionless`.
fn sin_signature() -> FunctionSignature {
    FunctionSignature::fixed_to_fixed(Symbol(1), angle(), Dimension::dimensionless())
}

/// `hypot(x: D, y: D) -> D`.
fn hypot_signature() -> FunctionSignature {
    FunctionSignature {
        params: vec![
            SignatureParam { name: Symbol(1), kind: ValueKind::Quantity(DimMonomial::var(DimVar(0))) },
            SignatureParam { name: Symbol(2), kind: ValueKind::Quantity(DimMonomial::var(DimVar(0))) },
        ],
        result: ValueKind::Quantity(DimMonomial::var(DimVar(0))),
    }
}

#[test]
fn missing_dimension_binding_parameter_is_an_internal_error() {
    let signature = FunctionSignature::fixed_to_fixed(Symbol(1), Dimension::dimensionless(), Dimension::dimensionless());
    let argument_span = Span::new(7, 10);
    let variable = DimVar(4);
    let mut bindings = HashMap::from([(variable.0, length())]);
    let error = check_quantity_param(
        &signature,
        0,
        &DimMonomial::var(variable),
        &time(),
        &mut bindings,
        argument_span,
    )
    .unwrap_err();
    assert!(matches!(error, SignatureError::LostBindingParameter { var } if var == variable));
}

#[test]
fn zero_argument_arity_error_uses_the_explicit_call_span() {
    let signature = FunctionSignature::fixed_to_fixed(Symbol(1), Dimension::dimensionless(), Dimension::dimensionless());
    let call_span = Span::new(0, 3);
    let error = infer_fn_dim(&signature, &Vec::new(), call_span).unwrap_err();
    let SignatureError::WrongArity { span, .. } = error else {
        panic!("expected wrong-arity diagnostic");
    };
    assert_eq!(span, call_span);
}

#[test]
fn zero_argument_arity_error_points_at_the_call() {
    let call_span = Span::new(24, 27);
    assert!(matches!(
        infer_fn_dim(&sin_signature(), &Vec::new(), call_span),
        Err(SignatureError::WrongArity { expected: 1, got: 0, span }) if span == call_span
    ));
}

#[test]
fn check_sqrt_dimension() {
    let side = infer_fn_dim(&sqrt_signature(), &vec![(length(), Span::new(30, 35))], Span::new(25, 36)).unwrap();
    let half = length().pow(Rational::new(1, 2).unwrap()).unwrap();
    assert_eq!(side, half);
    assert!(!types_match(&DeclaredType::Quantity(length()), &InferredType::Quantity(side)));
}

#[test]
fn check_builtin_sin_requires_angle() {
    let error = infer_fn_dim(&sin_signature(), &vec![(length(), Span::new(30, 32))], Span::new(26, 33)).unwrap_err();
    assert!(matches!(
        error,
        SignatureError::DimensionMismatch { position: 0, ref expected, ref found, binding: None }
            if *expected == angle() && *found == length()
    ));
}

#[test]
fn bare_variables_bind_at_their_first_occurrence() {
    let signature = hypot_signature();
    assert_eq!(
        infer_fn_dim(&signature, &vec![(length(), Span::new(0, 1)), (length(), Span::new(2, 3))], Span::new(0, 4))
            .unwrap(),
        length()
    );
    let error = infer_fn_dim(&signature, &vec![(length(), Span::new(0, 1)), (time(), Span::new(2, 3))], Span::new(0, 4))
        .unwrap_err();
    assert!(matches!(
        error,
        SignatureError::DimensionMismatch { position: 1, ref expected, ref found, binding: Some(0) }
            if *expected == length() && *found == time()
    ));
    assert_eq!(first_binding_param(&signature, DimVar(0)), Some(0));
    assert_eq!(first_binding_param(&signature, DimVar(1)), None);
}

#[test]
fn surplus_arguments_point_at_the_first_extra_argument() {
    let error = infer_fn_dim(
        &sin_signature(),
        &vec![(angle(), Span::new(4, 5)), (angle(), Span::new(7, 8)), (angle(), Span::new(10, 11))],
        Span::new(0, 12),
    )
    .unwrap_err();
    assert!(matches!(error, SignatureError::WrongArity { expected: 1, got: 3, span } if span == Span::new(7, 8)));
}

#[test]
fn monomials_evaluate_under_bindings() {
    let bindings = HashMap::from([(0u32, length())]);
    let area = length().checked_mul(&length()).unwrap();
    assert_eq!(powered(0, 2, 1).eval(&bindings).unwrap(), area);
    assert_eq!(fixed(time()).eval(&bindings).unwrap(), time());
    assert_eq!(powered(1, 1, 1).eval(&bindings), Err(MonomialEvalError::UnboundVar { var: DimVar(1) }));
    assert_eq!(DimMonomial::var(DimVar(3)).as_bare_var(), Some(DimVar(3)));
    assert_eq!(powered(3, 2, 1).as_bare_var(), None);
}
