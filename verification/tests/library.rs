use graphcal_compiler::assertions::{
    validate_expected_fail, AssertionIndexShape, ExpectedFail, ExpectedFailError, ExpectedFailKeyPart,
};
use graphcal_compiler::builtin_call::{type_rule_for_builtin, AggregationFn, BuiltinFnName, BuiltinTypeRule};
use graphcal_compiler::cycles::{check_resolved, detect_decl_cycles, DagDeclarations};
use graphcal_compiler::dag_cycles::{detect_cross_dag_cycles, DagCalls};
use graphcal_compiler::declared::DeclaredType;
use graphcal_compiler::dimension::{BaseDimId, Dimension, PreludeBaseDimension};
use graphcal_compiler::expression_facts::{
    checked_expression_shape, checked_index_cardinality, ExpressionFactsError, ExpressionShape,
    ExpressionShapeError, IndexCardinalities,
};
use graphcal_compiler::index::{DagId, IndexCardinality, IndexTypeRef, ResolvedName, Symbol};
use graphcal_compiler::nat_form::{NatFormError, NatLinearForm, NatParam};
use graphcal_compiler::rational::Rational;
use graphcal_compiler::rules::{
    binop_rule, infer_display_timezone, BinOp, MismatchReason, Operand, Span, TypeRuleError,
};
use graphcal_compiler::static_index::{Readiness, StaticIndexRequirement, StaticIndexUse};
use graphcal_compiler::types::{InferredIndex, InferredType, TimeScale};

fn length() -> Dimension {
    Dimension::base(BaseDimId::Prelude(PreludeBaseDimension::Length))
}

fn time() -> Dimension {
    Dimension::base(BaseDimId::Prelude(PreludeBaseDimension::Time))
}

fn operand(ty: InferredType, start: usize) -> Operand {
    Operand { ty, span: Span::new(start, start + 1) }
}

fn name(n: u64) -> ResolvedName {
    ResolvedName { owner: DagId(1), name: Symbol(n) }
}

#[test]
fn velocity_is_length_over_time_and_products_commute() {
    let velocity = length().checked_div(&time()).unwrap();
    assert!(!velocity.is_dimensionless());
    let back = velocity.checked_mul(&time()).unwrap();
    assert_eq!(back, length());
    let lt = length().checked_mul(&time()).unwrap();
    let tl = time().checked_mul(&length()).unwrap();
    assert_eq!(lt, tl);
    assert!(length().checked_div(&length()).unwrap().is_dimensionless());
}

#[test]
fn rationals_are_kept_reduced() {
    let half = Rational::new(2, 4).unwrap();
    assert_eq!(half.numerator(), 1);
    assert_eq!(half.denominator(), 2);
    let third = Rational::new(1, 3).unwrap();
    let sum = half.checked_add(&third).unwrap();
    assert_eq!((sum.numerator(), sum.denominator()), (5, 6));
    let negative = Rational::new(-3, 6).unwrap();
    assert_eq!((negative.numerator(), negative.denominator()), (-1, 2));
    assert!(Rational::new(1, 0).is_none());
}

#[test]
fn nat_forms_multiply_only_when_one_side_is_constant() {
    let n = NatLinearForm::from_var(NatParam(0));
    let m = NatLinearForm::from_var(NatParam(1));
    assert_eq!(n.mul(&m), Err(NatFormError::NonLinear));
    let two = NatLinearForm::from_constant(2);
    let doubled = two.mul(&n).unwrap();
    assert!(!doubled.is_constant());
    let five = NatLinearForm::from_constant(2).add(&NatLinearForm::from_constant(3)).unwrap();
    assert_eq!(five.constant_value(), Some(5));
    assert_eq!(NatLinearForm::from_constant(u64::MAX).add(&NatLinearForm::from_constant(1)), Err(NatFormError::Overflow));
}

#[test]
fn index_cardinalities_are_bounded() {
    assert!(IndexCardinality::try_from_u64(0).is_none());
    assert_eq!(IndexCardinality::try_from_u64(1_000_000).unwrap().get(), 1_000_000);
    assert!(IndexCardinality::try_from_u64(1_000_001).is_none());
}

#[test]
fn addition_requires_matching_dimensions() {
    let r = binop_rule(
        Span::new(0, 10),
        BinOp::Add,
        &operand(InferredType::Quantity(length()), 0),
        &operand(InferredType::Quantity(time()), 5),
        None,
    );
    assert!(matches!(
        r,
        Err(TypeRuleError::Mismatch { reason: MismatchReason::AdditionDimensionMismatch, .. })
    ));
    let ok = binop_rule(
        Span::new(0, 10),
        BinOp::Add,
        &operand(InferredType::Quantity(length()), 0),
        &operand(InferredType::Quantity(length()), 5),
        None,
    );
    assert_eq!(ok, Ok(InferredType::Quantity(length())));
}

#[test]
fn division_by_the_same_dimension_is_dimensionless() {
    let r = binop_rule(
        Span::new(0, 10),
        BinOp::Div,
        &operand(InferredType::Quantity(length()), 0),
        &operand(InferredType::Quantity(length()), 5),
        None,
    )
    .unwrap();
    assert_eq!(r, InferredType::Quantity(Dimension::dimensionless()));
}

#[test]
fn multiplication_type_does_not_depend_on_operand_order() {
    let lt = binop_rule(
        Span::new(0, 10),
        BinOp::Mul,
        &operand(InferredType::Quantity(length()), 0),
        &operand(InferredType::Quantity(time()), 5),
        None,
    );
    let tl = binop_rule(
        Span::new(0, 10),
        BinOp::Mul,
        &operand(InferredType::Quantity(time()), 0),
        &operand(InferredType::Quantity(length()), 5),
        None,
    );
    assert!(lt.is_ok());
    assert_eq!(lt, tl);
}

#[test]
fn logical_operators_require_booleans() {
    let r = binop_rule(
        Span::new(0, 10),
        BinOp::And,
        &operand(InferredType::Quantity(length()), 0),
        &operand(InferredType::Bool, 5),
        None,
    );
    assert!(matches!(
        r,
        Err(TypeRuleError::Mismatch { reason: MismatchReason::LogicalOperandNotBool, .. })
    ));
    let comparison = binop_rule(
        Span::new(0, 10),
        BinOp::Lt,
        &operand(InferredType::Quantity(length()), 0),
        &operand(InferredType::Quantity(length()), 5),
        None,
    );
    assert_eq!(comparison, Ok(InferredType::Bool));
}

#[test]
fn display_timezone_checks_the_zone_name() {
    let utc = operand(InferredType::Datetime(TimeScale::UTC), 0);
    assert_eq!(
        infer_display_timezone(&utc, "UTC", Span::new(0, 20)),
        Ok(InferredType::Datetime(TimeScale::UTC))
    );
    assert_eq!(
        infer_display_timezone(&utc, "Not/A_Zone", Span::new(0, 20)),
        Err(TypeRuleError::InvalidTimezone { span: Span::new(0, 20) })
    );
    let quantity = operand(InferredType::Quantity(length()), 3);
    assert_eq!(
        infer_display_timezone(&quantity, "UTC", Span::new(0, 20)),
        Err(TypeRuleError::Mismatch {
            reason: MismatchReason::DisplayTimezoneNotDatetime,
            span: Span::new(3, 4),
        })
    );
}

#[test]
fn declaration_cycles_are_found_through_the_dependency_graph() {
    let names = vec![(name(1), Span::new(0, 1)), (name(2), Span::new(2, 3)), (name(3), Span::new(4, 5))];
    let acyclic = vec![(name(2), vec![name(1)]), (name(3), vec![name(2), name(1)])];
    assert!(check_resolved(&names, &acyclic).is_ok());
    let cyclic = vec![(name(1), vec![name(2)]), (name(2), vec![name(1)])];
    let err = check_resolved(&names, &cyclic).unwrap_err();
    assert!(err.name == name(1) || err.name == name(2));
    assert_ne!(err.name, name(3));
    let unknown_dependency = vec![(name(1), vec![name(9)])];
    assert!(check_resolved(&names, &unknown_dependency).is_ok());
}

#[test]
fn declaration_cycles_are_checked_per_dag_and_per_kind() {
    let values_cycle = DagDeclarations {
        consts: vec![(name(1), Span::new(0, 1))],
        params: vec![(name(2), Span::new(2, 3))],
        nodes: vec![(name(3), Span::new(4, 5))],
        const_deps: vec![],
        runtime_deps: vec![(name(2), vec![name(3)]), (name(3), vec![name(2)])],
    };
    let err = detect_decl_cycles(&vec![values_cycle]).unwrap_err();
    assert!(err.name == name(2) || err.name == name(3));
    let separate = DagDeclarations {
        consts: vec![(name(1), Span::new(0, 1))],
        params: vec![(name(2), Span::new(2, 3))],
        nodes: vec![],
        const_deps: vec![],
        runtime_deps: vec![(name(2), vec![name(1)])],
    };
    assert!(detect_decl_cycles(&vec![separate]).is_ok());
}

fn calls(dag: u64, targets: Vec<u64>) -> DagCalls {
    DagCalls { dag: DagId(dag), targets: targets.into_iter().map(DagId).collect(), span: Span::new(dag as usize, dag as usize + 1) }
}

#[test]
fn inline_dag_call_cycles_are_rejected() {
    assert!(detect_cross_dag_cycles(&vec![calls(1, vec![2]), calls(2, vec![3]), calls(3, vec![])]).is_ok());
    let err = detect_cross_dag_cycles(&vec![calls(1, vec![2]), calls(2, vec![1])]).unwrap_err();
    assert_eq!(err.dag, DagId(1));
    let self_call = detect_cross_dag_cycles(&vec![calls(5, vec![5])]).unwrap_err();
    assert_eq!(self_call.dag, DagId(5));
    assert!(detect_cross_dag_cycles(&vec![calls(1, vec![9])]).is_ok());
}

fn part(index: &IndexTypeRef, variant: u64, start: usize) -> ExpectedFailKeyPart {
    ExpectedFailKeyPart { index: index.clone(), variant: Symbol(variant), span: Span::new(start, start + 1) }
}

#[test]
fn expected_failure_keys_must_fit_the_assertion() {
    let mode = IndexTypeRef::with_owner(DagId(1), Symbol(30));
    let other = IndexTypeRef::with_owner(DagId(1), Symbol(31));
    let indexed = InferredType::Indexed {
        element: Box::new(InferredType::Bool),
        index: InferredIndex::with_owner(DagId(1), Symbol(30)),
    };
    let shape = AssertionIndexShape::from_bool_type(&indexed);
    assert_eq!(shape.rank(), 1);
    let scalar = AssertionIndexShape::scalar();
    let span = Span::new(50, 60);
    assert!(matches!(
        validate_expected_fail(&ExpectedFail::All, &shape, span),
        Err(ExpectedFailError::AllOnIndexed { .. })
    ));
    assert!(validate_expected_fail(&ExpectedFail::All, &scalar, span).is_ok());
    assert!(matches!(
        validate_expected_fail(&ExpectedFail::Variants(vec![vec![part(&mode, 1, 0)]]), &scalar, span),
        Err(ExpectedFailError::NotIndexed { .. })
    ));
    assert!(validate_expected_fail(
        &ExpectedFail::Variants(vec![vec![part(&mode, 1, 0)], vec![part(&mode, 2, 5)]]),
        &shape,
        span
    )
    .is_ok());
    assert!(matches!(
        validate_expected_fail(
            &ExpectedFail::Variants(vec![vec![part(&mode, 1, 0)], vec![part(&mode, 1, 5)]]),
            &shape,
            span
        ),
        Err(ExpectedFailError::DuplicateKey { span: Span { start: 5, end: 6 } })
    ));
    assert!(matches!(
        validate_expected_fail(&ExpectedFail::Variants(vec![vec![part(&other, 1, 0)]]), &shape, span),
        Err(ExpectedFailError::KeyIndexMismatch { .. })
    ));
    assert!(matches!(
        validate_expected_fail(
            &ExpectedFail::Variants(vec![vec![part(&mode, 1, 0), part(&mode, 2, 3)]]),
            &shape,
            span
        ),
        Err(ExpectedFailError::KeyShapeMismatch { expected: 1, found: 2, .. })
    ));
}

#[test]
fn static_positions_are_checked_against_their_axis() {
    let axis = IndexTypeRef::from_cardinality(IndexCardinality::try_from_u64(2).unwrap());
    let requirement = StaticIndexRequirement { operand: 1, axis, position: 1, usage: StaticIndexUse::Selection };
    assert_eq!(requirement.check(IndexCardinality::try_from_u64(2)), Ok(Readiness::Ready));
    assert_eq!(requirement.check(None), Ok(Readiness::Deferred));
    let err = requirement.check(IndexCardinality::try_from_u64(1)).unwrap_err();
    assert_eq!((err.position, err.size), (1, 1));
}

#[test]
fn shapes_follow_the_checked_type() {
    let sizes = IndexCardinalities { entries: vec![(name(40), None)] };
    assert_eq!(checked_expression_shape(&DeclaredType::Int, &sizes), Ok(ExpressionShape::Scalar));
    let three = IndexTypeRef::from_cardinality(IndexCardinality::try_from_u64(3).unwrap());
    let concrete = DeclaredType::Indexed { element: Box::new(DeclaredType::Int), index: three };
    match checked_expression_shape(&concrete, &sizes) {
        Ok(ExpressionShape::Concrete(shape)) => assert_eq!(shape.rank(), 1),
        other => panic!("expected a concrete shape, got {other:?}"),
    }
    let unbound = IndexTypeRef::with_owner(DagId(1), Symbol(40));
    let symbolic = DeclaredType::Indexed { element: Box::new(DeclaredType::Int), index: unbound };
    assert!(matches!(checked_expression_shape(&symbolic, &sizes), Ok(ExpressionShape::Symbolic(_))));
    let unknown = IndexTypeRef::with_owner(DagId(1), Symbol(41));
    assert!(matches!(
        checked_index_cardinality(&sizes, &unknown),
        Err(ExpressionFactsError::MissingIndex(_))
    ));
    let missing = DeclaredType::Indexed { element: Box::new(DeclaredType::Int), index: unknown };
    assert!(matches!(
        checked_expression_shape(&missing, &sizes),
        Err(ExpressionShapeError::Facts(ExpressionFactsError::MissingIndex(_)))
    ));
}

#[test]
fn aggregations_have_their_own_type_rule() {
    assert!(matches!(
        type_rule_for_builtin(BuiltinFnName::Sum),
        BuiltinTypeRule::CollectionAggregation(AggregationFn::Sum)
    ));
    assert!(matches!(type_rule_for_builtin(BuiltinFnName::Sqrt), BuiltinTypeRule::RegistrySignature));
    assert_eq!(BuiltinFnName::Sum.as_str(), "sum");
}
