use graphcal_compiler::assertions::{
    validate_expected_fail, AssertionIndexShape, ExpectedFail, ExpectedFailError, ExpectedFailKeyPart,
};
use graphcal_compiler::bound_nat::{bind_index_nats, NatBindingError};
use graphcal_compiler::const_fold::infer_binop_from_operands;
use graphcal_compiler::cycles::{detect_decl_cycles, CyclicDependency, DagDeclarations};
use graphcal_compiler::tir_check::{check_dimensions_tir, plot_encoding_shapes, DagProgram, EncodingValue, PlotEncodingError, TirCheckError};
use graphcal_compiler::expr_typing::{check_dimensions, Declaration, DimError, ExprTypeError, TypingEnv};
use graphcal_compiler::for_comp::ForBindingIndex;
use graphcal_compiler::hir::{Expr, ExprKind, IndexArg, MapKey};
use graphcal_compiler::index_access::AxisDef;
use graphcal_compiler::dag_cycles::{detect_cross_dag_cycles, CyclicDagCall, DagCalls};
use graphcal_compiler::declared::{types_match, DeclaredType};
use graphcal_compiler::fields::{
    constructor_fields_rule, pattern_fields_rule, ConstructorFieldsError, PatternFieldError,
};
use graphcal_compiler::keys::{
    check_map_literal_keys, indexed_over, map_literal_type, MapKeyError, MapLiteralTypeError,
};
use graphcal_compiler::materialized_shape::{MaterializedShape, MaterializedShapeError, MAX_EAGER_CARDINALITY};
use graphcal_compiler::dimension::{BaseDimId, Dimension, PreludeBaseDimension};
use graphcal_compiler::domain_bounds::{
    check_bound_type, expected_bound_from_inferred, DomainBoundError, ExpectedBound,
};
use graphcal_compiler::index::{
    DagId, IndexCardinality, IndexTypeRef, NonEmpty, ResolvedName, StructTypeRef, Symbol,
};
use graphcal_compiler::linear_algebra::{
    infer_linear_algebra_type, LinearAlgebraFn, LinearAlgebraTypeError,
};
use graphcal_compiler::nat_form::{NatLinearForm, NatParam};
use graphcal_compiler::rational::Rational;
use graphcal_compiler::rules::{
    binop_rule, convert_rule, if_rule, time_scale_conversion_rule, unary_rule, BinOp, ExponentReplacement, MismatchReason, Operand,
    PowerExponent, Span, TypeRuleError, UnaryOp,
};
use graphcal_compiler::static_index::{Readiness, StaticIndexError, StaticIndexRequirement, StaticIndexUse};
use graphcal_compiler::types::{type_equal, InferredIndex, InferredStructType, InferredType, TimeScale};
use std::collections::HashMap;

fn module() -> DagId {
    DagId(1)
}

fn base(p: PreludeBaseDimension) -> Dimension {
    Dimension::base(BaseDimId::Prelude(p))
}

fn length() -> Dimension {
    base(PreludeBaseDimension::Length)
}

fn time() -> Dimension {
    base(PreludeBaseDimension::Time)
}

fn mass() -> Dimension {
    base(PreludeBaseDimension::Mass)
}

fn velocity() -> Dimension {
    length().checked_div(&time()).unwrap()
}

fn area() -> Dimension {
    length().checked_mul(&length()).unwrap()
}

fn dimensionless() -> InferredType {
    InferredType::Quantity(Dimension::dimensionless())
}

fn quantity(d: Dimension) -> InferredType {
    InferredType::Quantity(d)
}

fn operand(ty: InferredType, start: usize) -> Operand {
    Operand { ty, span: Span::new(start, start + 1) }
}

fn int_literal(id: u64, start: usize, value: i64) -> Expr {
    Expr::new(id, Span::new(start, start + 1), ExprKind::Integer(value), Vec::new())
}

fn binop(op: BinOp, lhs: InferredType, rhs: InferredType) -> Result<InferredType, TypeRuleError> {
    binop_rule(Span::new(0, 20), op, &operand(lhs, 0), &operand(rhs, 10), None)
}

fn exact(numerator: i64, denominator: i64) -> PowerExponent {
    PowerExponent::Exact(Rational::new(numerator, denominator).unwrap())
}

fn float_syntax(numerator: i64, denominator: i64) -> PowerExponent {
    PowerExponent::FloatSyntax { exact: Rational::new(numerator, denominator) }
}

fn power(lhs: InferredType, exponent: PowerExponent, rhs: InferredType) -> Result<InferredType, TypeRuleError> {
    binop(BinOp::Pow(exponent), lhs, rhs)
}

fn declared_index(name: u64) -> IndexTypeRef {
    IndexTypeRef::with_owner(module(), Symbol(name))
}

fn named_axis(name: u64) -> InferredIndex {
    InferredIndex::with_owner(module(), Symbol(name))
}

fn fin(size: u64) -> InferredIndex {
    InferredIndex::from_ref(IndexTypeRef::from_cardinality(IndexCardinality::try_from_u64(size).unwrap()))
}

fn indexed(element: InferredType, index: InferredIndex) -> InferredType {
    InferredType::Indexed { element: Box::new(element), index }
}

fn matrix(element: InferredType, rows: InferredIndex, columns: InferredIndex) -> InferredType {
    indexed(indexed(element, columns), rows)
}

fn no_cardinality(_index: &InferredIndex) -> Option<usize> {
    None
}

fn fin_cardinality(index: &InferredIndex) -> Option<usize> {
    index.concrete_nat_range().map(|c| c.get())
}

fn key_part(index: &IndexTypeRef, variant: u64, start: usize) -> ExpectedFailKeyPart {
    ExpectedFailKeyPart { index: index.clone(), variant: Symbol(variant), span: Span::new(start, start + 1) }
}

fn decl(name: u64) -> ResolvedName {
    ResolvedName { owner: module(), name: Symbol(name) }
}

fn spanned(name: u64) -> (ResolvedName, Span) {
    (decl(name), Span::new(name as usize, name as usize + 1))
}

fn calls(dag: u64, targets: Vec<u64>) -> DagCalls {
    DagCalls {
        dag: DagId(dag),
        targets: targets.into_iter().map(DagId).collect(),
        span: Span::new(dag as usize, dag as usize + 1),
    }
}

// Whole programs: `param x: Dimensionless = 1.0;` followed by one
// declaration `y` with the given annotation and body, checked with the
// units `m`, `s` and `kg` in scope.
fn unit_m() -> ResolvedName {
    decl(901)
}

fn unit_s() -> ResolvedName {
    decl(902)
}

fn unit_kg() -> ResolvedName {
    decl(903)
}

fn program_env() -> TypingEnv {
    TypingEnv {
        locals: Vec::new(),
        decls: vec![(decl(1), DeclaredType::Quantity(Dimension::dimensionless()))],
        units: vec![(unit_m(), length()), (unit_s(), time()), (unit_kg(), mass())],
        variants: Vec::new(),
        axis_defs: Vec::new(),
        constructors: Vec::new(),
        index_variants: Vec::new(),
        signatures: Vec::new(),
        dags: Vec::new(),
    }
}

fn lit(start: usize, unit: Option<ResolvedName>) -> Expr {
    let kind = match unit {
        Some(u) => ExprKind::QuantityLiteral { unit: vec![u] },
        None => ExprKind::Number,
    };
    Expr::new(start as u64, Span::new(start, start + 1), kind, Vec::new())
}

fn flag(start: usize) -> Expr {
    Expr::new(start as u64, Span::new(start, start + 1), ExprKind::Bool(true), Vec::new())
}

fn x_ref(start: usize) -> Expr {
    Expr::new(start as u64, Span::new(start, start + 1), ExprKind::GraphRef(decl(1)), Vec::new())
}

fn bin(op: BinOp, lhs: Expr, rhs: Expr) -> Expr {
    let span = Span::new(lhs.span.start, rhs.span.end);
    Expr::new(1000 + lhs.span.start as u64, span, ExprKind::BinOp(op), vec![lhs, rhs])
}

fn cond(c: Expr, a: Expr, b: Expr) -> Expr {
    let span = Span::new(c.span.start, b.span.end);
    Expr::new(2000 + c.span.start as u64, span, ExprKind::If, vec![c, a, b])
}

fn program(annotation: DeclaredType, body: Expr) -> Result<(), DimError> {
    let decls = vec![
        Declaration {
            name: decl(1),
            annotation: DeclaredType::Quantity(Dimension::dimensionless()),
            annotation_span: Span::new(0, 1),
            body: Some(lit(2, None)),
        },
        Declaration { name: decl(2), annotation, annotation_span: Span::new(3, 4), body: Some(body) },
    ];
    check_dimensions(&decls, &program_env())
}

fn rule_error(reason: MismatchReason, start: usize) -> Result<(), DimError> {
    Err(DimError::Expr {
        name: decl(2),
        error: ExprTypeError::Rule(TypeRuleError::Mismatch { reason, span: Span::new(start, start + 1) }),
    })
}

#[test]
fn check_dimensionless_arithmetic() {
    let y = binop(BinOp::Add, dimensionless(), dimensionless()).unwrap();
    assert_eq!(y, dimensionless());
    assert!(types_match(&DeclaredType::Quantity(Dimension::dimensionless()), &y));
    // node y: Dimensionless = @x + 2.0;
    assert_eq!(program(DeclaredType::Quantity(Dimension::dimensionless()), bin(BinOp::Add, x_ref(10), lit(14, None))), Ok(()));
}

#[test]
fn check_velocity_from_division() {
    let speed = binop(BinOp::Div, quantity(length()), quantity(time())).unwrap();
    assert_eq!(speed, quantity(velocity()));
    assert!(types_match(&DeclaredType::Quantity(velocity()), &speed));
    // node v: Velocity = 1.0 m / 1.0 s;
    assert_eq!(program(DeclaredType::Quantity(velocity()), bin(BinOp::Div, lit(10, Some(unit_m())), lit(14, Some(unit_s())))), Ok(()));
}

#[test]
fn check_add_dimension_mismatch() {
    assert_eq!(
        binop(BinOp::Add, quantity(length()), quantity(time())),
        Err(TypeRuleError::Mismatch {
            reason: MismatchReason::AdditionDimensionMismatch,
            span: Span::new(10, 11),
        })
    );
    // node y: Length = 1.0 m + 1.0 s;
    assert_eq!(
        program(DeclaredType::Quantity(length()), bin(BinOp::Add, lit(10, Some(unit_m())), lit(14, Some(unit_s())))),
        rule_error(MismatchReason::AdditionDimensionMismatch, 14)
    );
}

#[test]
fn check_annotation_mismatch() {
    assert!(!types_match(&DeclaredType::Quantity(time()), &quantity(length())));
    assert!(types_match(&DeclaredType::Quantity(length()), &quantity(length())));
    // node y: Time = 1.0 m;
    assert_eq!(
        program(DeclaredType::Quantity(time()), lit(10, Some(unit_m()))),
        Err(DimError::AnnotationMismatch { name: decl(2), span: Span::new(3, 4), inferred: quantity(length()) })
    );
}

#[test]
fn check_expected_fail_rejects_duplicate_key() {
    let mode = declared_index(10);
    let shape = AssertionIndexShape::from_bool_type(&indexed(InferredType::Bool, named_axis(10)));
    let keys = ExpectedFail::Variants(vec![vec![key_part(&mode, 1, 20)], vec![key_part(&mode, 1, 30)]]);
    assert!(matches!(
        validate_expected_fail(&keys, &shape, Span::new(0, 40)),
        Err(ExpectedFailError::DuplicateKey { .. })
    ));
}

#[test]
fn check_expected_fail_rejects_foreign_index_key() {
    let other = declared_index(11);
    let shape = AssertionIndexShape::from_bool_type(&indexed(InferredType::Bool, named_axis(10)));
    let keys = ExpectedFail::Variants(vec![vec![key_part(&other, 1, 20)]]);
    assert!(matches!(
        validate_expected_fail(&keys, &shape, Span::new(0, 40)),
        Err(ExpectedFailError::KeyIndexMismatch { .. })
    ));
}

#[test]
fn check_expected_fail_rejects_partial_tuple_key() {
    let mode = declared_index(10);
    let body = matrix(InferredType::Bool, named_axis(10), named_axis(12));
    let shape = AssertionIndexShape::from_bool_type(&body);
    assert_eq!(shape.rank(), 2);
    let keys = ExpectedFail::Variants(vec![vec![key_part(&mode, 1, 20)]]);
    assert!(matches!(
        validate_expected_fail(&keys, &shape, Span::new(0, 40)),
        Err(ExpectedFailError::KeyShapeMismatch { expected: 2, found: 1, .. })
    ));
}

#[test]
fn check_expected_fail_rejects_variant_key_on_unindexed_assertion() {
    let mode = declared_index(10);
    let comparison = binop(BinOp::Gt, dimensionless(), dimensionless()).unwrap();
    let shape = AssertionIndexShape::from_bool_type(&comparison);
    let keys = ExpectedFail::Variants(vec![vec![key_part(&mode, 1, 20)]]);
    assert!(matches!(
        validate_expected_fail(&keys, &shape, Span::new(0, 40)),
        Err(ExpectedFailError::NotIndexed { .. })
    ));
}

#[test]
fn check_expected_fail_rejects_blanket_on_indexed_graph_ref() {
    let flags = indexed(InferredType::Bool, named_axis(10));
    let shape = AssertionIndexShape::from_bool_type(&flags);
    assert!(matches!(
        validate_expected_fail(&ExpectedFail::All, &shape, Span::new(0, 40)),
        Err(ExpectedFailError::AllOnIndexed { .. })
    ));
}

#[test]
fn check_if_branches_same_dim() {
    let condition = binop(BinOp::Gt, dimensionless(), dimensionless()).unwrap();
    let y = if_rule(
        &operand(condition, 0),
        &operand(dimensionless(), 10),
        &operand(dimensionless(), 20),
    )
    .unwrap();
    assert!(types_match(&DeclaredType::Quantity(Dimension::dimensionless()), &y));
    // node y: Dimensionless = if @x > 0.0 { 1.0 } else { 2.0 };
    assert_eq!(
        program(
            DeclaredType::Quantity(Dimension::dimensionless()),
            cond(bin(BinOp::Gt, x_ref(10), lit(14, None)), lit(20, None), lit(30, None)),
        ),
        Ok(())
    );
}

#[test]
fn check_if_branches_different_dim() {
    assert_eq!(
        if_rule(
            &operand(InferredType::Bool, 0),
            &operand(quantity(length()), 10),
            &operand(dimensionless(), 20),
        ),
        Err(TypeRuleError::Mismatch { reason: MismatchReason::IfBranchMismatch, span: Span::new(20, 21) })
    );
    // node y: Length = if true { 1.0 m } else { 2.0 };
    assert_eq!(
        program(DeclaredType::Quantity(length()), cond(flag(10), lit(20, Some(unit_m())), lit(30, None))),
        rule_error(MismatchReason::IfBranchMismatch, 30)
    );
}

#[test]
fn check_multiplication_creates_new_dim() {
    let acceleration = length().checked_div(&time().checked_mul(&time()).unwrap()).unwrap();
    let force = mass().checked_mul(&acceleration).unwrap();
    let product = binop(BinOp::Mul, quantity(mass()), quantity(acceleration)).unwrap();
    assert!(types_match(&DeclaredType::Quantity(force.clone()), &product));
    // node f: Force = 1.0 kg * (1.0 m / (1.0 s * 1.0 s));
    let accel = bin(BinOp::Div, lit(20, Some(unit_m())), bin(BinOp::Mul, lit(30, Some(unit_s())), lit(40, Some(unit_s()))));
    assert_eq!(program(DeclaredType::Quantity(force), bin(BinOp::Mul, lit(10, Some(unit_kg())), accel)), Ok(()));
}

#[test]
fn check_power_with_literal() {
    let squared = power(quantity(length()), exact(2, 1), InferredType::Int).unwrap();
    assert!(types_match(&DeclaredType::Quantity(area()), &squared));
}

#[test]
fn check_linear_algebra_preserves_axes_and_dimensions() {
    let a = matrix(quantity(length()), fin(2), fin(3));
    let b = matrix(quantity(time()), fin(3), fin(4));
    let length_time = length().checked_mul(&time()).unwrap();
    assert_eq!(
        infer_linear_algebra_type(LinearAlgebraFn::Matmul, &vec![a, b], no_cardinality),
        Ok(matrix(quantity(length_time), fin(2), fin(4)))
    );
    let a = matrix(quantity(length()), fin(2), fin(3));
    assert_eq!(
        infer_linear_algebra_type(LinearAlgebraFn::Transpose, &vec![a], no_cardinality),
        Ok(matrix(quantity(length()), fin(3), fin(2)))
    );
}

#[test]
fn check_algorithmic_linear_algebra_dimensions() {
    let a = || matrix(quantity(length()), fin(2), fin(2));
    let b = indexed(quantity(area()), fin(2));
    assert_eq!(
        infer_linear_algebra_type(LinearAlgebraFn::Solve, &vec![a(), b], no_cardinality),
        Ok(indexed(quantity(length()), fin(2)))
    );
    let inverse_length = Dimension::dimensionless().checked_div(&length()).unwrap();
    assert_eq!(
        infer_linear_algebra_type(LinearAlgebraFn::Inverse, &vec![a()], no_cardinality),
        Ok(matrix(quantity(inverse_length), fin(2), fin(2)))
    );
    assert_eq!(
        infer_linear_algebra_type(LinearAlgebraFn::Determinant, &vec![a()], fin_cardinality),
        Ok(quantity(area()))
    );
    assert_eq!(
        infer_linear_algebra_type(LinearAlgebraFn::Determinant, &vec![a()], no_cardinality),
        Err(LinearAlgebraTypeError::ConcreteCardinalityRequired { argument: 0 })
    );
}

#[test]
fn check_linear_algebra_rejects_distinct_contraction_axes() {
    let a = indexed(dimensionless(), named_axis(20));
    let b = indexed(dimensionless(), named_axis(21));
    assert!(matches!(
        infer_linear_algebra_type(LinearAlgebraFn::Dot, &vec![a, b], no_cardinality),
        Err(LinearAlgebraTypeError::AxisMismatch { argument: 1, .. })
    ));
}

#[test]
fn check_cross_requires_three_component_axis() {
    let a = indexed(dimensionless(), fin(2));
    let b = indexed(dimensionless(), fin(2));
    assert_eq!(
        infer_linear_algebra_type(LinearAlgebraFn::Cross, &vec![a, b], fin_cardinality),
        Err(LinearAlgebraTypeError::CardinalityMismatch { argument: 0, expected: 3, found: Some(2) })
    );
}

#[test]
fn check_linear_algebra_rejects_non_quantity_elements() {
    let flags = indexed(InferredType::Bool, fin(2));
    assert_eq!(
        infer_linear_algebra_type(LinearAlgebraFn::Norm, &vec![flags], no_cardinality),
        Err(LinearAlgebraTypeError::ExpectedIndexedQuantity { argument: 0, rank: 1 })
    );
}

#[test]
fn linear_algebra_functions_have_fixed_arity() {
    assert_eq!(
        infer_linear_algebra_type(LinearAlgebraFn::Dot, &vec![dimensionless()], no_cardinality),
        Err(LinearAlgebraTypeError::WrongArity { expected: 2, found: 1 })
    );
}

#[test]
fn check_comparison_rejects_indexed_operands_for_every_operator() {
    let values = || indexed(quantity(length()), named_axis(30));
    for op in [BinOp::Eq, BinOp::Ne, BinOp::Lt, BinOp::Le, BinOp::Gt, BinOp::Ge] {
        assert_eq!(
            binop(op, values(), quantity(length())),
            Err(TypeRuleError::IndexedComparisonOperand { span: Span::new(0, 1) })
        );
        assert_eq!(
            binop(op, quantity(length()), values()),
            Err(TypeRuleError::IndexedComparisonOperand { span: Span::new(10, 11) })
        );
        assert_eq!(
            binop(op, values(), values()),
            Err(TypeRuleError::IndexedComparisonOperand { span: Span::new(0, 1) })
        );
    }
    // node values: Length[Case] = ...;  node y: Bool = <values and 1.0 m compared, either way round>;
    let mut env = program_env();
    env.decls.push((
        decl(3),
        DeclaredType::Indexed { element: Box::new(DeclaredType::Quantity(length())), index: declared_index(30) },
    ));
    let values_ref = |start: usize| Expr::new(start as u64, Span::new(start, start + 1), ExprKind::GraphRef(decl(3)), Vec::new());
    for op in [BinOp::Eq, BinOp::Ne, BinOp::Lt, BinOp::Le, BinOp::Gt, BinOp::Ge] {
        for (body, at) in [
            (bin(op, values_ref(10), lit(14, Some(unit_m()))), 10),
            (bin(op, lit(10, Some(unit_m())), values_ref(14)), 14),
            (bin(op, values_ref(10), values_ref(14)), 10),
        ] {
            let decls = vec![Declaration { name: decl(2), annotation: DeclaredType::Bool, annotation_span: Span::new(3, 4), body: Some(body) }];
            assert_eq!(
                check_dimensions(&decls, &env),
                Err(DimError::Expr {
                    name: decl(2),
                    error: ExprTypeError::IndexedComparison { found: values(), span: Span::new(at, at + 1) },
                })
            );
        }
    }
}

#[test]
fn check_explicit_for_comparison_of_indexed_values() {
    assert_eq!(binop(BinOp::Eq, quantity(length()), quantity(length())), Ok(InferredType::Bool));
    assert_eq!(binop(BinOp::Lt, quantity(length()), quantity(length())), Ok(InferredType::Bool));
}

#[test]
fn check_comparison_dimension_mismatch() {
    assert_eq!(
        binop(BinOp::Gt, quantity(length()), quantity(time())),
        Err(TypeRuleError::Mismatch {
            reason: MismatchReason::ComparisonDimensionMismatch,
            span: Span::new(10, 11),
        })
    );
    // node y: Bool = 1.0 m > 1.0 s;
    assert_eq!(
        program(DeclaredType::Bool, bin(BinOp::Gt, lit(10, Some(unit_m())), lit(14, Some(unit_s())))),
        rule_error(MismatchReason::ComparisonDimensionMismatch, 14)
    );
}

#[test]
fn check_boolean_and_lhs_dimensioned() {
    assert_eq!(
        binop(BinOp::And, quantity(length()), InferredType::Bool),
        Err(TypeRuleError::Mismatch { reason: MismatchReason::LogicalOperandNotBool, span: Span::new(0, 1) })
    );
    // node y: Bool = 1.0 m && true;
    assert_eq!(
        program(DeclaredType::Bool, bin(BinOp::And, lit(10, Some(unit_m())), flag(14))),
        rule_error(MismatchReason::LogicalOperandNotBool, 10)
    );
}

#[test]
fn check_boolean_or_rhs_dimensioned() {
    assert_eq!(
        binop(BinOp::Or, InferredType::Bool, quantity(length())),
        Err(TypeRuleError::Mismatch { reason: MismatchReason::LogicalOperandNotBool, span: Span::new(10, 11) })
    );
    // node y: Bool = true || 1.0 m;
    assert_eq!(
        program(DeclaredType::Bool, bin(BinOp::Or, flag(10), lit(14, Some(unit_m())))),
        rule_error(MismatchReason::LogicalOperandNotBool, 14)
    );
}

#[test]
fn check_power_half_exponent() {
    assert_eq!(power(dimensionless(), float_syntax(1, 2), dimensionless()), Ok(dimensionless()));
}

#[test]
fn check_power_runtime_exponent_dimensioned_base() {
    assert_eq!(
        power(quantity(length()), PowerExponent::Runtime, dimensionless()),
        Err(TypeRuleError::RuntimeExponentForDimensionedBase { span: Span::new(10, 11) })
    );
}

#[test]
fn check_power_dimensionless_base_non_literal_exponent() {
    assert_eq!(power(dimensionless(), PowerExponent::Runtime, dimensionless()), Ok(dimensionless()));
}

#[test]
fn check_power_float_syntax_on_dimensioned_base_has_exact_replacement() {
    assert_eq!(
        power(quantity(length()), float_syntax(1, 4), dimensionless()),
        Err(TypeRuleError::FloatPowerExponent {
            replacement: Some(ExponentReplacement::Fraction(1, 4)),
            span: Span::new(10, 11),
        })
    );
}

#[test]
fn check_power_integral_float_syntax_suggests_integer() {
    assert_eq!(
        power(quantity(length()), float_syntax(2, 1), dimensionless()),
        Err(TypeRuleError::FloatPowerExponent {
            replacement: Some(ExponentReplacement::Integer(2)),
            span: Span::new(10, 11),
        })
    );
}

#[test]
fn check_power_dimensioned_exponent_uses_d001() {
    assert_eq!(
        power(dimensionless(), PowerExponent::Runtime, quantity(length())),
        Err(TypeRuleError::Mismatch {
            reason: MismatchReason::ExponentNotDimensionless,
            span: Span::new(10, 11),
        })
    );
}

#[test]
fn check_power_arbitrary_exact_rational_exponent() {
    let three_halves = length().pow(Rational::new(3, 2).unwrap()).unwrap();
    let y = power(quantity(length()), exact(3, 2), dimensionless()).unwrap();
    assert!(types_match(&DeclaredType::Quantity(three_halves), &y));
}

#[test]
fn check_power_exact_zero_exponent_is_valid() {
    let y = power(quantity(length()), exact(0, 1), InferredType::Int).unwrap();
    assert!(types_match(&DeclaredType::Quantity(Dimension::dimensionless()), &y));
}

#[test]
fn check_power_dimension_rational_overflow_uses_d010() {
    assert_eq!(
        power(quantity(length()), exact(1, 2_147_483_648), dimensionless()),
        Err(TypeRuleError::DimensionOverflow { span: Span::new(10, 11) })
    );
}

#[test]
fn check_power_signed_integer_literal_exponent() {
    let inverse_length_squared = length().powi(-2).unwrap();
    let y = power(quantity(length()), exact(-2, 1), InferredType::Int).unwrap();
    assert!(types_match(&DeclaredType::Quantity(inverse_length_squared), &y));
}

#[test]
fn check_power_signed_float_literal_exponent() {
    assert_eq!(power(dimensionless(), float_syntax(-2, 1), dimensionless()), Ok(dimensionless()));
}

#[test]
fn check_power_int_chain_constant_folds() {
    // `2 ^ 3 ^ 2` is `2 ^ (3 ^ 2)`; the right operand folds to 9.
    let inner_expr = Expr::new(
        2,
        Span::new(4, 9),
        ExprKind::BinOp(BinOp::Pow(exact(2, 1))),
        vec![int_literal(3, 4, 3), int_literal(4, 8, 2)],
    );
    let inner = infer_binop_from_operands(
        Span::new(4, 9),
        BinOp::Pow(exact(2, 1)),
        &operand(InferredType::Int, 4),
        &operand(InferredType::Int, 8),
        &int_literal(4, 8, 2),
    )
    .unwrap();
    assert_eq!(inner, InferredType::Int);
    let outer = infer_binop_from_operands(
        Span::new(0, 9),
        BinOp::Pow(PowerExponent::Runtime),
        &operand(InferredType::Int, 0),
        &operand(inner, 4),
        &inner_expr,
    );
    assert_eq!(outer, Ok(InferredType::Int));
}

#[test]
fn check_power_int_chain_with_negative_constant_exponent_rejected() {
    // `2 ^ (3 - 5)`: the exponent folds to -2.
    let difference_expr = Expr::new(
        2,
        Span::new(4, 11),
        ExprKind::BinOp(BinOp::Sub),
        vec![int_literal(3, 5, 3), int_literal(4, 9, 5)],
    );
    let difference = binop(BinOp::Sub, InferredType::Int, InferredType::Int).unwrap();
    assert_eq!(
        infer_binop_from_operands(
            Span::new(0, 12),
            BinOp::Pow(PowerExponent::Runtime),
            &operand(InferredType::Int, 0),
            &operand(difference, 4),
            &difference_expr,
        ),
        Err(TypeRuleError::Mismatch { reason: MismatchReason::NegativeIntExponent, span: Span::new(4, 5) })
    );
}

#[test]
fn check_power_int_signed_negative_literal_exponent_rejected_with_int_message() {
    assert_eq!(
        power(InferredType::Int, exact(-2, 1), InferredType::Int),
        Err(TypeRuleError::Mismatch { reason: MismatchReason::NegativeIntExponent, span: Span::new(10, 11) })
    );
}

#[test]
fn check_if_condition_dimensioned() {
    assert_eq!(
        if_rule(
            &operand(quantity(length()), 0),
            &operand(dimensionless(), 10),
            &operand(dimensionless(), 20),
        ),
        Err(TypeRuleError::Mismatch { reason: MismatchReason::IfConditionNotBool, span: Span::new(0, 1) })
    );
    // node y: Dimensionless = if 1.0 m { 1.0 } else { 2.0 };
    assert_eq!(
        program(DeclaredType::Quantity(Dimension::dimensionless()), cond(lit(10, Some(unit_m())), lit(20, None), lit(30, None))),
        rule_error(MismatchReason::IfConditionNotBool, 10)
    );
}

#[test]
fn check_types_match_struct_vs_quantity() {
    let orbit = StructTypeRef::with_owner(module(), Symbol(40));
    assert!(!types_match(&DeclaredType::Struct(orbit, Vec::new()), &dimensionless()));
    assert!(types_match(
        &DeclaredType::Struct(orbit, Vec::new()),
        &InferredType::Struct(InferredStructType::from_ref(orbit), Vec::new())
    ));
}

#[test]
fn check_finite_index_constant_index_out_of_bounds() {
    let requirement = StaticIndexRequirement {
        operand: 7,
        axis: IndexTypeRef::from_cardinality(IndexCardinality::try_from_u64(3).unwrap()),
        position: 5,
        usage: StaticIndexUse::Selection,
    };
    let error = requirement.check(IndexCardinality::try_from_u64(3)).unwrap_err();
    assert_eq!(error, StaticIndexError { usage: StaticIndexUse::Selection, position: 5, size: 3 });
    assert_eq!(error.usage.describe(), "index");
}

#[test]
fn negation_rejects_fin_index_variable() {
    let i = InferredType::Fin(NatLinearForm::from_constant(3));
    assert_eq!(
        unary_rule(UnaryOp::Neg, &operand(i, 5)),
        Err(TypeRuleError::Mismatch { reason: MismatchReason::NegateFin, span: Span::new(5, 6) })
    );
}

#[test]
fn negation_rejects_datetime() {
    assert_eq!(
        unary_rule(UnaryOp::Neg, &operand(InferredType::Datetime(TimeScale::UTC), 5)),
        Err(TypeRuleError::Mismatch { reason: MismatchReason::NegateNonNumeric, span: Span::new(5, 6) })
    );
}

#[test]
fn negating_a_bool_is_rejected() {
    let comparison = binop(BinOp::Gt, dimensionless(), dimensionless()).unwrap();
    assert_eq!(
        unary_rule(UnaryOp::Neg, &operand(comparison, 16)),
        Err(TypeRuleError::Mismatch { reason: MismatchReason::NegateNonNumeric, span: Span::new(16, 17) })
    );
}

#[test]
fn fin_comparison_same_range() {
    let i = || InferredType::Fin(NatLinearForm::from_constant(3));
    assert_eq!(binop(BinOp::Eq, i(), i()), Ok(InferredType::Bool));
    let y = if_rule(
        &operand(InferredType::Bool, 0),
        &operand(dimensionless(), 10),
        &operand(dimensionless(), 20),
    );
    assert_eq!(y, Ok(dimensionless()));
}

#[test]
fn cycle_detection_uses_semantic_dependencies() {
    let dag = DagDeclarations {
        consts: vec![spanned(1), spanned(2)],
        params: vec![],
        nodes: vec![spanned(3), spanned(4)],
        const_deps: vec![(decl(1), vec![]), (decl(2), vec![decl(1)])],
        runtime_deps: vec![(decl(3), vec![]), (decl(4), vec![decl(3)])],
    };
    assert!(detect_decl_cycles(&vec![dag]).is_ok());
}

#[test]
fn inline_dag_self_recursive_cycle_detected() {
    let root = calls(1, vec![2]);
    let loop_self = calls(2, vec![2]);
    assert_eq!(detect_cross_dag_cycles(&vec![root, loop_self]).unwrap_err().dag, DagId(2));
}

#[test]
fn inline_dag_mutual_recursion_cycle_detected() {
    let root = calls(1, vec![2]);
    let a = calls(2, vec![3]);
    let b = calls(3, vec![2]);
    let cyclic = detect_cross_dag_cycles(&vec![root, a, b]).unwrap_err();
    assert!(cyclic.dag == DagId(2) || cyclic.dag == DagId(3));
}

#[test]
fn inline_dag_body_forward_reference_resolves() {
    let forward = DagDeclarations {
        consts: vec![],
        params: vec![spanned(1)],
        nodes: vec![spanned(2), spanned(3)],
        const_deps: vec![],
        runtime_deps: vec![(decl(2), vec![decl(3)]), (decl(3), vec![decl(1)])],
    };
    assert!(detect_decl_cycles(&vec![forward]).is_ok());
}

#[test]
fn exact_exponent_beyond_dimension_model_uses_d010() {
    for exponent in [4_294_967_296, -4_294_967_296] {
        assert_eq!(
            power(quantity(length()), exact(exponent, 1), InferredType::Int),
            Err(TypeRuleError::DimensionOverflow { span: Span::new(10, 11) })
        );
    }
}

#[test]
fn out_of_range_float_exponent_still_uses_float_syntax_diagnostic() {
    assert_eq!(
        power(quantity(length()), float_syntax(4_294_967_296, 1), dimensionless()),
        Err(TypeRuleError::FloatPowerExponent { replacement: None, span: Span::new(10, 11) })
    );
}

fn expected_for(target: InferredType) -> ExpectedBound {
    expected_bound_from_inferred(&target).unwrap()
}

#[test]
fn domain_bound_quantity_literal_matches() {
    let expected = expected_for(quantity(mass()));
    assert_eq!(check_bound_type(&quantity(mass()), &expected), Ok(()));
}

#[test]
fn domain_bound_dimensionless_accepts_int() {
    let expected = expected_for(dimensionless());
    assert_eq!(check_bound_type(&InferredType::Int, &expected), Ok(()));
}

#[test]
fn domain_bound_bare_number_on_dimensioned_rejected() {
    let expected = expected_for(quantity(mass()));
    assert_eq!(check_bound_type(&dimensionless(), &expected), Err(DomainBoundError::DimensionMismatch));
    assert_eq!(check_bound_type(&quantity(mass()), &expected), Ok(()));
}

#[test]
fn domain_bound_bare_int_on_dimensioned_rejected() {
    let expected = expected_for(quantity(mass()));
    assert_eq!(check_bound_type(&InferredType::Int, &expected), Err(DomainBoundError::DimensionMismatch));
}

#[test]
fn domain_bound_division_creates_wrong_dimension() {
    let bound = binop(BinOp::Div, quantity(length()), quantity(time())).unwrap();
    let expected = expected_for(quantity(length()));
    assert_eq!(check_bound_type(&bound, &expected), Err(DomainBoundError::DimensionMismatch));
}

#[test]
fn domain_bound_division_inverse_dimension() {
    let bound = binop(BinOp::Div, dimensionless(), quantity(mass())).unwrap();
    let expected = expected_for(quantity(mass()));
    assert_eq!(check_bound_type(&bound, &expected), Err(DomainBoundError::DimensionMismatch));
}

#[test]
fn domain_bound_addition_unit_mismatch_in_bound() {
    assert!(matches!(
        binop(BinOp::Add, quantity(length()), quantity(time())),
        Err(TypeRuleError::Mismatch { reason: MismatchReason::AdditionDimensionMismatch, .. })
    ));
}

#[test]
fn domain_bound_multiplication_creates_correct_dimension() {
    let acceleration = length().checked_div(&time().checked_mul(&time()).unwrap()).unwrap();
    let force = mass().checked_mul(&acceleration).unwrap();
    let bound = binop(BinOp::Mul, quantity(mass()), quantity(acceleration)).unwrap();
    let expected = expected_for(quantity(force));
    assert_eq!(check_bound_type(&bound, &expected), Ok(()));
}

#[test]
fn domain_bound_indexed_dimension_checked() {
    let expected = expected_for(indexed(quantity(velocity()), named_axis(50)));
    assert_eq!(check_bound_type(&quantity(length()), &expected), Err(DomainBoundError::DimensionMismatch));
    assert_eq!(check_bound_type(&quantity(velocity()), &expected), Ok(()));
}

#[test]
fn int_domain_bound_int_literal_accepted() {
    let expected = expected_for(InferredType::Int);
    assert_eq!(check_bound_type(&InferredType::Int, &expected), Ok(()));
}

#[test]
fn int_domain_bound_dimensionless_quantity_rejected() {
    let expected = expected_for(InferredType::Int);
    assert_eq!(check_bound_type(&dimensionless(), &expected), Err(DomainBoundError::IntTypeMismatch));
}

#[test]
fn int_domain_bound_with_unit_rejected() {
    let expected = expected_for(InferredType::Int);
    assert_eq!(check_bound_type(&quantity(mass()), &expected), Err(DomainBoundError::IntTypeMismatch));
}

#[test]
fn int_domain_bound_arithmetic_with_unit_rejected() {
    let bound = binop(BinOp::Div, quantity(length()), quantity(time())).unwrap();
    let expected = expected_for(InferredType::Int);
    assert_eq!(check_bound_type(&bound, &expected), Err(DomainBoundError::IntTypeMismatch));
}

#[test]
fn datetime_domain_bounds_accept_the_exact_target_scale() {
    let utc = expected_for(InferredType::Datetime(TimeScale::UTC));
    assert_eq!(check_bound_type(&InferredType::Datetime(TimeScale::UTC), &utc), Ok(()));
    let tt = expected_for(InferredType::Datetime(TimeScale::TT));
    assert_eq!(check_bound_type(&InferredType::Datetime(TimeScale::TT), &tt), Ok(()));
}

#[test]
fn datetime_domain_bound_rejects_a_different_scale() {
    let tt = expected_for(InferredType::Datetime(TimeScale::TT));
    assert_eq!(
        check_bound_type(&InferredType::Datetime(TimeScale::UTC), &tt),
        Err(DomainBoundError::DatetimeTypeMismatch)
    );
}

#[test]
fn datetime_domain_bound_rejects_a_non_datetime_value() {
    let utc = expected_for(InferredType::Datetime(TimeScale::UTC));
    assert_eq!(check_bound_type(&InferredType::Int, &utc), Err(DomainBoundError::DatetimeTypeMismatch));
}

#[test]
fn const_domain_bound_dimension_checked() {
    let expected = expected_for(quantity(mass()));
    assert_eq!(check_bound_type(&quantity(length()), &expected), Err(DomainBoundError::DimensionMismatch));
}

#[test]
fn const_domain_bound_int_with_unit_rejected() {
    let expected = expected_for(InferredType::Int);
    assert_eq!(check_bound_type(&quantity(mass()), &expected), Err(DomainBoundError::IntTypeMismatch));
}

#[test]
fn const_domain_bound_well_formed_passes_dim_check() {
    let expected = expected_for(quantity(mass()));
    assert_eq!(check_bound_type(&quantity(mass()), &expected), Ok(()));
}

#[test]
fn symbolic_static_fin_key_obligation_passes_below_cardinality() {
    let n = NatLinearForm::from_var(NatParam(0));
    let scope = HashMap::from([(0u32, 60u64)]);
    let axis = bind_index_nats(&IndexTypeRef::NatRange(n), &scope, &HashMap::from([(60u64, 2u64)])).unwrap();
    let requirement = StaticIndexRequirement { operand: 1, axis, position: 1, usage: StaticIndexUse::Key };
    let size = requirement.axis.concrete_nat_range();
    assert_eq!(requirement.check(size), Ok(Readiness::Ready));
}

#[test]
fn symbolic_static_fin_key_obligation_rejects_equal_cardinality() {
    let n = NatLinearForm::from_var(NatParam(0));
    let scope = HashMap::from([(0u32, 60u64)]);
    let axis = bind_index_nats(&IndexTypeRef::NatRange(n), &scope, &HashMap::from([(60u64, 1u64)])).unwrap();
    let requirement = StaticIndexRequirement { operand: 1, axis, position: 1, usage: StaticIndexUse::Key };
    let size = requirement.axis.concrete_nat_range();
    assert_eq!(
        requirement.check(size),
        Err(StaticIndexError { usage: StaticIndexUse::Key, position: 1, size: 1 })
    );
}

#[test]
fn symbolic_static_fin_key_obligation_rejects_fin_zero() {
    let n = NatLinearForm::from_var(NatParam(0));
    let scope = HashMap::from([(0u32, 60u64)]);
    assert_eq!(
        bind_index_nats(&IndexTypeRef::NatRange(n), &scope, &HashMap::from([(60u64, 0u64)])),
        Err(NatBindingError::InvalidIndexSize(0))
    );
}

#[test]
fn symbolic_fin_constant_index_is_checked_after_substitution() {
    let n = NatLinearForm::from_var(NatParam(0));
    let symbolic = StaticIndexRequirement {
        operand: 2,
        axis: IndexTypeRef::NatRange(n),
        position: 1,
        usage: StaticIndexUse::Selection,
    };
    assert_eq!(symbolic.check(symbolic.axis.concrete_nat_range()), Ok(Readiness::Deferred));
    let scope = HashMap::from([(0u32, 60u64)]);
    let axis = bind_index_nats(&symbolic.axis, &scope, &HashMap::from([(60u64, 1u64)])).unwrap();
    let concrete = StaticIndexRequirement { axis, ..symbolic.clone() };
    assert_eq!(
        concrete.check(concrete.axis.concrete_nat_range()),
        Err(StaticIndexError { usage: StaticIndexUse::Selection, position: 1, size: 1 })
    );
}

fn symbols(names: &[u64]) -> Vec<Symbol> {
    names.iter().map(|n| Symbol(*n)).collect()
}

#[test]
fn check_struct_in_arithmetic() {
    let orbit = InferredType::Struct(
        InferredStructType::from_ref(StructTypeRef::with_owner(module(), Symbol(40))),
        Vec::new(),
    );
    assert_eq!(
        binop(BinOp::Add, orbit, quantity(length())),
        Err(TypeRuleError::Mismatch { reason: MismatchReason::ExpectedQuantity, span: Span::new(0, 1) })
    );
}

// `pub index Maneuver = { Departure, Correction, Insertion };` (index 10,
// labels 11 to 13), the unit `km/s` (904) and `param dv: Velocity[Maneuver]`
// (declaration 3).
fn maneuver_env() -> TypingEnv {
    let mut env = program_env();
    env.units.push((decl(904), velocity()));
    env.axis_defs.push((decl(10), AxisDef::Named));
    env.index_variants.push((decl(10), vec![Symbol(11), Symbol(12), Symbol(13)]));
    env.variants.extend(vec![(decl(11), decl(10)), (decl(12), decl(10)), (decl(13), decl(10))]);
    env.decls.push((decl(3), velocity_by_maneuver()));
    env
}

fn velocity_by_maneuver() -> DeclaredType {
    DeclaredType::Indexed { element: Box::new(DeclaredType::Quantity(velocity())), index: declared_index(10) }
}

fn map_literal(id: u64, keys: Vec<Vec<MapKey>>, values: Vec<Expr>) -> Expr {
    Expr::new(id, Span::new(20, 120), ExprKind::MapLiteral { keys }, values)
}

fn label_key(label: u64) -> Vec<MapKey> {
    vec![MapKey::Label(decl(label))]
}

// `param dv: Velocity[Maneuver] = { Maneuver.Departure: 2.46 km / s,
// Maneuver.Correction: 0.5 km / s, Maneuver.Insertion: 1.8 km / s };`
fn dv_param() -> Declaration {
    let speed = |start: usize| lit(start, Some(decl(904)));
    Declaration {
        name: decl(3),
        annotation: velocity_by_maneuver(),
        annotation_span: Span::new(5, 6),
        body: Some(map_literal(
            4000,
            vec![label_key(11), label_key(12), label_key(13)],
            vec![speed(30), speed(60), speed(90)],
        )),
    }
}

// `for m: Maneuver { body }`, with `m` the local 50.
fn for_maneuver(body: Expr) -> Expr {
    Expr::new(
        3000,
        Span::new(40, 80),
        ExprKind::ForComp { locals: vec![50], indexes: vec![ForBindingIndex::Named { index: decl(10), span: Span::new(47, 55) }] },
        vec![body],
    )
}

// `@dv[m]`
fn dv_at_m(start: usize) -> Expr {
    let dv = Expr::new(start as u64, Span::new(start, start + 3), ExprKind::GraphRef(decl(3)), Vec::new());
    let m = Expr::new(start as u64 + 1, Span::new(start + 4, start + 5), ExprKind::LocalRef(50), Vec::new());
    Expr::new(start as u64 + 2, Span::new(start, start + 6), ExprKind::IndexAccess { args: vec![IndexArg::Operand(1)] }, vec![dv, m])
}

#[test]
fn check_for_comprehension() {
    // node doubled: Velocity[Maneuver] = for m: Maneuver { @dv[m] + @dv[m] };
    let body = bin(BinOp::Add, dv_at_m(158), dv_at_m(167));
    let decls = vec![
        dv_param(),
        Declaration {
            name: decl(2),
            annotation: velocity_by_maneuver(),
            annotation_span: Span::new(3, 4),
            body: Some(for_maneuver(body)),
        },
    ];
    assert_eq!(check_dimensions(&decls, &maneuver_env()), Ok(()));
}

#[test]
fn check_for_comprehension_type_mismatch() {
    // node bad: Length[Maneuver] = for m: Maneuver { @dv[m] };
    let decls = vec![
        dv_param(),
        Declaration {
            name: decl(2),
            annotation: DeclaredType::Indexed { element: Box::new(DeclaredType::Quantity(length())), index: declared_index(10) },
            annotation_span: Span::new(3, 4),
            body: Some(for_maneuver(dv_at_m(158))),
        },
    ];
    assert!(matches!(check_dimensions(&decls, &maneuver_env()), Err(DimError::AnnotationMismatch { .. })));
}

#[test]
fn check_index_access_with_variant_on_a_map_literal_param() {
    // param first: Velocity = @dv[Maneuver.Departure];
    let dv = Expr::new(160, Span::new(160, 163), ExprKind::GraphRef(decl(3)), Vec::new());
    let access = Expr::new(162, Span::new(160, 183), ExprKind::IndexAccess { args: vec![IndexArg::Variant(decl(11))] }, vec![dv]);
    let decls = vec![
        dv_param(),
        Declaration { name: decl(2), annotation: DeclaredType::Quantity(velocity()), annotation_span: Span::new(3, 4), body: Some(access) },
    ];
    assert_eq!(check_dimensions(&decls, &maneuver_env()), Ok(()));
}

// `pub index Phase = { Coast, Burn };` (index 20, labels 21 and 22) and
// `pub index Stage = { First, Second };` (index 23, labels 24 and 25).
fn phase_stage_env() -> TypingEnv {
    let mut env = program_env();
    env.units.push((decl(905), mass()));
    env.axis_defs.extend(vec![(decl(20), AxisDef::Named), (decl(23), AxisDef::Named), (decl(26), AxisDef::NatRange(2))]);
    env.index_variants.extend(vec![(decl(20), vec![Symbol(21), Symbol(22)]), (decl(23), vec![Symbol(24), Symbol(25)])]);
    env.variants.extend(vec![(decl(21), decl(20)), (decl(22), decl(20)), (decl(24), decl(23)), (decl(25), decl(23)), (decl(27), decl(26))]);
    env
}

fn dimensionless_by_phase() -> DeclaredType {
    DeclaredType::Indexed { element: Box::new(DeclaredType::Quantity(Dimension::dimensionless())), index: declared_index(20) }
}

fn map_param(annotation: DeclaredType, keys: Vec<Vec<MapKey>>, values: Vec<Expr>) -> Result<(), DimError> {
    let decls = vec![Declaration { name: decl(2), annotation, annotation_span: Span::new(3, 4), body: Some(map_literal(4000, keys, values)) }];
    check_dimensions(&decls, &phase_stage_env())
}

fn map_error(error: ExprTypeError) -> Result<(), DimError> {
    Err(DimError::Expr { name: decl(2), error })
}

#[test]
fn check_map_literal_error_in_entry() {
    // param bad: Dimensionless[Phase] = { Phase.Coast: 1.0 foobar, Phase.Burn: 2.0 };
    let r = map_param(dimensionless_by_phase(), vec![label_key(21), label_key(22)], vec![lit(30, Some(decl(999))), lit(50, None)]);
    assert!(matches!(r, Err(DimError::Expr { error: ExprTypeError::UnknownUnit { .. }, .. })), "got: {r:?}");
}

#[test]
fn check_map_literal_mixed_index_names() {
    // param x: Dimensionless[Phase] = { Phase.Coast: 1.0, Stage.Second: 2.0 };
    let r = map_param(dimensionless_by_phase(), vec![label_key(21), label_key(25)], vec![lit(30, None), lit(50, None)]);
    assert_eq!(r, map_error(ExprTypeError::MapKeyIndexMismatch { entry: 1, axis: 0, span: Span::new(20, 120) }));
}

#[test]
fn map_literal_types_as_its_value_type_over_the_key_axes() {
    // param x: Dimensionless[Phase] = { Phase.Coast: 1.0, Phase.Burn: 2.0 };
    assert_eq!(map_param(dimensionless_by_phase(), vec![label_key(21), label_key(22)], vec![lit(30, None), lit(50, None)]), Ok(()));
    // Two axes: Dimensionless[Phase][Stage], the first key's axis outermost.
    let by_phase_and_stage = DeclaredType::Indexed {
        element: Box::new(DeclaredType::Indexed {
            element: Box::new(DeclaredType::Quantity(Dimension::dimensionless())),
            index: declared_index(23),
        }),
        index: declared_index(20),
    };
    let keys = vec![
        vec![MapKey::Label(decl(21)), MapKey::Label(decl(24))],
        vec![MapKey::Label(decl(21)), MapKey::Label(decl(25))],
        vec![MapKey::Label(decl(22)), MapKey::Label(decl(24))],
        vec![MapKey::Label(decl(22)), MapKey::Label(decl(25))],
    ];
    let values = vec![lit(30, None), lit(40, None), lit(50, None), lit(60, None)];
    assert_eq!(map_param(by_phase_and_stage, keys, values), Ok(()));
}

#[test]
fn map_literal_key_errors() {
    let values = || vec![lit(30, None), lit(50, None)];
    // A left-out label.
    assert_eq!(
        map_param(dimensionless_by_phase(), vec![label_key(21)], vec![lit(30, None)]),
        map_error(ExprTypeError::MapKeys(MapKeyError::MissingVariants { variants: vec![Symbol(22)] }))
    );
    // A repeated entry.
    assert_eq!(
        map_param(dimensionless_by_phase(), vec![label_key(21), label_key(21)], values()),
        map_error(ExprTypeError::MapKeys(MapKeyError::DuplicateEntry { entry: 1 }))
    );
    // Entries of different arity.
    assert_eq!(
        map_param(dimensionless_by_phase(), vec![label_key(21), vec![MapKey::Label(decl(22)), MapKey::Label(decl(24))]], values()),
        map_error(ExprTypeError::MapKeys(MapKeyError::InconsistentArity { entry: 1 }))
    );
    // A key on a nat-range index.
    assert_eq!(
        map_param(dimensionless_by_phase(), vec![label_key(27), label_key(22)], values()),
        map_error(ExprTypeError::MapRangeKey { span: Span::new(20, 120) })
    );
    assert_eq!(
        map_param(dimensionless_by_phase(), vec![vec![MapKey::NatRange { variant: Symbol(0) }], label_key(22)], values()),
        map_error(ExprTypeError::MapRangeKey { span: Span::new(20, 120) })
    );
    // No entries.
    assert_eq!(map_param(dimensionless_by_phase(), Vec::new(), Vec::new()), map_error(ExprTypeError::MapKeys(MapKeyError::Empty)));
}

#[test]
fn map_literal_values_share_one_type() {
    // param x: Dimensionless[Phase] = { Phase.Coast: 1.0, Phase.Burn: 2.0 kg };
    assert_eq!(
        map_param(dimensionless_by_phase(), vec![label_key(21), label_key(22)], vec![lit(30, None), lit(50, Some(decl(905)))]),
        map_error(ExprTypeError::MapLiteralType(MapLiteralTypeError::EntryTypeMismatch { entry: 1, span: Span::new(50, 51) }))
    );
}

#[test]
fn check_conversion_same_dimension() {
    let converted = convert_rule(&operand(quantity(velocity()), 0), &velocity(), Span::new(10, 17)).unwrap();
    assert!(types_match(&DeclaredType::Quantity(velocity()), &converted));
}

#[test]
fn check_conversion_wrong_dimension() {
    assert_eq!(
        convert_rule(&operand(quantity(length()), 0), &time(), Span::new(10, 11)),
        Err(TypeRuleError::Mismatch {
            reason: MismatchReason::ConversionDimensionMismatch,
            span: Span::new(10, 11),
        })
    );
}

#[test]
fn domain_bound_convert_preserves_dimension() {
    let bound = convert_rule(&operand(quantity(mass()), 0), &mass(), Span::new(10, 11)).unwrap();
    let expected = expected_for(quantity(mass()));
    assert_eq!(check_bound_type(&bound, &expected), Ok(()));
}

#[test]
fn datetime_domain_bound_accepts_an_explicit_scale_conversion() {
    let bound =
        time_scale_conversion_rule(&operand(InferredType::Datetime(TimeScale::UTC), 0), TimeScale::TT).unwrap();
    let tt = expected_for(InferredType::Datetime(TimeScale::TT));
    assert_eq!(check_bound_type(&bound, &tt), Ok(()));
}

#[test]
fn unfold_init_self_reference_is_cycle() {
    let dag = DagDeclarations {
        consts: vec![],
        params: vec![],
        nodes: vec![spanned(1)],
        const_deps: vec![],
        runtime_deps: vec![(decl(1), vec![decl(1)])],
    };
    assert_eq!(detect_decl_cycles(&vec![dag]).unwrap_err().name, decl(1));
}

#[test]
fn unfold_body_self_references_are_cycles_for_every_coordinate() {
    for self_read in [10u64, 11, 12] {
        let dag = DagDeclarations {
            consts: vec![],
            params: vec![],
            nodes: vec![spanned(1), spanned(self_read)],
            const_deps: vec![],
            runtime_deps: vec![(decl(1), vec![decl(self_read), decl(1)])],
        };
        assert_eq!(detect_decl_cycles(&vec![dag]).unwrap_err().name, decl(1));
    }
}

#[test]
fn generic_dimension_field_bound_is_checked_after_substitution() {
    let field = expected_for(quantity(time()));
    assert_eq!(check_bound_type(&quantity(length()), &field), Err(DomainBoundError::DimensionMismatch));
}

#[test]
fn temporary_generic_constructor_obligation_is_checked() {
    let field = expected_for(quantity(time()));
    assert_eq!(check_bound_type(&quantity(length()), &field), Err(DomainBoundError::DimensionMismatch));
}

#[test]
fn matching_generic_dimension_field_bound_passes() {
    let field = expected_for(quantity(length()));
    assert_eq!(check_bound_type(&quantity(length()), &field), Ok(()));
}

#[test]
fn generic_dimension_expression_field_bound_is_checked_after_substitution() {
    let time_squared = time().checked_mul(&time()).unwrap();
    let field = expected_for(quantity(time_squared));
    assert_eq!(check_bound_type(&quantity(area()), &field), Err(DomainBoundError::DimensionMismatch));
}

#[test]
fn nested_generic_field_obligation_is_checked() {
    let inner_field = expected_for(quantity(time()));
    assert_eq!(check_bound_type(&quantity(length()), &inner_field), Err(DomainBoundError::DimensionMismatch));
}

#[test]
fn defaulted_generic_field_obligation_is_checked() {
    let defaulted_field = expected_for(quantity(time()));
    assert_eq!(
        check_bound_type(&quantity(length()), &defaulted_field),
        Err(DomainBoundError::DimensionMismatch)
    );
}

#[test]
fn ordinary_field_constraint_remains_legal() {
    let field = expected_for(quantity(length()));
    assert_eq!(check_bound_type(&quantity(length()), &field), Ok(()));
}

#[test]
fn inline_dag_body_dimension_mismatch_caught_at_compile_time() {
    assert!(matches!(
        binop(BinOp::Add, quantity(length()), quantity(time())),
        Err(TypeRuleError::Mismatch { reason: MismatchReason::AdditionDimensionMismatch, .. })
    ));
}

#[test]
fn check_map_literal_inconsistent_element_dims() {
    let values = vec![operand(dimensionless(), 50), operand(quantity(length()), 70)];
    assert_eq!(
        map_literal_type(vec![named_axis(60)], &values),
        Err(MapLiteralTypeError::EntryTypeMismatch { entry: 1, span: Span::new(70, 71) })
    );
    assert!(!type_equal(&values[0].ty, &values[1].ty));
}

#[test]
fn map_key_space_overflow_is_preempted_by_the_eager_shape_policy() {
    let two = || IndexCardinality::try_from_u64(2).unwrap();
    let axis_count = usize::BITS as usize;
    let tail: Vec<IndexCardinality> = (1..axis_count).map(|_| two()).collect();
    assert_eq!(
        MaterializedShape::try_new(NonEmpty::new(two(), tail)),
        Err(MaterializedShapeError::ExceedsLimit { maximum: 1_000_000 })
    );
    assert_eq!(MAX_EAGER_CARDINALITY, 1_000_000);
}

#[test]
fn check_indexed_param_map_literal() {
    let maneuver = vec![symbols(&[1, 2, 3])];
    let entries = vec![symbols(&[1]), symbols(&[2]), symbols(&[3])];
    assert_eq!(check_map_literal_keys(&maneuver, &entries), Ok(()));
    let values = vec![
        operand(quantity(velocity()), 40),
        operand(quantity(velocity()), 50),
        operand(quantity(velocity()), 60),
    ];
    let dv = map_literal_type(vec![named_axis(10)], &values).unwrap();
    assert_eq!(dv, indexed(quantity(velocity()), named_axis(10)));
    let declared = DeclaredType::Indexed {
        element: Box::new(DeclaredType::Quantity(velocity())),
        index: declared_index(10),
    };
    assert!(types_match(&declared, &dv));
}

#[test]
fn check_map_literal_missing_variant() {
    let maneuver = vec![symbols(&[1, 2, 3])];
    let entries = vec![symbols(&[1]), symbols(&[2])];
    assert_eq!(
        check_map_literal_keys(&maneuver, &entries),
        Err(MapKeyError::MissingVariants { variants: symbols(&[3]) })
    );
}

#[test]
fn check_map_literal_extra_variant() {
    let maneuver = vec![symbols(&[1, 2])];
    let entries = vec![symbols(&[1]), symbols(&[2]), symbols(&[3])];
    assert_eq!(
        check_map_literal_keys(&maneuver, &entries),
        Err(MapKeyError::ExtraVariants { variants: symbols(&[3]) })
    );
}

#[test]
fn incomplete_large_axis_map_reports_one_bounded_missing_witness() {
    let axis_count: usize = 19;
    let x = Symbol(1);
    let y = Symbol(2);
    let axes: Vec<Vec<Symbol>> = (0..axis_count).map(|_| vec![x, y]).collect();
    let only_x: Vec<Symbol> = (0..axis_count).map(|_| x).collect();
    let mut witness = only_x.clone();
    witness[axis_count - 1] = y;
    assert_eq!(
        check_map_literal_keys(&axes, &vec![only_x]),
        Err(MapKeyError::MissingEntries { count: 524_287, first: witness })
    );
}

#[test]
fn check_struct_extra_fields() {
    let orbit = symbols(&[1, 2]);
    let provided = symbols(&[1, 2, 3]);
    assert_eq!(
        constructor_fields_rule(&orbit, &provided),
        Err(ConstructorFieldsError::ExtraFields { names: symbols(&[3]) })
    );
}

#[test]
fn check_struct_duplicate_field_initializers() {
    let orbit = symbols(&[1, 2]);
    let provided = symbols(&[1, 1, 2]);
    assert_eq!(
        constructor_fields_rule(&orbit, &provided),
        Err(ConstructorFieldsError::DuplicateField { position: 1 })
    );
}

#[test]
fn check_match_wildcard_binding_validates_field_name() {
    let some = symbols(&[1]);
    let bindings = symbols(&[9]);
    assert_eq!(pattern_fields_rule(&some, &bindings), Err(PatternFieldError::UnknownField { position: 0 }));
}

#[test]
fn check_match_rejects_duplicate_field_bindings() {
    let pair = symbols(&[1, 2]);
    let bindings = symbols(&[1, 1]);
    assert_eq!(
        pattern_fields_rule(&pair, &bindings),
        Err(PatternFieldError::DuplicateBinding { position: 1 })
    );
}

#[test]
fn collections_index_their_first_axis_outermost() {
    let matrix_type = indexed_over(dimensionless(), vec![named_axis(1), named_axis(2)]);
    assert_eq!(matrix_type, matrix(dimensionless(), named_axis(1), named_axis(2)));
    assert_eq!(indexed_over(dimensionless(), Vec::new()), dimensionless());
    assert_eq!(map_literal_type(vec![named_axis(1)], &Vec::new()), Err(MapLiteralTypeError::Empty));
}

fn maneuver_program() -> DagProgram {
    let decls = vec![
        dv_param(),
        Declaration {
            name: decl(2),
            annotation: velocity_by_maneuver(),
            annotation_span: Span::new(3, 4),
            body: Some(for_maneuver(bin(BinOp::Add, dv_at_m(158), dv_at_m(167)))),
        },
    ];
    DagProgram { declarations: decls, env: maneuver_env() }
}

fn acyclic_graph() -> DagDeclarations {
    DagDeclarations {
        consts: vec![],
        params: vec![spanned(3)],
        nodes: vec![spanned(2)],
        const_deps: vec![],
        runtime_deps: vec![(decl(2), vec![decl(3)])],
    }
}

#[test]
fn file_check_runs_cycles_before_declarations() {
    // A file whose DAGs and declarations are all well-formed passes.
    assert_eq!(check_dimensions_tir(&vec![acyclic_graph()], &vec![calls(1, vec![])], &vec![maneuver_program()]), Ok(()));
    // `node y = @y;` fails on its cycle before any declaration is typed.
    let cyclic = DagDeclarations {
        consts: vec![],
        params: vec![],
        nodes: vec![spanned(1)],
        const_deps: vec![],
        runtime_deps: vec![(decl(1), vec![decl(1)])],
    };
    let mut bad_types = maneuver_program();
    bad_types.declarations[1].annotation = DeclaredType::Quantity(length());
    assert!(matches!(
        check_dimensions_tir(&vec![cyclic], &vec![calls(1, vec![])], &vec![maneuver_program()]),
        Err(TirCheckError::Cycle(CyclicDependency { name, .. })) if name == decl(1)
    ));
    // A DAG that calls itself inline.
    assert_eq!(
        check_dimensions_tir(&vec![acyclic_graph()], &vec![calls(1, vec![1])], &vec![maneuver_program()]),
        Err(TirCheckError::DagCycle(CyclicDagCall { dag: DagId(1), span: Span::new(1, 2) }))
    );
    // Without cycles, the first DAG with a rejected declaration decides.
    assert!(matches!(
        check_dimensions_tir(&vec![acyclic_graph()], &vec![calls(1, vec![])], &vec![maneuver_program(), bad_types]),
        Err(TirCheckError::Dimension { dag: 1, error: DimError::AnnotationMismatch { .. } })
    ));
}

#[test]
fn check_infers_every_plot_encoding_channel() {
    for channel in ["x", "y", "color", "size", "shape", "opacity", "detail", "text", "tooltip"] {
        // plot p = { mark: line, encode: { <channel>: true + 1.0 } };
        let encodings = vec![EncodingValue::Expression(bin(BinOp::Add, flag(30), lit(37, None)))];
        assert!(
            matches!(
                plot_encoding_shapes(&encodings, &program_env()),
                Err(PlotEncodingError::Type { channel: 0, error: ExprTypeError::Rule(TypeRuleError::Mismatch { .. }) })
            ),
            "encoding channel `{channel}` escaped inference"
        );
    }
}

#[test]
fn plot_encodings_give_each_channel_its_axes_and_leaf() {
    // encode: { x: "label", y: for m: Maneuver { @dv[m] } }
    let encodings = vec![EncodingValue::StringLiteral, EncodingValue::Expression(for_maneuver(dv_at_m(158)))];
    let shapes = plot_encoding_shapes(&encodings, &maneuver_env()).unwrap();
    assert_eq!(shapes.len(), 2);
    assert!(shapes[0].axes.is_empty());
    assert_eq!(shapes[1].axes, vec![declared_index(10)]);
    // text: Maneuver.Departure plots a key without axes.
    let label = Expr::new(1, Span::new(30, 40), ExprKind::VariantLiteral(decl(11)), Vec::new());
    let shapes = plot_encoding_shapes(&vec![EncodingValue::Expression(label)], &maneuver_env()).unwrap();
    assert!(shapes[0].axes.is_empty());
}
