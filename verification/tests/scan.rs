use graphcal_compiler::dimension::{BaseDimId, Dimension, PreludeBaseDimension};
use graphcal_compiler::index::{DagId, ResolvedName, Symbol};
use graphcal_compiler::rules::{binop_rule, BinOp, MismatchReason, Operand, Span, TypeRuleError};
use graphcal_compiler::scan::{scan_result, scan_source, ScanError};
use graphcal_compiler::types::{InferredIndex, InferredType};

fn base(p: PreludeBaseDimension) -> Dimension {
    Dimension::base(BaseDimId::Prelude(p))
}

fn length() -> InferredType {
    InferredType::Quantity(base(PreludeBaseDimension::Length))
}

fn velocity() -> InferredType {
    InferredType::Quantity(base(PreludeBaseDimension::Length).checked_div(&base(PreludeBaseDimension::Time)).unwrap())
}

fn dimensionless() -> InferredType {
    InferredType::Quantity(Dimension::dimensionless())
}

fn axis(n: u64) -> InferredIndex {
    InferredIndex::from_resolved(ResolvedName { owner: DagId(1), name: Symbol(n) })
}

fn over(element: InferredType, n: u64) -> InferredType {
    InferredType::Indexed { element: Box::new(element), index: axis(n) }
}

fn operand(ty: InferredType, start: usize) -> Operand {
    Operand { ty, span: Span::new(start, start + 1) }
}

// Axis names.
fn maneuver() -> u64 {
    10
}

#[test]
fn check_scan() {
    let (element, source_axis) = scan_source(&operand(over(velocity(), maneuver()), 0)).unwrap();
    assert_eq!(element, velocity());
    let body = binop_rule(Span::new(20, 30), BinOp::Add, &operand(velocity(), 20), &operand(element, 26), None)
        .unwrap();
    assert_eq!(
        scan_result(source_axis, &operand(velocity(), 10), &operand(body, 20)),
        Ok(over(velocity(), maneuver()))
    );
}

#[test]
fn check_scan_supports_heterogeneous_accumulator() {
    let (element, source_axis) = scan_source(&operand(over(InferredType::Bool, 11), 0)).unwrap();
    assert_eq!(element, InferredType::Bool);
    assert_eq!(
        scan_result(source_axis, &operand(InferredType::Int, 10), &operand(InferredType::Int, 20)),
        Ok(over(InferredType::Int, 11))
    );
}

#[test]
fn scan_accepts_indexed_accumulator_and_prepends_source_axis() {
    let step = 12;
    let element_axis = 13;
    let (_, source_axis) = scan_source(&operand(over(dimensionless(), step), 0)).unwrap();
    let state = over(dimensionless(), element_axis);
    assert_eq!(
        scan_result(source_axis, &operand(state, 10), &operand(over(dimensionless(), element_axis), 20)),
        Ok(over(over(dimensionless(), element_axis), step))
    );
}

#[test]
fn scan_rejects_multi_axis_source_instead_of_choosing_an_axis_implicitly() {
    let source = over(over(dimensionless(), 13), 12);
    assert_eq!(
        scan_source(&operand(source, 0)),
        Err(ScanError::MultiAxisSource { rank: 2, span: Span::new(0, 1) })
    );
}

#[test]
fn check_scan_body_type_mismatch() {
    let (element, source_axis) = scan_source(&operand(over(velocity(), maneuver()), 0)).unwrap();
    let body = binop_rule(Span::new(20, 30), BinOp::Mul, &operand(velocity(), 20), &operand(element, 26), None)
        .unwrap();
    assert_eq!(
        scan_result(source_axis, &operand(velocity(), 10), &operand(body, 20)),
        Err(ScanError::BodyMismatch { span: Span::new(20, 21) })
    );
}

#[test]
fn check_scan_on_unindexed() {
    assert_eq!(
        scan_source(&operand(dimensionless(), 0)),
        Err(ScanError::SourceNotIndexed { span: Span::new(0, 1) })
    );
}

#[test]
fn check_scan_type_mismatch() {
    let (element, _) = scan_source(&operand(over(velocity(), maneuver()), 0)).unwrap();
    assert!(matches!(
        binop_rule(Span::new(20, 30), BinOp::Add, &operand(length(), 20), &operand(element, 26), None),
        Err(TypeRuleError::Mismatch { reason: MismatchReason::AdditionDimensionMismatch, .. })
    ));
}
