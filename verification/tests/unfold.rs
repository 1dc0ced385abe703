use graphcal_compiler::declared::{types_match, DeclaredType};
use graphcal_compiler::dimension::{BaseDimId, Dimension, PreludeBaseDimension};
use graphcal_compiler::index::{DagId, IndexTypeRef, ResolvedName, Symbol};
use graphcal_compiler::index_access::AxisDef;
use graphcal_compiler::rules::{Operand, Span};
use graphcal_compiler::scan::{scan_result, ScanError};
use graphcal_compiler::unfold::{unfold_coordinate_type, UnfoldAxisError};
use graphcal_compiler::types::{InferredIndex, InferredType};

fn time() -> Dimension {
    Dimension::base(BaseDimId::Prelude(PreludeBaseDimension::Time))
}

fn length() -> InferredType {
    InferredType::Quantity(Dimension::base(BaseDimId::Prelude(PreludeBaseDimension::Length)))
}

fn dimensionless() -> InferredType {
    InferredType::Quantity(Dimension::dimensionless())
}

fn name(n: u64) -> ResolvedName {
    ResolvedName { owner: DagId(1), name: Symbol(n) }
}

// `index Step = range(0.0 s, 2.0 s, step: 1.0 s)`, `index Element = { A, B }`,
// `index Other = { A, B }`, `index Phase = { Start, End }`.
fn step() -> ResolvedName {
    name(10)
}

fn element() -> ResolvedName {
    name(11)
}

fn other() -> ResolvedName {
    name(12)
}

fn phase() -> ResolvedName {
    name(13)
}

fn defs() -> Vec<(ResolvedName, AxisDef)> {
    vec![
        (step(), AxisDef::Coordinate(time())),
        (element(), AxisDef::Named),
        (other(), AxisDef::Named),
        (phase(), AxisDef::Named),
    ]
}

fn over(element: InferredType, index: ResolvedName) -> InferredType {
    InferredType::Indexed { element: Box::new(element), index: InferredIndex::from_resolved(index) }
}

fn operand(ty: InferredType, start: usize) -> Operand {
    Operand { ty, span: Span::new(start, start + 1) }
}

#[test]
fn unfold_uses_explicit_coordinate_axis_and_previous_state() {
    let t = unfold_coordinate_type(step(), &defs(), Span::new(0, 4)).unwrap();
    assert_eq!(t, InferredType::CoordinateIndexLabel { dimension: time(), index: InferredIndex::from_resolved(step()) });
    assert_eq!(
        scan_result(InferredIndex::from_resolved(step()), &operand(length(), 10), &operand(length(), 20)),
        Ok(over(length(), step()))
    );
}

#[test]
fn unfold_accepts_indexed_state_and_prepends_coordinate_axis() {
    let state = over(dimensionless(), element());
    assert_eq!(
        scan_result(InferredIndex::from_resolved(step()), &operand(state, 10), &operand(over(dimensionless(), element()), 20)),
        Ok(over(over(dimensionless(), element()), step()))
    );
}

#[test]
fn unfold_accepts_matrix_state() {
    let matrix = || over(over(dimensionless(), other()), element());
    assert_eq!(
        scan_result(InferredIndex::from_resolved(step()), &operand(matrix(), 10), &operand(matrix(), 20)),
        Ok(over(matrix(), step()))
    );
}

#[test]
fn unfold_indexed_state_annotation_mismatch_uses_source_axis_order() {
    let state = scan_result(
        InferredIndex::from_resolved(step()),
        &operand(over(dimensionless(), element()), 10),
        &operand(over(dimensionless(), element()), 20),
    )
    .unwrap();
    let declared = DeclaredType::Indexed {
        element: Box::new(DeclaredType::Indexed {
            element: Box::new(DeclaredType::Quantity(Dimension::dimensionless())),
            index: IndexTypeRef::from_resolved(step()),
        }),
        index: IndexTypeRef::from_resolved(element()),
    };
    assert!(!types_match(&declared, &state));
}

#[test]
fn unfold_rejects_indexed_body_with_different_state_axis() {
    assert_eq!(
        scan_result(
            InferredIndex::from_resolved(step()),
            &operand(over(dimensionless(), element()), 10),
            &operand(over(dimensionless(), other()), 20),
        ),
        Err(ScanError::BodyMismatch { span: Span::new(20, 21) })
    );
}

#[test]
fn unfold_rejects_non_coordinate_axis() {
    assert_eq!(
        unfold_coordinate_type(phase(), &defs(), Span::new(0, 5)),
        Err(UnfoldAxisError::NotCoordinate { index: phase(), span: Span::new(0, 5) })
    );
    assert_eq!(
        unfold_coordinate_type(name(99), &defs(), Span::new(0, 5)),
        Err(UnfoldAxisError::UnknownIndex { index: name(99), span: Span::new(0, 5) })
    );
}
