use graphcal_compiler::dimension::{BaseDimId, Dimension, PreludeBaseDimension};
use graphcal_compiler::index::{DagId, IndexTypeRef, ResolvedName, Symbol};
use graphcal_compiler::index_access::{index_access_type, AxisDef, IndexAccessArg, IndexAccessError};
use graphcal_compiler::nat_form::NatLinearForm;
use graphcal_compiler::rules::Span;
use graphcal_compiler::types::{InferredIndex, InferredType};

fn base(p: PreludeBaseDimension) -> Dimension {
    Dimension::base(BaseDimId::Prelude(p))
}

fn velocity() -> InferredType {
    InferredType::Quantity(base(PreludeBaseDimension::Length).checked_div(&base(PreludeBaseDimension::Time)).unwrap())
}

fn dimensionless() -> InferredType {
    InferredType::Quantity(Dimension::dimensionless())
}

fn name(n: u64) -> ResolvedName {
    ResolvedName { owner: DagId(1), name: Symbol(n) }
}

// Declared indexes.
fn maneuver() -> ResolvedName {
    name(10)
}

fn phase() -> ResolvedName {
    name(11)
}

fn stage() -> ResolvedName {
    name(12)
}

fn time_step() -> ResolvedName {
    name(13)
}

fn len_grid() -> ResolvedName {
    name(14)
}

fn defs() -> Vec<(ResolvedName, AxisDef)> {
    vec![
        (maneuver(), AxisDef::Named),
        (phase(), AxisDef::Named),
        (stage(), AxisDef::Named),
        (time_step(), AxisDef::Coordinate(base(PreludeBaseDimension::Time))),
        (len_grid(), AxisDef::Coordinate(base(PreludeBaseDimension::Length))),
        (name(15), AxisDef::NatRange(4)),
    ]
}

fn over(element: InferredType, index: ResolvedName) -> InferredType {
    InferredType::Indexed { element: Box::new(element), index: InferredIndex::from_resolved(index) }
}

fn fin_axis(n: u64) -> InferredIndex {
    InferredIndex::from_nat_range_form(NatLinearForm::from_constant(n)).unwrap()
}

fn over_fin(element: InferredType, n: u64) -> InferredType {
    InferredType::Indexed { element: Box::new(element), index: fin_axis(n) }
}

fn span() -> Span {
    Span::new(30, 40)
}

fn arg_span() -> Span {
    Span::new(34, 39)
}

fn variant(index: ResolvedName) -> IndexAccessArg {
    IndexAccessArg::Variant { index: InferredIndex::from_resolved(index), span: arg_span() }
}

fn local(ty: InferredType) -> IndexAccessArg {
    IndexAccessArg::Local { ty, span: arg_span() }
}

fn fin(n: u64) -> InferredType {
    InferredType::Fin(NatLinearForm::from_constant(n))
}

#[test]
fn check_index_access_with_variant() {
    let dv = over(velocity(), maneuver());
    assert_eq!(index_access_type(&dv, &vec![variant(maneuver())], &defs(), span()), Ok(velocity()));
}

#[test]
fn check_index_mismatch_in_for() {
    let dv = over(velocity(), maneuver());
    let p = local(InferredType::NamedIndexCase(InferredIndex::from_resolved(phase())));
    assert_eq!(
        index_access_type(&dv, &vec![p], &defs(), span()),
        Err(IndexAccessError::IndexMismatch {
            expected: IndexTypeRef::from_resolved(maneuver()),
            found: IndexTypeRef::from_resolved(phase()),
            span: arg_span(),
        })
    );
}

#[test]
fn check_index_access_on_quantity() {
    assert_eq!(
        index_access_type(&dimensionless(), &vec![variant(phase())], &defs(), span()),
        Err(IndexAccessError::NotIndexed { span: span() })
    );
}

#[test]
fn check_index_access_wrong_index() {
    let x = over(dimensionless(), phase());
    assert!(matches!(
        index_access_type(&x, &vec![variant(stage())], &defs(), span()),
        Err(IndexAccessError::IndexMismatch { .. })
    ));
}

#[test]
fn fin_same_size_indexing() {
    let v = over_fin(dimensionless(), 3);
    assert_eq!(index_access_type(&v, &vec![local(fin(3))], &defs(), span()), Ok(dimensionless()));
}

#[test]
fn fin_smaller_bound_indexing() {
    let v = over_fin(dimensionless(), 5);
    assert_eq!(index_access_type(&v, &vec![local(fin(3))], &defs(), span()), Ok(dimensionless()));
}

#[test]
fn fin_out_of_bounds() {
    let v = over_fin(dimensionless(), 3);
    assert_eq!(
        index_access_type(&v, &vec![local(fin(5))], &defs(), span()),
        Err(IndexAccessError::IndexMismatch {
            expected: IndexTypeRef::NatRange(NatLinearForm::from_constant(3)),
            found: IndexTypeRef::NatRange(NatLinearForm::from_constant(5)),
            span: arg_span(),
        })
    );
}

#[test]
fn quantity_local_cannot_index_named_indexed_value() {
    let v = over(dimensionless(), phase());
    let t = local(InferredType::CoordinateIndexLabel {
        dimension: base(PreludeBaseDimension::Time),
        index: InferredIndex::from_resolved(time_step()),
    });
    assert_eq!(
        index_access_type(&v, &vec![t], &defs(), span()),
        Err(IndexAccessError::IndexMismatch {
            expected: IndexTypeRef::from_resolved(phase()),
            found: IndexTypeRef::from_resolved(time_step()),
            span: arg_span(),
        })
    );
}

#[test]
fn range_loop_var_cannot_index_different_range_indexed_value() {
    let v = over(dimensionless(), len_grid());
    let t = local(InferredType::CoordinateIndexLabel {
        dimension: base(PreludeBaseDimension::Time),
        index: InferredIndex::from_resolved(time_step()),
    });
    assert_eq!(
        index_access_type(&v, &vec![t], &defs(), span()),
        Err(IndexAccessError::IndexMismatch {
            expected: IndexTypeRef::from_resolved(len_grid()),
            found: IndexTypeRef::from_resolved(time_step()),
            span: arg_span(),
        })
    );
}

#[test]
fn coordinate_loop_variables_select_their_own_axis() {
    let v = over(dimensionless(), time_step());
    let t = local(InferredType::CoordinateIndexLabel {
        dimension: base(PreludeBaseDimension::Time),
        index: InferredIndex::from_resolved(time_step()),
    });
    assert_eq!(index_access_type(&v, &vec![t], &defs(), span()), Ok(dimensionless()));
}

#[test]
fn integer_locals_select_only_nat_ranges() {
    let named = over(dimensionless(), phase());
    assert_eq!(
        index_access_type(&named, &vec![local(InferredType::Int)], &defs(), span()),
        Err(IndexAccessError::IntLocalOnNonNatRange { span: arg_span() })
    );
    let declared_range = over(dimensionless(), name(15));
    assert_eq!(
        index_access_type(&declared_range, &vec![local(InferredType::Int)], &defs(), span()),
        Ok(dimensionless())
    );
    assert_eq!(
        index_access_type(&over_fin(dimensionless(), 2), &vec![local(InferredType::Int)], &defs(), span()),
        Ok(dimensionless())
    );
}

#[test]
fn fin_locals_compare_against_declared_nat_range_sizes() {
    let declared_range = over(dimensionless(), name(15));
    assert_eq!(index_access_type(&declared_range, &vec![local(fin(4))], &defs(), span()), Ok(dimensionless()));
    assert!(matches!(
        index_access_type(&declared_range, &vec![local(fin(5))], &defs(), span()),
        Err(IndexAccessError::IndexMismatch { .. })
    ));
    let named = over(dimensionless(), phase());
    assert_eq!(
        index_access_type(&named, &vec![local(fin(1))], &defs(), span()),
        Err(IndexAccessError::FinLocalOnNonNatRange { span: arg_span() })
    );
}

#[test]
fn expressions_must_be_integers_within_the_axis() {
    let v = over_fin(dimensionless(), 3);
    let expr = |ty: InferredType| IndexAccessArg::Expr { ty, span: arg_span() };
    assert_eq!(index_access_type(&v, &vec![expr(InferredType::Int)], &defs(), span()), Ok(dimensionless()));
    assert_eq!(index_access_type(&v, &vec![expr(fin(2))], &defs(), span()), Ok(dimensionless()));
    assert_eq!(
        index_access_type(&v, &vec![expr(fin(5))], &defs(), span()),
        Err(IndexAccessError::FinOutOfBounds { span: arg_span() })
    );
    assert_eq!(
        index_access_type(&v, &vec![expr(InferredType::Bool)], &defs(), span()),
        Err(IndexAccessError::NonIntegerIndex { span: arg_span() })
    );
    let named = over(dimensionless(), phase());
    assert_eq!(
        index_access_type(&named, &vec![expr(InferredType::Int)], &defs(), span()),
        Err(IndexAccessError::IntegerExprOnNonNatRange { span: arg_span() })
    );
}

#[test]
fn locals_of_other_types_cannot_select() {
    let v = over(dimensionless(), phase());
    assert_eq!(
        index_access_type(&v, &vec![local(InferredType::Bool)], &defs(), span()),
        Err(IndexAccessError::InvalidIndexVariable { span: arg_span() })
    );
}

#[test]
fn arguments_select_outermost_axis_first() {
    let matrix = over(over(dimensionless(), stage()), phase());
    assert_eq!(
        index_access_type(&matrix, &vec![variant(phase()), variant(stage())], &defs(), span()),
        Ok(dimensionless())
    );
    assert_eq!(
        index_access_type(&matrix, &vec![variant(phase())], &defs(), span()),
        Ok(over(dimensionless(), stage()))
    );
    assert!(matches!(
        index_access_type(&matrix, &vec![variant(stage()), variant(phase())], &defs(), span()),
        Err(IndexAccessError::IndexMismatch { .. })
    ));
    assert_eq!(
        index_access_type(&matrix, &vec![variant(phase()), variant(stage()), variant(stage())], &defs(), span()),
        Err(IndexAccessError::NotIndexed { span: span() })
    );
}

#[test]
fn labels_of_every_axis_select_the_element_of_a_built_collection() {
    let axes = vec![InferredIndex::from_resolved(phase()), InferredIndex::from_resolved(stage())];
    let collection = graphcal_compiler::keys::indexed_over(velocity(), axes);
    assert_eq!(
        index_access_type(&collection, &vec![variant(phase()), variant(stage())], &defs(), span()),
        Ok(velocity())
    );
}
