use graphcal_compiler::aggregation::{aggregation_rule, AggregationError};
use graphcal_compiler::builtin_call::AggregationFn;
use graphcal_compiler::declared::{types_match, DeclaredType};
use graphcal_compiler::dimension::{BaseDimId, Dimension, PreludeBaseDimension};
use graphcal_compiler::index::{DagId, ResolvedName, Symbol};
use graphcal_compiler::keys::indexed_over;
use graphcal_compiler::nat_form::NatLinearForm;
use graphcal_compiler::rules::{Operand, Span};
use graphcal_compiler::types::{InferredIndex, InferredType};

fn base(p: PreludeBaseDimension) -> Dimension {
    Dimension::base(BaseDimId::Prelude(p))
}

fn velocity() -> InferredType {
    InferredType::Quantity(base(PreludeBaseDimension::Length).checked_div(&base(PreludeBaseDimension::Time)).unwrap())
}

fn length() -> InferredType {
    InferredType::Quantity(base(PreludeBaseDimension::Length))
}

fn axis(n: u64) -> InferredIndex {
    InferredIndex::from_resolved(ResolvedName { owner: DagId(1), name: Symbol(n) })
}

fn over(element: InferredType, n: u64) -> InferredType {
    InferredType::Indexed { element: Box::new(element), index: axis(n) }
}

fn arg(ty: InferredType) -> Operand {
    Operand { ty, span: Span::new(4, 9) }
}

#[test]
fn check_sum_aggregation() {
    assert_eq!(aggregation_rule(AggregationFn::Sum, &arg(over(velocity(), 10))), Some(Ok(velocity())));
}

#[test]
fn check_mean_aggregation() {
    assert_eq!(aggregation_rule(AggregationFn::Mean, &arg(over(velocity(), 10))), Some(Ok(velocity())));
}

#[test]
fn check_minimum_maximum_aggregations() {
    assert_eq!(aggregation_rule(AggregationFn::Min, &arg(over(length(), 11))), Some(Ok(length())));
    assert_eq!(aggregation_rule(AggregationFn::Max, &arg(over(length(), 11))), Some(Ok(length())));
}

#[test]
fn check_for_with_sum() {
    let comprehension = indexed_over(velocity(), vec![axis(10)]);
    assert_eq!(aggregation_rule(AggregationFn::Sum, &arg(comprehension)), Some(Ok(velocity())));
}

#[test]
fn check_count_aggregation_returns_int_for_non_quantity_elements() {
    assert_eq!(aggregation_rule(AggregationFn::Count, &arg(over(InferredType::Bool, 12))), Some(Ok(InferredType::Int)));
}

#[test]
fn check_count_no_longer_returns_dimensionless_quantity() {
    let n = aggregation_rule(AggregationFn::Count, &arg(over(InferredType::Bool, 12))).unwrap().unwrap();
    assert!(!types_match(&DeclaredType::Quantity(Dimension::dimensionless()), &n));
    assert!(types_match(&DeclaredType::Int, &n));
}

#[test]
fn check_count_rejects_multi_axis_input() {
    let matrix = over(over(InferredType::Bool, 14), 13);
    assert_eq!(
        aggregation_rule(AggregationFn::Count, &arg(matrix)),
        Some(Err(AggregationError::MultiAxis { rank: 2, span: Span::new(4, 9) }))
    );
}

#[test]
fn aggregation_rejects_non_quantity_elements() {
    assert_eq!(
        aggregation_rule(AggregationFn::Sum, &arg(over(InferredType::Bool, 12))),
        Some(Err(AggregationError::ExpectedQuantityElements { span: Span::new(4, 9) }))
    );
}

#[test]
fn aggregation_rejects_int_elements() {
    let fin3 = InferredIndex::from_nat_range_form(NatLinearForm::from_constant(3)).unwrap();
    let counts = InferredType::Indexed { element: Box::new(InferredType::Int), index: fin3 };
    assert_eq!(
        aggregation_rule(AggregationFn::Sum, &arg(counts)),
        Some(Err(AggregationError::ExpectedQuantityElements { span: Span::new(4, 9) }))
    );
}

#[test]
fn unindexed_arguments_are_not_reductions() {
    assert_eq!(aggregation_rule(AggregationFn::Min, &arg(length())), None);
}
