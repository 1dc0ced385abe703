use graphcal_compiler::dimension::{BaseDimId, Dimension, PreludeBaseDimension};
use graphcal_compiler::for_comp::{for_binding_local_type, for_comp_type, ForBindingIndex, ForCompError};
use graphcal_compiler::index::{DagId, ResolvedName, Symbol};
use graphcal_compiler::index_access::{index_access_type, AxisDef, IndexAccessArg};
use graphcal_compiler::nat_form::NatLinearForm;
use graphcal_compiler::rules::Span;
use graphcal_compiler::types::{InferredIndex, InferredType};

fn time() -> Dimension {
    Dimension::base(BaseDimId::Prelude(PreludeBaseDimension::Time))
}

fn dimensionless() -> InferredType {
    InferredType::Quantity(Dimension::dimensionless())
}

fn name(n: u64) -> ResolvedName {
    ResolvedName { owner: DagId(1), name: Symbol(n) }
}

// Declared indexes: Phase (named), Step (coordinate over time), Slots (nat range of 4).
fn phase() -> ResolvedName {
    name(10)
}

fn step() -> ResolvedName {
    name(11)
}

fn slots() -> ResolvedName {
    name(12)
}

fn defs() -> Vec<(ResolvedName, AxisDef)> {
    vec![(phase(), AxisDef::Named), (step(), AxisDef::Coordinate(time())), (slots(), AxisDef::NatRange(4))]
}

fn named(index: ResolvedName, at: usize) -> ForBindingIndex {
    ForBindingIndex::Named { index, span: Span::new(at, at + 1) }
}

fn range(n: u64, at: usize) -> ForBindingIndex {
    ForBindingIndex::Range { form: NatLinearForm::from_constant(n), span: Span::new(at, at + 1) }
}

#[test]
fn check_for_comp_unknown_index() {
    assert_eq!(
        for_binding_local_type(&named(name(99), 5), &defs()),
        Err(ForCompError::UnknownIndex { index: name(99), span: Span::new(5, 6) })
    );
}

#[test]
fn loop_locals_follow_the_kind_of_their_index() {
    assert_eq!(
        for_binding_local_type(&named(phase(), 0), &defs()),
        Ok(InferredType::NamedIndexCase(InferredIndex::from_resolved(phase())))
    );
    assert_eq!(
        for_binding_local_type(&named(step(), 0), &defs()),
        Ok(InferredType::CoordinateIndexLabel { dimension: time(), index: InferredIndex::from_resolved(step()) })
    );
    assert_eq!(
        for_binding_local_type(&named(slots(), 0), &defs()),
        Ok(InferredType::Fin(NatLinearForm::from_constant(4)))
    );
    assert_eq!(
        for_binding_local_type(&range(3, 0), &defs()),
        Ok(InferredType::Fin(NatLinearForm::from_constant(3)))
    );
}

#[test]
fn the_first_binding_is_the_outermost_axis() {
    let ty = for_comp_type(&vec![named(phase(), 0), range(3, 10)], dimensionless()).unwrap();
    let fin3 = InferredIndex::from_nat_range_form(NatLinearForm::from_constant(3)).unwrap();
    assert_eq!(
        ty,
        InferredType::Indexed {
            element: Box::new(InferredType::Indexed { element: Box::new(dimensionless()), index: fin3 }),
            index: InferredIndex::from_resolved(phase()),
        }
    );
}

#[test]
fn an_empty_range_is_rejected_and_the_last_one_is_reported() {
    assert_eq!(
        for_comp_type(&vec![range(0, 0), named(phase(), 5), range(0, 10)], dimensionless()),
        Err(ForCompError::InvalidRange { span: Span::new(10, 11) })
    );
}

#[test]
fn a_comprehension_indexed_by_its_own_locals_gives_its_body() {
    let bindings = vec![named(phase(), 0), named(step(), 5), named(slots(), 10), range(3, 15)];
    let ty = for_comp_type(&bindings, InferredType::Bool).unwrap();
    let args: Vec<IndexAccessArg> = bindings
        .iter()
        .map(|b| IndexAccessArg::Local { ty: for_binding_local_type(b, &defs()).unwrap(), span: Span::new(20, 21) })
        .collect();
    assert_eq!(index_access_type(&ty, &args, &defs(), Span::new(0, 30)), Ok(InferredType::Bool));
}
