use graphcal_compiler::expression_facts::NominalObservation;
use graphcal_compiler::index::{DagId, IndexTypeRef, ResolvedName, Symbol};
use graphcal_compiler::nat_form::NatLinearForm;
use graphcal_compiler::reconciliation::{
    check_retained_reconciliations, OverrideKind, OverrideReconciliation, OverrideTarget, RetainedOverride,
};
use graphcal_compiler::rules::Span;

fn name(owner: u64, n: u64) -> ResolvedName {
    ResolvedName { owner: DagId(owner), name: Symbol(n) }
}

fn record_override() -> OverrideTarget {
    OverrideTarget::Type { overridden: Symbol(1), source: name(1, 10), replacement: name(2, 20) }
}

fn axis_override() -> OverrideTarget {
    OverrideTarget::Index {
        overridden: Symbol(2),
        source: name(1, 30),
        replacement: IndexTypeRef::from_resolved(name(2, 40)),
    }
}

fn reconciliation(targets: Vec<OverrideTarget>) -> OverrideReconciliation {
    OverrideReconciliation { orphan_decl: Symbol(99), include_span: Span::new(5, 25), targets }
}

#[test]
fn unrelated_observations_are_retained() {
    let recs = vec![reconciliation(vec![record_override(), axis_override()])];
    let observations = vec![
        NominalObservation::TypeArgument(name(1, 11)),
        NominalObservation::IndexArgument(IndexTypeRef::from_resolved(name(1, 31))),
        NominalObservation::Field { identity: name(1, 30), field: Symbol(7) },
    ];
    assert_eq!(check_retained_reconciliations(&recs, &observations), Ok(()));
}

#[test]
fn observing_the_overridden_type_is_rejected() {
    let recs = vec![reconciliation(vec![record_override()])];
    let observations = vec![NominalObservation::Field { identity: name(1, 10), field: Symbol(7) }];
    assert_eq!(
        check_retained_reconciliations(&recs, &observations),
        Err(RetainedOverride {
            overridden: Symbol(1),
            kind: OverrideKind::Type,
            orphan_decl: Symbol(99),
            reconciliation: 0,
            target: 0,
            observation: 0,
            span: Span::new(5, 25),
        })
    );
}

#[test]
fn observing_the_replacement_is_rejected_too() {
    let recs = vec![reconciliation(vec![record_override()])];
    let observations = vec![NominalObservation::Constructor { identity: name(2, 20), constructor: name(2, 21) }];
    assert!(matches!(
        check_retained_reconciliations(&recs, &observations),
        Err(RetainedOverride { kind: OverrideKind::Type, observation: 0, .. })
    ));
}

#[test]
fn index_overrides_see_labels_and_index_arguments() {
    let recs = vec![reconciliation(vec![axis_override()])];
    let label = vec![NominalObservation::IndexLabel {
        identity: IndexTypeRef::from_resolved(name(1, 30)),
        variant: Symbol(3),
    }];
    assert!(matches!(
        check_retained_reconciliations(&recs, &label),
        Err(RetainedOverride { overridden: Symbol(2), kind: OverrideKind::Index, .. })
    ));
    let argument = vec![NominalObservation::IndexArgument(IndexTypeRef::from_resolved(name(2, 40)))];
    assert!(check_retained_reconciliations(&recs, &argument).is_err());
    let range = vec![NominalObservation::IndexArgument(IndexTypeRef::NatRange(NatLinearForm::from_constant(3)))];
    assert_eq!(check_retained_reconciliations(&recs, &range), Ok(()));
}

#[test]
fn type_overrides_ignore_index_observations_and_conversely() {
    let recs = vec![reconciliation(vec![record_override(), axis_override()])];
    let observations = vec![
        NominalObservation::IndexArgument(IndexTypeRef::from_resolved(name(1, 10))),
        NominalObservation::TypeArgument(name(1, 30)),
    ];
    assert_eq!(check_retained_reconciliations(&recs, &observations), Ok(()));
}

#[test]
fn the_first_clash_in_scan_order_is_reported() {
    let recs = vec![
        reconciliation(vec![axis_override()]),
        reconciliation(vec![record_override(), axis_override()]),
    ];
    let observations = vec![
        NominalObservation::TypeArgument(name(1, 10)),
        NominalObservation::IndexArgument(IndexTypeRef::from_resolved(name(1, 30))),
    ];
    assert_eq!(
        check_retained_reconciliations(&recs, &observations),
        Err(RetainedOverride {
            overridden: Symbol(2),
            kind: OverrideKind::Index,
            orphan_decl: Symbol(99),
            reconciliation: 0,
            target: 0,
            observation: 1,
            span: Span::new(5, 25),
        })
    );
}
