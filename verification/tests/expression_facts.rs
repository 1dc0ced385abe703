use graphcal_compiler::declared::DeclaredType;
use graphcal_compiler::expression_facts::{
    matches_constructor_targets, BodyRevision, CheckedExpressionFacts, CheckedExpressionRecord,
    CheckingEnvironment, ConstructorMatch, ContextualOperand, ExpressionFact, ExpressionFactsError,
    ExpressionShape, IndexCardinalities,
};
use graphcal_compiler::hir::{Expr, ExprKind, KeyFormKind, MatchPattern};
use graphcal_compiler::index::{DagId, IndexCardinality, IndexTypeRef, NonEmpty, ResolvedName, Symbol};
use graphcal_compiler::materialized_shape::MaterializedShape;
use graphcal_compiler::rules::{Span, UnaryOp};
use graphcal_compiler::static_index::{StaticIndexRequirement, StaticIndexUse};
use std::collections::HashMap;
use std::sync::Arc;

fn owner() -> DagId {
    DagId(7)
}

fn no_declared_indexes() -> IndexCardinalities {
    IndexCardinalities { entries: Vec::new() }
}

fn publish(
    owner: DagId,
    revision: BodyRevision,
    roots: &[&Expr],
    records: HashMap<u64, Box<CheckedExpressionRecord>>,
) -> Result<CheckedExpressionFacts, ExpressionFactsError> {
    CheckedExpressionFacts::publish(owner, revision, roots, records, &no_declared_indexes())
}

/// `-3`, with identities `base` (the negation) and `base + 1` (the literal).
fn body(base: u64) -> Expr {
    Expr::new(
        base,
        Span::new(0, 1),
        ExprKind::UnaryOp(UnaryOp::Neg),
        vec![Expr::new(base + 1, Span::new(0, 1), ExprKind::Integer(3), vec![])],
    )
}

fn add_rows(
    expr: &Expr,
    environment: &Arc<CheckingEnvironment>,
    records: &mut HashMap<u64, Box<CheckedExpressionRecord>>,
) {
    records.insert(
        expr.id.unwrap(),
        CheckedExpressionRecord::new(
            expr,
            ExpressionFact::Value {
                checked_type: DeclaredType::Int,
                shape: ExpressionShape::Scalar,
                constructor: None,
            },
            Arc::clone(environment),
        )
        .unwrap(),
    );
    for operand in &expr.operands {
        add_rows(operand, environment, records);
    }
}

fn rows(root: &Expr, revision: BodyRevision) -> HashMap<u64, Box<CheckedExpressionRecord>> {
    let environment = CheckingEnvironment::new(owner(), revision);
    let mut records = HashMap::new();
    add_rows(root, &environment, &mut records);
    records
}

fn constructor_symbol(name: &str) -> Symbol {
    match name {
        "First" => Symbol(1),
        "Second" => Symbol(2),
        "Third" => Symbol(3),
        _ => Symbol(4),
    }
}

fn insert_target(
    targets: &mut Vec<(ResolvedName, ConstructorMatch)>,
    key: ResolvedName,
    value: ConstructorMatch,
) {
    match targets.iter().position(|(k, _)| *k == key) {
        Some(i) => targets[i].1 = value,
        None => targets.push((key, value)),
    }
}

fn remove_target(
    targets: &mut Vec<(ResolvedName, ConstructorMatch)>,
    key: ResolvedName,
) -> Option<ConstructorMatch> {
    let i = targets.iter().position(|(k, _)| *k == key)?;
    Some(targets.remove(i).1)
}

#[test]
fn constructor_target_coverage_is_exact_even_with_repeated_references() {
    let constructor = |name: &str| ResolvedName { owner: owner(), name: constructor_symbol(name) };
    let identity = ResolvedName { owner: owner(), name: Symbol(10) };
    let target = |name: &str| ConstructorMatch {
        definition: identity,
        runtime_type: identity,
        constructor: constructor_symbol(name),
    };
    for names in [["First", "Second"], ["First", "First"]] {
        let span = Span::new(0, 1);
        // Isolate target-set coverage from full publication and source typing.
        let seed = body(100);
        let mut record = *rows(&seed, BodyRevision(1)).remove(&seed.id.unwrap()).unwrap();
        let mut arms = vec![Expr::new(200, span, ExprKind::Integer(0), vec![])];
        for (k, _) in names.iter().enumerate() {
            arms.push(Expr::new(201 + k as u64, span, ExprKind::Integer(1), vec![]));
        }
        let body = Expr::new(
            210,
            span,
            ExprKind::Match {
                patterns: names.iter().map(|name| MatchPattern::Constructor(constructor(*name))).collect(),
            },
            arms,
        );
        record.constructor_matches = Vec::new();
        for name in names.iter() {
            insert_target(&mut record.constructor_matches, constructor(*name), target(*name));
        }
        assert!(matches_constructor_targets(&body, &record));
        let first = remove_target(&mut record.constructor_matches, constructor("First")).unwrap();
        assert!(!matches_constructor_targets(&body, &record));
        insert_target(&mut record.constructor_matches, constructor("Third"), target("Third"));
        assert!(!matches_constructor_targets(&body, &record));
        insert_target(&mut record.constructor_matches, constructor("First"), first);
        assert!(!matches_constructor_targets(&body, &record));
    }
}

#[test]
fn every_descendant_requires_a_row_and_extra_rows_are_rejected() {
    let body = body(10);
    let revision = BodyRevision(2);
    let records = rows(&body, revision);
    assert_eq!(records.len(), 2);
    assert!(publish(owner(), revision, &[&body], records.clone()).is_ok());
    for id in records.keys() {
        let mut missing = records.clone();
        missing.remove(id);
        assert!(matches!(
            publish(owner(), revision, &[&body], missing),
            Err(ExpressionFactsError::Missing(_))
        ));
    }
    let other = Expr::new(20, Span::new(0, 1), ExprKind::Integer(4), vec![]);
    let mut extra = records;
    extra.extend(rows(&other, revision));
    assert!(matches!(
        publish(owner(), revision, &[&body], extra),
        Err(ExpressionFactsError::Extra(_))
    ));
}

#[test]
fn publication_rejects_old_semantic_revision_and_rebuilt_source_at_equal_coordinates() {
    let first_body = body(30);
    let rebuilt = body(40);
    let revision = BodyRevision(3);
    assert!(matches!(
        publish(owner(), BodyRevision(4), &[&first_body], rows(&first_body, revision)),
        Err(ExpressionFactsError::WrongEnvironment)
    ));
    assert!(matches!(
        publish(owner(), revision, &[&rebuilt], rows(&first_body, revision)),
        Err(ExpressionFactsError::Missing(_))
    ));
    let facts = publish(owner(), revision, &[&first_body], rows(&first_body, revision)).unwrap();
    assert!(facts.validate_environment(&owner(), &BodyRevision(5)).is_err());
}

#[test]
fn structural_shape_and_contextual_corruption_is_rejected_without_inference() {
    let body = body(50);
    let revision = BodyRevision(6);
    let id = body.id.unwrap();
    let valid_rows = rows(&body, revision);
    let mut wrong_children = valid_rows.clone();
    wrong_children.get_mut(&id).unwrap().children = Arc::new(Vec::new());
    assert!(matches!(
        publish(owner(), revision, &[&body], wrong_children),
        Err(ExpressionFactsError::Incompatible(_))
    ));
    let mut wrong_shape = valid_rows.clone();
    let ExpressionFact::Value { shape, .. } = &mut wrong_shape.get_mut(&id).unwrap().fact else {
        panic!()
    };
    *shape = ExpressionShape::Concrete(
        MaterializedShape::try_new(NonEmpty::new(IndexCardinality::try_from_u64(2).unwrap(), vec![]))
            .unwrap(),
    );
    assert!(matches!(
        publish(owner(), revision, &[&body], wrong_shape),
        Err(ExpressionFactsError::Incompatible(_))
    ));
    let mut unchecked_scalar = valid_rows;
    unchecked_scalar.get_mut(&id).unwrap().fact = ExpressionFact::Contextual(ContextualOperand::String);
    assert!(matches!(
        publish(owner(), revision, &[&body], unchecked_scalar),
        Err(ExpressionFactsError::Incompatible(_))
    ));
}

#[test]
fn publication_rejects_wrong_named_cardinality_and_unnecessary_symbolic_shape() {
    let body = body(60);
    let root = body.id.unwrap();
    let revision = BodyRevision(7);
    let axis_name = Symbol(20);
    let index = IndexTypeRef::with_owner(owner(), axis_name);
    let ty = DeclaredType::Indexed { element: Box::new(DeclaredType::Int), index: index.clone() };
    for expected_size in 1..=8 {
        let cardinality = IndexCardinality::try_from_u64(expected_size).unwrap();
        let sizes = IndexCardinalities {
            entries: vec![(ResolvedName { owner: owner(), name: axis_name }, Some(cardinality))],
        };
        let mut records = rows(&body, revision);
        let wrong_shape = MaterializedShape::try_new(NonEmpty::new(
            IndexCardinality::try_from_u64(expected_size + 1).unwrap(),
            vec![],
        ))
        .unwrap();
        for shape in [ExpressionShape::Concrete(wrong_shape), ExpressionShape::Symbolic(vec![index.clone()])] {
            records.get_mut(&root).unwrap().fact =
                ExpressionFact::Value { checked_type: ty.clone(), shape, constructor: None };
            assert!(
                matches!(CheckedExpressionFacts::publish(owner(), revision, &[&body], records.clone(), &sizes), Err(ExpressionFactsError::Incompatible(id)) if id == root)
            );
        }
    }
}

#[test]
fn contextual_subtype_and_conflicting_origins_are_rejected() {
    let root = Expr::new(70, Span::new(0, 1), ExprKind::IanaTimeZoneLiteral, vec![]);
    let revision = BodyRevision(8);
    for kind in [ContextualOperand::String, ContextualOperand::TimeZone] {
        let row = CheckedExpressionRecord::new(
            &root,
            ExpressionFact::Contextual(kind),
            CheckingEnvironment::new(owner(), revision),
        )
        .unwrap();
        let result = publish(owner(), revision, &[&root], HashMap::from([(root.id.unwrap(), row)]));
        assert_eq!(result.is_ok(), kind == ContextualOperand::TimeZone);
    }
    let root = body(80);
    let records = rows(&root, revision);
    assert!(publish(owner(), revision, &[&root, &root], records.clone()).is_ok());
    let mut relocated = root.clone();
    relocated.span = Span::new(100, 101);
    assert!(matches!(
        publish(owner(), revision, &[&root, &relocated], records),
        Err(ExpressionFactsError::ConflictingOrigin(_))
    ));
}

#[test]
fn static_membership_proof_cannot_be_deleted_misowned_or_invalid() {
    let span = Span::new(0, 1);
    let root = Expr::new(
        90,
        span,
        ExprKind::KeyForm { kind: KeyFormKind::Static },
        vec![Expr::new(91, span, ExprKind::Integer(1), vec![])],
    );
    let revision = BodyRevision(9);
    let axis = IndexTypeRef::from_cardinality(IndexCardinality::try_from_u64(2).unwrap());
    let mut records = rows(&root, revision);
    let id = root.id.unwrap();
    let record = records.get_mut(&id).unwrap();
    record.fact = ExpressionFact::Value {
        checked_type: DeclaredType::Key(axis.clone()),
        shape: ExpressionShape::Scalar,
        constructor: None,
    };
    let operand = record.children()[0];
    record.static_indexes.push(StaticIndexRequirement {
        operand,
        axis,
        position: 1,
        usage: StaticIndexUse::Key,
    });
    publish(owner(), revision, &[&root], records.clone()).unwrap().executable_value(&id).unwrap();
    let mut missing = records.clone();
    missing.get_mut(&id).unwrap().static_indexes.clear();
    assert!(matches!(
        publish(owner(), revision, &[&root], missing),
        Err(ExpressionFactsError::Incompatible(_))
    ));
    let mut foreign = records.clone();
    foreign.get_mut(&id).unwrap().static_indexes[0].operand = body(95).id.unwrap();
    assert!(matches!(
        publish(owner(), revision, &[&root], foreign),
        Err(ExpressionFactsError::Incompatible(_))
    ));
    records.get_mut(&id).unwrap().static_indexes[0].position = 2;
    assert!(matches!(
        publish(owner(), revision, &[&root], records),
        Err(ExpressionFactsError::StaticIndex(_))
    ));
}

#[test]
fn immutable_source_and_fact_publications_are_shared_by_clones() {
    let first_body = body(110);
    let revision = BodyRevision(10);
    let facts = publish(owner(), revision, &[&first_body], rows(&first_body, revision)).unwrap();
    let row = facts.get(&first_body.id.unwrap()).unwrap();
    let independent = row.clone();
    assert!(Arc::ptr_eq(&row.operation, &independent.operation));
    assert!(std::ptr::eq(row.children(), independent.children()));
    let clone = facts.clone();
    assert!(std::ptr::eq(
        facts.get(&first_body.id.unwrap()).unwrap(),
        clone.get(&first_body.id.unwrap()).unwrap()
    ));
}

#[test]
fn diagnostic_relocation_preserves_fact_identity() {
    let first_body = body(120);
    let revision = BodyRevision(11);
    let records = rows(&first_body, revision);
    let mut relocated = first_body.clone();
    relocated.span = Span::new(100, 101);
    let facts = publish(owner(), revision, &[&relocated], records).unwrap();
    assert_eq!(facts.span(&first_body.id.unwrap()).unwrap(), Span::new(100, 101));
    assert_eq!(facts.get(&first_body.id.unwrap()).unwrap().children().len(), 1);
}
