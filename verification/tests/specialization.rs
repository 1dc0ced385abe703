use graphcal_compiler::bound_nat::{
    bind_index_nats, bind_type_nats, evaluate_bound_linear, BoundNatError, NatBindingError,
};
use graphcal_compiler::declared::{DeclaredGenericArg, DeclaredType};
use graphcal_compiler::index::{
    validate_finite_index, DagId, FiniteIndexObligationError, IndexCardinality, IndexTypeRef,
    StructTypeRef, Symbol,
};
use graphcal_compiler::keys::cartesian_product;
use graphcal_compiler::nat_form::{NatLinearForm, NatParam};
use std::collections::HashMap;

const LOCAL: u64 = 7;
const FOREIGN: u64 = 8;

fn n() -> NatLinearForm {
    NatLinearForm::from_var(NatParam(0))
}

fn fin(form: NatLinearForm) -> IndexTypeRef {
    IndexTypeRef::NatRange(form)
}

fn range(size: u64) -> IndexTypeRef {
    IndexTypeRef::from_cardinality(IndexCardinality::try_from_u64(size).unwrap())
}

#[test]
fn bound_nats_resolve_through_the_lexical_scope() {
    let scope = HashMap::from([(0u32, LOCAL)]);
    let foreign_only = HashMap::from([(FOREIGN, 99u64)]);
    assert_eq!(
        evaluate_bound_linear(&n(), &scope, &foreign_only),
        Err(BoundNatError::MissingBinding(LOCAL))
    );
    assert_eq!(
        evaluate_bound_linear(&n(), &HashMap::new(), &foreign_only),
        Err(BoundNatError::MissingScope(NatParam(0)))
    );
    let bindings = HashMap::from([(FOREIGN, 99u64), (LOCAL, 3u64)]);
    assert_eq!(evaluate_bound_linear(&n(), &scope, &bindings), Ok(3));
    let shifted = n().add(&NatLinearForm::from_constant(5)).unwrap();
    assert_eq!(evaluate_bound_linear(&shifted, &scope, &bindings), Ok(8));
    let twice = n().add(&n()).unwrap();
    assert_eq!(
        evaluate_bound_linear(&twice, &scope, &HashMap::from([(LOCAL, u64::MAX)])),
        Err(BoundNatError::Overflow)
    );
    let constant = NatLinearForm::from_constant(42);
    assert_eq!(evaluate_bound_linear(&constant, &HashMap::new(), &HashMap::new()), Ok(42));
}

#[test]
fn bound_finite_indexes_become_concrete_ranges() {
    let scope = HashMap::from([(0u32, LOCAL)]);
    let four = HashMap::from([(LOCAL, 4u64)]);
    assert_eq!(bind_index_nats(&fin(n()), &scope, &four), Ok(range(4)));
    let zero = HashMap::from([(LOCAL, 0u64)]);
    assert_eq!(
        bind_index_nats(&fin(n()), &scope, &zero),
        Err(NatBindingError::InvalidIndexSize(0))
    );
    let declared = IndexTypeRef::with_owner(DagId(1), Symbol(3));
    assert_eq!(bind_index_nats(&declared, &scope, &zero), Ok(declared.clone()));
}

#[test]
fn bound_types_bind_every_nat_in_source_order() {
    let scope = HashMap::from([(0u32, LOCAL)]);
    let two = HashMap::from([(LOCAL, 2u64)]);
    let indexed = DeclaredType::Indexed { element: Box::new(DeclaredType::Key(fin(n()))), index: fin(n()) };
    assert_eq!(
        bind_type_nats(&indexed, &scope, &two),
        Ok(DeclaredType::Indexed { element: Box::new(DeclaredType::Key(range(2))), index: range(2) })
    );
    let owner = StructTypeRef::with_owner(DagId(1), Symbol(5));
    let declared = IndexTypeRef::with_owner(DagId(1), Symbol(3));
    let generic = DeclaredType::Struct(
        owner,
        vec![
            DeclaredGenericArg::Nat(n()),
            DeclaredGenericArg::Type(DeclaredType::Int),
            DeclaredGenericArg::Index(declared.clone()),
        ],
    );
    assert_eq!(
        bind_type_nats(&generic, &scope, &two),
        Ok(DeclaredType::Struct(
            owner,
            vec![
                DeclaredGenericArg::Nat(NatLinearForm::from_constant(2)),
                DeclaredGenericArg::Type(DeclaredType::Int),
                DeclaredGenericArg::Index(declared),
            ],
        ))
    );
    let unscoped = NatLinearForm::from_var(NatParam(1));
    let element_first = DeclaredType::Indexed {
        element: Box::new(DeclaredType::Key(fin(unscoped))),
        index: fin(n()),
    };
    let zero = HashMap::from([(LOCAL, 0u64)]);
    assert_eq!(
        bind_type_nats(&element_first, &scope, &zero),
        Err(NatBindingError::Bound(BoundNatError::MissingScope(NatParam(1))))
    );
    assert_eq!(bind_type_nats(&DeclaredType::Bool, &scope, &zero), Ok(DeclaredType::Bool));
}

#[test]
fn finite_index_obligations_need_a_constant_nonzero_size() {
    assert!(validate_finite_index(&IndexTypeRef::with_owner(DagId(1), Symbol(3))).is_ok());
    assert!(validate_finite_index(&range(3)).is_ok());
    assert!(matches!(
        validate_finite_index(&fin(n())),
        Err(FiniteIndexObligationError::Unresolved(form)) if form == n()
    ));
    assert!(matches!(
        validate_finite_index(&fin(NatLinearForm::from_constant(0))),
        Err(FiniteIndexObligationError::Empty)
    ));
}

#[test]
fn cartesian_product_lists_every_key_once_in_axis_order() {
    let keys = cartesian_product(&vec![vec![1u64, 2], vec![10u64, 20, 30]]);
    assert_eq!(
        keys,
        vec![vec![1, 10], vec![1, 20], vec![1, 30], vec![2, 10], vec![2, 20], vec![2, 30]]
    );
    let no_axes: Vec<Vec<u64>> = Vec::new();
    assert_eq!(cartesian_product(&no_axes), vec![Vec::<u64>::new()]);
    assert!(cartesian_product(&vec![vec![1u64], Vec::new()]).is_empty());
}
