use graphcal_compiler::bound_nat::BoundNatError;
use graphcal_compiler::nat_form::NatParam;
use graphcal_compiler::nat_poly::{evaluate_bound_nat, NatMonomial, NatPolyForm, NatPolyOverflow};
use std::collections::HashMap;

// The parameter `N`, named 0 in its lexical scope, and two generic
// parameters that own a parameter called `N`: one of the enclosing type
// (`Local`) and one of an unrelated type (`Foreign`).
fn n_name() -> u32 {
    0
}

fn local() -> u64 {
    7
}

fn foreign() -> u64 {
    8
}

#[test]
fn bound_nat_resolution_is_lexical_and_preserves_missing_and_overflow_errors() {
    let scope = HashMap::from([(n_name(), local())]);
    let form = NatPolyForm::from_var(n_name());
    let foreign_only = HashMap::from([(foreign(), 99)]);
    assert!(matches!(
        evaluate_bound_nat(&form, &scope, &foreign_only),
        Err(BoundNatError::MissingBinding(id)) if id == local()
    ));
    assert!(matches!(evaluate_bound_nat(&form, &HashMap::new(), &foreign_only), Err(BoundNatError::MissingScope(_))));
    let bindings = HashMap::from([(foreign(), 99), (local(), 3)]);
    assert_eq!(evaluate_bound_nat(&form, &scope, &bindings).unwrap(), 3);
    let square = form.mul(&form).unwrap();
    assert!(matches!(
        evaluate_bound_nat(&square, &scope, &HashMap::from([(local(), u64::MAX)])),
        Err(BoundNatError::Overflow)
    ));
}

#[test]
fn polynomial_forms_evaluate_sums_of_products() {
    let scope = HashMap::from([(0u32, 10u64), (1u32, 11u64)]);
    let bindings = HashMap::from([(10u64, 3u64), (11u64, 5u64)]);
    let n = NatPolyForm::from_var(0);
    let m = NatPolyForm::from_var(1);
    // N * M + N * N + 2
    let nm = n.mul(&m).unwrap();
    let nn = n.mul(&n).unwrap();
    let form = nm.add(&nn).add(&NatPolyForm::constant(2));
    assert_eq!(evaluate_bound_nat(&form, &scope, &bindings), Ok(3 * 5 + 3 * 3 + 2));
    // (N + 1) * (M + 2) = N*M + 2N + M + 2
    let product = n.add(&NatPolyForm::constant(1)).mul(&m.add(&NatPolyForm::constant(2))).unwrap();
    assert_eq!(product.terms.len(), 4);
    assert_eq!(evaluate_bound_nat(&product, &scope, &bindings), Ok(4 * 7));
    assert_eq!(evaluate_bound_nat(&NatPolyForm::constant(42), &HashMap::new(), &HashMap::new()), Ok(42));
}

#[test]
fn product_monomials_multiply_coefficients_and_concatenate_parameters() {
    let a = NatPolyForm { terms: vec![NatMonomial { coefficient: 3, params: vec![0] }] };
    let b = NatPolyForm { terms: vec![NatMonomial { coefficient: 4, params: vec![1, 2] }] };
    assert_eq!(a.mul(&b), Ok(NatPolyForm { terms: vec![NatMonomial { coefficient: 12, params: vec![0, 1, 2] }] }));
    let big = NatPolyForm::constant(u64::MAX);
    assert_eq!(big.mul(&NatPolyForm::constant(2)), Err(NatPolyOverflow));
}

#[test]
fn sums_that_leave_u64_overflow() {
    let scope = HashMap::from([(0u32, 10u64)]);
    let bindings = HashMap::from([(10u64, u64::MAX)]);
    let form = NatPolyForm::from_var(0).add(&NatPolyForm::constant(1));
    assert_eq!(evaluate_bound_nat(&form, &scope, &bindings), Err(BoundNatError::Overflow));
    // A parameter that is not in scope: the first missing name decides.
    let missing = NatPolyForm::from_var(3).add(&NatPolyForm::from_var(0));
    assert_eq!(evaluate_bound_nat(&missing, &scope, &bindings), Err(BoundNatError::MissingScope(NatParam(3))));
}
