use graphcal_compiler::ctor_generics::{
    resolve_constructor_generic_args, CtorGenericArg, CtorGenericError, CtorGenericParam, GenericDefault,
};
use graphcal_compiler::dimension::{BaseDimId, Dimension, PreludeBaseDimension};
use graphcal_compiler::model_schema::TypeGenericConstraint;
use graphcal_compiler::rules::Span;
use graphcal_compiler::types::InferredType;

fn length() -> InferredType {
    InferredType::Quantity(Dimension::base(BaseDimId::Prelude(PreludeBaseDimension::Length)))
}

fn param(constraint: TypeGenericConstraint, default: Option<GenericDefault>) -> CtorGenericParam {
    CtorGenericParam { constraint, default }
}

fn ty(t: InferredType, at: usize) -> CtorGenericArg {
    CtorGenericArg::Type { ty: t, span: Span::new(at, at + 1) }
}

fn call() -> Span {
    Span::new(0, 20)
}

#[test]
fn no_parameters_and_no_arguments_bind_nothing() {
    assert_eq!(resolve_constructor_generic_args(&Vec::new(), &Vec::new(), call()), Ok(Vec::new()));
}

#[test]
fn written_arguments_then_defaults_fill_every_parameter() {
    // type Pair<A: Type, B: Type = A, C: Type = Bool>; Pair<Length>(...)
    let params = vec![
        param(TypeGenericConstraint::Type, None),
        param(TypeGenericConstraint::Type, Some(GenericDefault::Param(0))),
        param(TypeGenericConstraint::Type, Some(GenericDefault::Concrete(InferredType::Bool))),
    ];
    assert_eq!(
        resolve_constructor_generic_args(&params, &vec![ty(length(), 5)], call()),
        Ok(vec![length(), length(), InferredType::Bool])
    );
    assert_eq!(
        resolve_constructor_generic_args(&params, &vec![ty(length(), 5), ty(InferredType::Int, 7)], call()),
        Ok(vec![length(), InferredType::Int, InferredType::Bool])
    );
}

#[test]
fn argument_count_outside_the_accepted_range_is_rejected() {
    let params = vec![param(TypeGenericConstraint::Dim, None), param(TypeGenericConstraint::Type, None)];
    assert_eq!(
        resolve_constructor_generic_args(&params, &vec![ty(length(), 5)], call()),
        Err(CtorGenericError::Arity { required: 2, total: 2, got: 1, span: call() })
    );
    let three = vec![ty(length(), 5), ty(length(), 7), ty(length(), 9)];
    assert_eq!(
        resolve_constructor_generic_args(&params, &three, call()),
        Err(CtorGenericError::Arity { required: 2, total: 2, got: 3, span: call() })
    );
}

#[test]
fn nat_parameters_and_arguments_are_rejected_by_sort() {
    let nat_param = vec![param(TypeGenericConstraint::Nat, None)];
    let nat_arg = Span::new(3, 4);
    assert_eq!(
        resolve_constructor_generic_args(&nat_param, &vec![CtorGenericArg::Nat { span: nat_arg }], call()),
        Err(CtorGenericError::NatInValueType { span: nat_arg })
    );
    assert_eq!(
        resolve_constructor_generic_args(&nat_param, &vec![ty(length(), 5)], call()),
        Err(CtorGenericError::ExpectedNat { span: Span::new(5, 6) })
    );
    let type_param = vec![param(TypeGenericConstraint::Type, None)];
    assert_eq!(
        resolve_constructor_generic_args(&type_param, &vec![CtorGenericArg::Nat { span: nat_arg }], call()),
        Err(CtorGenericError::ExpectedType { span: nat_arg })
    );
    assert_eq!(
        resolve_constructor_generic_args(&type_param, &vec![CtorGenericArg::UnboundParam { span: nat_arg }], call()),
        Err(CtorGenericError::UnboundParam { span: nat_arg })
    );
}

#[test]
fn the_first_rejected_argument_decides() {
    let params = vec![param(TypeGenericConstraint::Type, None), param(TypeGenericConstraint::Nat, None)];
    let args = vec![CtorGenericArg::Nat { span: Span::new(1, 2) }, ty(length(), 5)];
    assert_eq!(
        resolve_constructor_generic_args(&params, &args, call()),
        Err(CtorGenericError::ExpectedType { span: Span::new(1, 2) })
    );
}

#[test]
fn defaults_that_cannot_be_filled_are_rejected() {
    // A parameter without a default after one with a default.
    let params = vec![
        param(TypeGenericConstraint::Type, Some(GenericDefault::Concrete(InferredType::Int))),
        param(TypeGenericConstraint::Type, None),
    ];
    assert_eq!(
        resolve_constructor_generic_args(&params, &Vec::new(), call()),
        Err(CtorGenericError::MissingDefault { span: call() })
    );
    // A default that repeats a later parameter.
    let params = vec![param(TypeGenericConstraint::Type, Some(GenericDefault::Param(1))), param(TypeGenericConstraint::Type, None)];
    assert_eq!(
        resolve_constructor_generic_args(&params, &Vec::new(), call()),
        Err(CtorGenericError::UnboundDefault { span: call() })
    );
}
