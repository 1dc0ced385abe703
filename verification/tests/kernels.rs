use graphcal_compiler::complex::{infer, ComplexFn, ComplexTypeError};
use graphcal_compiler::dimension::{BaseDimId, Dimension, PreludeBaseDimension};
use graphcal_compiler::index::{IndexCardinality, NonEmpty};
use graphcal_compiler::materialized_shape::{MaterializedShape, MaterializedShapeError, MAX_EAGER_CARDINALITY};
use graphcal_compiler::template_closure::{
    validate, StaticDependency, StaticInputKind, StaticRole, StaticUseContext, TemplateClosureCheck,
};
use graphcal_compiler::types::InferredType;

fn length() -> Dimension {
    Dimension::base(BaseDimId::Prelude(PreludeBaseDimension::Length))
}

#[test]
fn rectangular_requires_matching_dimensions() {
    assert_eq!(
        infer(
            ComplexFn::Rectangular,
            &vec![InferredType::Quantity(length()), InferredType::Quantity(length())],
        ),
        Ok(InferredType::Complex(length()))
    );
    assert!(matches!(
        infer(
            ComplexFn::Rectangular,
            &vec![InferredType::Quantity(length()), InferredType::Quantity(Dimension::dimensionless())],
        ),
        Err(ComplexTypeError::DimensionMismatch { .. })
    ));
}

#[test]
fn exponential_requires_dimensionless_input() {
    assert!(matches!(
        infer(ComplexFn::Exponential, &vec![InferredType::Complex(length())]),
        Err(ComplexTypeError::ExpectedDimensionless { .. })
    ));
    assert_eq!(
        infer(ComplexFn::Exponential, &vec![InferredType::Complex(Dimension::dimensionless())]),
        Ok(InferredType::Complex(Dimension::dimensionless()))
    );
}

fn cardinality(value: u64) -> IndexCardinality {
    IndexCardinality::try_from_u64(value).unwrap()
}

#[test]
fn total_shape_limit_applies_to_the_axis_product() {
    let boundary =
        MaterializedShape::try_new(NonEmpty::new(cardinality(1_000), vec![cardinality(1_000)])).unwrap();
    assert_eq!(boundary.total().get(), MAX_EAGER_CARDINALITY);

    assert!(matches!(
        MaterializedShape::try_new(NonEmpty::new(cardinality(1_000_000), vec![cardinality(1_000_000)])),
        Err(MaterializedShapeError::ExceedsLimit { maximum: MAX_EAGER_CARDINALITY })
    ));
}

#[test]
fn only_optional_default_dependencies_in_template_bodies_are_rejected() {
    for kind in [StaticInputKind::Type, StaticInputKind::Dimension, StaticInputKind::Index] {
        for role in [StaticRole::Fixed, StaticRole::OptionalInput, StaticRole::RequiredInput] {
            for context in [StaticUseContext::ParameterDefault, StaticUseContext::TemplateBody] {
                for dependency in [StaticDependency::Abstract, StaticDependency::DefaultDefinition] {
                    let rejected = role == StaticRole::OptionalInput
                        && context == StaticUseContext::TemplateBody
                        && dependency == StaticDependency::DefaultDefinition;
                    assert_eq!(
                        validate(TemplateClosureCheck { kind, role, context, dependency }).is_err(),
                        rejected
                    );
                }
            }
        }
    }
}
