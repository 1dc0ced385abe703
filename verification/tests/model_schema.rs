use graphcal_compiler::declared::{DeclaredGenericArg, DeclaredType};
use graphcal_compiler::dimension::Dimension;
use graphcal_compiler::index::{DagId, IndexTypeRef, ResolvedName, StructTypeRef, Symbol};
use graphcal_compiler::model_schema::{
    ConcreteModelType, ConcreteModelTypeError, FieldBound, FieldDef, FieldType, GenericParam, IndexDef, SchemaEnv, TypeDef,
    TypeDefKind, TypeGenericConstraint, UnionMemberDef,
};
use graphcal_compiler::domain_bounds::DomainBoundError;
use graphcal_compiler::nat_form::NatLinearForm;
use graphcal_compiler::rules::Span;
use graphcal_compiler::types::InferredType;
use graphcal_compiler::dimension::{BaseDimId, PreludeBaseDimension};

fn name(n: u64) -> ResolvedName {
    ResolvedName { owner: DagId(1), name: Symbol(n) }
}

fn param(n: u64, constraint: TypeGenericConstraint) -> GenericParam {
    GenericParam { name: Symbol(n), constraint }
}

fn union(params: Vec<GenericParam>, member: u64, fields: Vec<FieldDef>) -> TypeDef {
    TypeDef { generic_params: params, kind: TypeDefKind::Union { members: vec![UnionMemberDef { name: Symbol(member), fields }] } }
}

// `pub type Phantom<N: Nat> { Phantom }`
fn phantom_env() -> SchemaEnv {
    SchemaEnv {
        struct_types: vec![(name(20), union(vec![param(1, TypeGenericConstraint::Nat)], 20, Vec::new()))],
        index_defs: Vec::new(),
    }
}

fn phantom() -> StructTypeRef {
    StructTypeRef::from_resolved(name(20))
}

fn one() -> DeclaredGenericArg {
    DeclaredGenericArg::Nat(NatLinearForm::from_constant(1))
}

#[test]
fn model_schema_type_rejects_too_few_and_too_many_args_for_phantom_generic() {
    let env = phantom_env();
    let generic_args = vec![one()];
    assert_eq!(generic_args.len(), 1);
    assert!(ConcreteModelType::try_new(&env, &phantom(), &generic_args).is_ok());

    let too_few = ConcreteModelType::try_new(&env, &phantom(), &Vec::new()).unwrap_err();
    assert!(matches!(too_few, ConcreteModelTypeError::GenericArityMismatch { expected: 1, actual: 0, .. }));

    let too_many = ConcreteModelType::try_new(&env, &phantom(), &vec![one(), one()]).unwrap_err();
    assert!(matches!(too_many, ConcreteModelTypeError::GenericArityMismatch { expected: 1, actual: 2, .. }));
}

#[test]
fn model_schema_type_rejects_wrong_generic_sort_before_expansion() {
    let env = phantom_env();
    let error = ConcreteModelType::try_new(&env, &phantom(), &vec![DeclaredGenericArg::Type(DeclaredType::Int)])
        .unwrap_err();
    assert!(matches!(
        error,
        ConcreteModelTypeError::GenericSortMismatch {
            expected: TypeGenericConstraint::Nat,
            actual: TypeGenericConstraint::Type,
            ..
        }
    ));
}

#[test]
fn model_schema_type_accepts_complete_defaulted_args_from_compiler() {
    // `pub type Defaults<N: Nat = 2, T: Type = Int> { Defaults(value: T) }`;
    // defaults are filled in before the application reaches the schema.
    let env = SchemaEnv {
        struct_types: vec![(
            name(21),
            union(
                vec![param(1, TypeGenericConstraint::Nat), param(2, TypeGenericConstraint::Type)],
                21,
                vec![FieldDef { name: Symbol(3), field_type: FieldType::Declared(DeclaredType::Int), bounds: Vec::new() }],
            ),
        )],
        index_defs: Vec::new(),
    };
    let identity = StructTypeRef::from_resolved(name(21));
    let generic_args = vec![DeclaredGenericArg::Nat(NatLinearForm::from_constant(2)), DeclaredGenericArg::Type(DeclaredType::Int)];
    assert_eq!(generic_args.len(), 2);
    let omitted_defaults = ConcreteModelType::try_new(&env, &identity, &Vec::new()).unwrap_err();
    assert!(matches!(
        omitted_defaults,
        ConcreteModelTypeError::GenericArityMismatch { expected: 2, actual: 0, .. }
    ));
    let model_type = ConcreteModelType::try_new(&env, &identity, &generic_args).unwrap();
    assert_eq!(model_type.identity(), &identity);
    assert_eq!(model_type.generic_args().len(), 2);
}

#[test]
fn model_schema_required_indexes_have_distinct_validated_and_concrete_states() {
    // `pub(bind) index Axis;` with `pub type Vector<I: Index> { Vector(values: Dimensionless[I]) }`.
    let axis = name(30);
    let env = SchemaEnv {
        struct_types: vec![(
            name(22),
            union(
                vec![param(1, TypeGenericConstraint::Index)],
                22,
                vec![FieldDef {
                    name: Symbol(4),
                    field_type: FieldType::Declared(DeclaredType::Indexed {
                        element: Box::new(DeclaredType::Quantity(Dimension::dimensionless())),
                        index: IndexTypeRef::from_resolved(axis),
                    }),
                    bounds: Vec::new(),
                }],
            ),
        )],
        index_defs: vec![(axis, IndexDef { required: true })],
    };
    let identity = StructTypeRef::from_resolved(name(22));
    let generic_args = vec![DeclaredGenericArg::Index(IndexTypeRef::from_resolved(axis))];
    let error = ConcreteModelType::try_new(&env, &identity, &generic_args).unwrap_err();
    assert!(matches!(error, ConcreteModelTypeError::RequiredIndex { .. }));
}

fn base(p: PreludeBaseDimension) -> Dimension {
    Dimension::base(BaseDimId::Prelude(p))
}

// `pub type Box<D: Dim> { Box(x: D(min: 0.5 m)) }`
fn box_env() -> SchemaEnv {
    SchemaEnv {
        struct_types: vec![(
            name(23),
            union(
                vec![param(1, TypeGenericConstraint::Dim)],
                23,
                vec![FieldDef {
                    name: Symbol(5),
                    field_type: FieldType::DimParam(0),
                    bounds: vec![FieldBound {
                        value: InferredType::Quantity(base(PreludeBaseDimension::Length)),
                        span: Span::new(40, 45),
                    }],
                }],
            ),
        )],
        index_defs: Vec::new(),
    }
}

#[test]
fn model_schema_rejects_undischarged_generic_field_obligation() {
    let identity = StructTypeRef::from_resolved(name(23));
    let generic_args = vec![DeclaredGenericArg::Dim(base(PreludeBaseDimension::Time))];
    let error = ConcreteModelType::try_new(&box_env(), &identity, &generic_args).unwrap_err();
    assert!(
        matches!(error, ConcreteModelTypeError::DomainBound { error: DomainBoundError::DimensionMismatch, .. }),
        "got: {error:?}"
    );
}

#[test]
fn field_obligations_that_fit_after_substitution_are_accepted() {
    let identity = StructTypeRef::from_resolved(name(23));
    let generic_args = vec![DeclaredGenericArg::Dim(base(PreludeBaseDimension::Length))];
    assert!(ConcreteModelType::try_new(&box_env(), &identity, &generic_args).is_ok());
}

#[test]
fn bounded_fields_of_types_without_numeric_bounds_are_rejected() {
    let env = SchemaEnv {
        struct_types: vec![(
            name(24),
            union(
                Vec::new(),
                24,
                vec![FieldDef {
                    name: Symbol(6),
                    field_type: FieldType::Declared(DeclaredType::Bool),
                    bounds: vec![FieldBound { value: InferredType::Bool, span: Span::new(10, 14) }],
                }],
            ),
        )],
        index_defs: Vec::new(),
    };
    let identity = StructTypeRef::from_resolved(name(24));
    assert!(matches!(
        ConcreteModelType::try_new(&env, &identity, &Vec::new()),
        Err(ConcreteModelTypeError::InvalidDomainTarget { field: Symbol(6), .. })
    ));
}

#[test]
fn constructors_substitute_dimension_arguments_into_field_types() {
    let identity = StructTypeRef::from_resolved(name(23));
    let generic_args = vec![DeclaredGenericArg::Dim(base(PreludeBaseDimension::Length))];
    let env = box_env();
    let concrete = ConcreteModelType::try_new(&env, &identity, &generic_args).unwrap();
    let constructors = concrete.constructors(&env).unwrap();
    assert_eq!(constructors.len(), 1);
    assert_eq!(*constructors[0].name(), Symbol(23));
    let fields = constructors[0].fields();
    assert_eq!(fields.len(), 1);
    assert_eq!(*fields[0].name(), Symbol(5));
    assert_eq!(*fields[0].declared_type(), DeclaredType::Quantity(base(PreludeBaseDimension::Length)));
}

#[test]
fn constructors_keep_fields_without_generic_parameters() {
    // `pub type Defaults<N: Nat = 2, T: Type = Int> { Defaults(count: Int) }`
    let env = SchemaEnv {
        struct_types: vec![(
            name(25),
            union(
                vec![param(1, TypeGenericConstraint::Nat)],
                25,
                vec![FieldDef { name: Symbol(6), field_type: FieldType::Declared(DeclaredType::Int), bounds: Vec::new() }],
            ),
        )],
        index_defs: Vec::new(),
    };
    let identity = StructTypeRef::from_resolved(name(25));
    let concrete = ConcreteModelType::try_new(&env, &identity, &vec![one()]).unwrap();
    let constructors = concrete.constructors(&env).unwrap();
    assert_eq!(*constructors[0].fields()[0].declared_type(), DeclaredType::Int);
    // The same application against a schema that lacks the type.
    let empty = SchemaEnv { struct_types: Vec::new(), index_defs: Vec::new() };
    assert!(matches!(concrete.constructors(&empty), Err(ConcreteModelTypeError::UnknownType { .. })));
}
