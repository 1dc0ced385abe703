use graphcal_compiler::builtin_call::BuiltinFnName;
use graphcal_compiler::declared::DeclaredType;
use graphcal_compiler::dimension::{BaseDimId, Dimension, PreludeBaseDimension};
use graphcal_compiler::ctor_generics::{CtorGenericArg, CtorGenericError, CtorGenericParam, GenericDefault};
use graphcal_compiler::expr_typing::{
    display_timezone_node, check_declaration, check_dimensions, check_override_dimension, infer_expr_type, CtorDef, CtorFieldType,
    Declaration, DimError, ExprTypeError, OverrideError, TypingEnv,
};
use graphcal_compiler::fields::ConstructorFieldsError;
use graphcal_compiler::inline_dag::{InlineDagCallError, InlineDagInterface, InlineDagNode, InlineDagParam};
use graphcal_compiler::resolved::ResolvedTypeExpr;
use graphcal_compiler::for_comp::{ForBindingIndex, ForCompError};
use graphcal_compiler::hir::MatchPattern;
use graphcal_compiler::match_arms::MatchArmError;
use graphcal_compiler::scan::ScanError;
use graphcal_compiler::signature::{FunctionSignature, SignatureError};
use graphcal_compiler::unfold::UnfoldAxisError;
use graphcal_compiler::index::StructTypeRef;
use graphcal_compiler::model_schema::TypeGenericConstraint;
use graphcal_compiler::types::{InferredGenericArg, InferredStructType};
use graphcal_compiler::hir::{ConstRef, Expr, ExprKind, FunctionRef, IndexArg};
use graphcal_compiler::index::{DagId, IndexTypeRef, ResolvedName, Symbol};
use graphcal_compiler::index_access::{AxisDef, IndexAccessError};
use graphcal_compiler::rules::{BinOp, MismatchReason, Span, TypeRuleError};
use graphcal_compiler::types::{InferredIndex, InferredType, TimeScale};

fn name(n: u64) -> ResolvedName {
    ResolvedName { owner: DagId(0), name: Symbol(n) }
}

fn length() -> Dimension {
    Dimension::base(BaseDimId::Prelude(PreludeBaseDimension::Length))
}

fn mass() -> Dimension {
    Dimension::base(BaseDimId::Prelude(PreludeBaseDimension::Mass))
}

fn dimensionless() -> DeclaredType {
    DeclaredType::Quantity(Dimension::dimensionless())
}

// Units.
fn km() -> ResolvedName {
    name(1)
}
fn m() -> ResolvedName {
    name(2)
}
fn kg() -> ResolvedName {
    name(3)
}
fn foobar() -> ResolvedName {
    name(4)
}

// Declarations.
fn x() -> ResolvedName {
    name(20)
}
fn by_phase() -> ResolvedName {
    name(21)
}

// The index `Phase = { Coast, Burn }`.
fn phase() -> ResolvedName {
    name(30)
}
fn coast() -> ResolvedName {
    name(31)
}
fn burn() -> ResolvedName {
    name(32)
}

fn env() -> TypingEnv {
    TypingEnv {
        locals: vec![(7u64, InferredType::Int)],
        decls: vec![
            (x(), dimensionless()),
            (
                by_phase(),
                DeclaredType::Indexed { element: Box::new(dimensionless()), index: IndexTypeRef::Declared(phase()) },
            ),
        ],
        units: vec![
            (km(), length()),
            (m(), length()),
            (kg(), mass()),
            (per_second(), Dimension::dimensionless().checked_div(&Dimension::base(BaseDimId::Prelude(PreludeBaseDimension::Time))).unwrap()),
        ],
        variants: vec![(coast(), phase()), (burn(), phase())],
        axis_defs: vec![(phase(), AxisDef::Named), (epoch_grid(), AxisDef::Coordinate(time()))],
        constructors: vec![(orbit_ctor(), orbit_def()), (box_ctor(), box_def())],
        index_variants: vec![(phase(), vec![coast().name, burn().name])],
        signatures: vec![(
            BuiltinFnName::Sqrt,
            FunctionSignature::fixed_to_fixed(Symbol(60), Dimension::dimensionless(), Dimension::dimensionless()),
        )],
        dags: vec![(DagId(70), orbit_dag())],
    }
}

fn velocity() -> Dimension {
    length().checked_div(&Dimension::base(BaseDimId::Prelude(PreludeBaseDimension::Time))).unwrap()
}

// `type Orbit { Orbit(altitude: Length, speed: Velocity) }`
fn orbit_type() -> StructTypeRef {
    StructTypeRef::from_resolved(name(80))
}
fn orbit_ctor() -> ResolvedName {
    name(81)
}
fn altitude() -> Symbol {
    Symbol(82)
}
fn speed() -> Symbol {
    Symbol(83)
}
fn orbit_def() -> CtorDef {
    CtorDef {
        owner: orbit_type(),
        params: Vec::new(),
        fields: vec![
            (altitude(), CtorFieldType::Declared(DeclaredType::Quantity(length()))),
            (speed(), CtorFieldType::Declared(DeclaredType::Quantity(velocity()))),
        ],
    }
}

// `type Box<T: Type = Bool> { Box(value: T) }`
fn box_type() -> StructTypeRef {
    StructTypeRef::from_resolved(name(84))
}
fn box_ctor() -> ResolvedName {
    name(85)
}
fn value_field() -> Symbol {
    Symbol(86)
}
fn box_def() -> CtorDef {
    CtorDef {
        owner: box_type(),
        params: vec![CtorGenericParam {
            constraint: TypeGenericConstraint::Type,
            default: Some(GenericDefault::Concrete(InferredType::Bool)),
        }],
        fields: vec![(value_field(), CtorFieldType::TypeParam(0))],
    }
}

fn ctor_call(callee: ResolvedName, generic_args: Vec<CtorGenericArg>, fields: Vec<Symbol>, values: Vec<Expr>) -> Expr {
    node(90, sp(16, 63), ExprKind::ConstructorCall { callee, generic_args, fields }, values)
}

// A speed literal such as `7.6 km/s`, written with the unit `per_second` (1/s).
fn km_per(id: u64, start: usize) -> Expr {
    node(id, sp(start, start + 10), ExprKind::QuantityLiteral { unit: vec![km(), per_second()] }, Vec::new())
}

fn per_second() -> ResolvedName {
    name(5)
}

fn sp(start: usize, end: usize) -> Span {
    Span::new(start, end)
}

fn node(id: u64, span: Span, kind: ExprKind, operands: Vec<Expr>) -> Expr {
    Expr::new(id, span, kind, operands)
}

fn number(id: u64, span: Span) -> Expr {
    node(id, span, ExprKind::Number, Vec::new())
}

fn quantity(id: u64, span: Span, unit: ResolvedName) -> Expr {
    node(id, span, ExprKind::QuantityLiteral { unit: vec![unit] }, Vec::new())
}

fn decl(n: ResolvedName, annotation: DeclaredType, body: Expr) -> Declaration {
    Declaration { name: n, annotation, annotation_span: sp(0, 4), body: Some(body) }
}

fn quantity_of(d: Dimension) -> InferredType {
    InferredType::Quantity(d)
}

#[test]
fn check_dimensionless_const() {
    // const node g0: Dimensionless = 9.80665;
    let body = number(1, sp(31, 38));
    let e = env();
    assert_eq!(infer_expr_type(&body, &e), Ok(quantity_of(Dimension::dimensionless())));
    let decls = vec![decl(name(50), dimensionless(), body)];
    assert_eq!(check_dimensions(&decls, &e), Ok(()));
}

#[test]
fn check_length_quantity_literal() {
    // param alt: Length = 400.0 km;
    let body = quantity(1, sp(20, 28), km());
    let e = env();
    assert_eq!(infer_expr_type(&body, &e), Ok(quantity_of(length())));
    let decls = vec![decl(name(51), DeclaredType::Quantity(length()), body)];
    assert_eq!(check_dimensions(&decls, &e), Ok(()));
}

fn if_node(cond: Expr, then_branch: Expr, else_branch: Expr) -> Expr {
    node(10, sp(26, 70), ExprKind::If, vec![cond, then_branch, else_branch])
}

fn is_unknown_unit_in(r: Result<(), DimError>, n: ResolvedName) -> bool {
    matches!(r, Err(DimError::Expr { name, error: ExprTypeError::UnknownUnit { .. } }) if name == n)
}

#[test]
fn check_if_error_in_condition() {
    // node bad: Dimensionless = if (1.0 foobar > 0.0) { 1.0 } else { 0.0 };
    let cond = node(5, sp(30, 47), ExprKind::BinOp(BinOp::Gt), vec![quantity(3, sp(30, 40), foobar()), number(4, sp(43, 46))]);
    let body = if_node(cond, number(6, sp(50, 53)), number(7, sp(63, 66)));
    let decls = vec![
        Declaration { name: x(), annotation: dimensionless(), annotation_span: sp(9, 22), body: Some(number(1, sp(25, 28))) },
        decl(name(52), dimensionless(), body),
    ];
    assert!(is_unknown_unit_in(check_dimensions(&decls, &env()), name(52)));
}

#[test]
fn check_if_error_in_then_branch() {
    // node bad: Dimensionless = if true { 1.0 foobar } else { 0.0 };
    let cond = node(5, sp(29, 33), ExprKind::Bool(true), Vec::new());
    let body = if_node(cond, quantity(6, sp(36, 46), foobar()), number(7, sp(56, 59)));
    let decls = vec![decl(name(53), dimensionless(), body)];
    assert!(is_unknown_unit_in(check_dimensions(&decls, &env()), name(53)));
}

#[test]
fn check_if_error_in_else_branch() {
    // node bad: Dimensionless = if true { 0.0 } else { 1.0 foobar };
    let cond = node(5, sp(29, 33), ExprKind::Bool(true), Vec::new());
    let body = if_node(cond, number(6, sp(36, 39)), quantity(7, sp(49, 59), foobar()));
    let decls = vec![decl(name(54), dimensionless(), body)];
    assert!(is_unknown_unit_in(check_dimensions(&decls, &env()), name(54)));
}

#[test]
fn check_convert_error_in_inner() {
    // node bad: Length = (1.0 foobar) -> m;
    let body = node(2, sp(19, 36), ExprKind::Convert { target: vec![m()] }, vec![quantity(1, sp(20, 30), foobar())]);
    let decls = vec![decl(name(55), DeclaredType::Quantity(length()), body)];
    assert!(is_unknown_unit_in(check_dimensions(&decls, &env()), name(55)));
}

#[test]
fn check_aggregation_error_in_arg() {
    // node bad: Dimensionless = sum(1.0 foobar);
    let body = node(
        2,
        sp(26, 42),
        ExprKind::FnCall(FunctionRef::Builtin(BuiltinFnName::Sum)),
        vec![quantity(1, sp(30, 40), foobar())],
    );
    let decls = vec![decl(name(56), dimensionless(), body)];
    assert!(is_unknown_unit_in(check_dimensions(&decls, &env()), name(56)));
}

fn access(label: ResolvedName) -> Expr {
    node(
        3,
        sp(60, 80),
        ExprKind::IndexAccess { args: vec![IndexArg::Variant(label)] },
        vec![node(2, sp(60, 68), ExprKind::GraphRef(by_phase()), Vec::new())],
    )
}

#[test]
fn check_index_access_unknown_variant() {
    // param bad: Dimensionless = @x[Phase.NoSuch];
    let decls = vec![decl(name(57), dimensionless(), access(name(39)))];
    assert!(matches!(
        check_dimensions(&decls, &env()),
        Err(DimError::Expr { error: ExprTypeError::UnknownVariant { .. }, .. })
    ));
}

#[test]
fn index_access_by_label_selects_an_element() {
    let e = env();
    assert_eq!(infer_expr_type(&access(coast()), &e), Ok(quantity_of(Dimension::dimensionless())));
    assert_eq!(infer_expr_type(&access(burn()), &e), Ok(quantity_of(Dimension::dimensionless())));
}

#[test]
fn index_access_with_too_many_labels_is_rejected() {
    let body = node(
        3,
        sp(60, 80),
        ExprKind::IndexAccess { args: vec![IndexArg::Variant(coast()), IndexArg::Variant(burn())] },
        vec![node(2, sp(60, 68), ExprKind::GraphRef(by_phase()), Vec::new())],
    );
    assert!(matches!(
        infer_expr_type(&body, &env()),
        Err(ExprTypeError::Access(IndexAccessError::NotIndexed { .. }))
    ));
}

#[test]
fn adding_kilometres_to_kilograms_is_rejected_at_the_right_operand() {
    // node bad: Length = 1.0 km + 1.0 kg;
    let rhs_span = sp(30, 36);
    let body = node(3, sp(20, 36), ExprKind::BinOp(BinOp::Add), vec![quantity(1, sp(20, 26), km()), quantity(2, rhs_span, kg())]);
    let decls = vec![decl(name(58), DeclaredType::Quantity(length()), body)];
    assert_eq!(
        check_dimensions(&decls, &env()),
        Err(DimError::Expr {
            name: name(58),
            error: ExprTypeError::Rule(TypeRuleError::Mismatch {
                reason: MismatchReason::AdditionDimensionMismatch,
                span: rhs_span,
            }),
        })
    );
}

#[test]
fn adding_kilometres_to_metres_gives_a_length() {
    let body = node(3, sp(20, 36), ExprKind::BinOp(BinOp::Add), vec![quantity(1, sp(20, 26), km()), quantity(2, sp(30, 36), m())]);
    assert_eq!(infer_expr_type(&body, &env()), Ok(quantity_of(length())));
}

#[test]
fn product_of_units_multiplies_dimensions() {
    let body = node(1, sp(0, 8), ExprKind::QuantityLiteral { unit: vec![km(), kg()] }, Vec::new());
    let expected = length().checked_mul(&mass()).unwrap();
    assert_eq!(infer_expr_type(&body, &env()), Ok(quantity_of(expected)));
}

#[test]
fn annotation_mismatch_reports_the_inferred_type() {
    // node y: Mass = 2.0 km;
    let d = decl(name(59), DeclaredType::Quantity(mass()), quantity(1, sp(15, 21), km()));
    assert_eq!(
        check_declaration(&d, &env()),
        Err(DimError::AnnotationMismatch { name: name(59), span: sp(0, 4), inferred: quantity_of(length()) })
    );
}

#[test]
fn program_reports_the_first_rejected_declaration() {
    let decls = vec![
        decl(name(60), dimensionless(), number(1, sp(0, 3))),
        decl(name(61), DeclaredType::Quantity(mass()), quantity(2, sp(5, 11), km())),
        decl(name(62), dimensionless(), quantity(3, sp(15, 25), foobar())),
    ];
    assert!(matches!(
        check_dimensions(&decls, &env()),
        Err(DimError::AnnotationMismatch { name, .. }) if name == name_61()
    ));
}

fn name_61() -> ResolvedName {
    name(61)
}

#[test]
fn parameter_without_default_is_accepted_unchecked() {
    let d = Declaration { name: name(63), annotation: DeclaredType::Quantity(mass()), annotation_span: sp(0, 4), body: None };
    assert_eq!(check_declaration(&d, &env()), Ok(()));
    assert_eq!(check_dimensions(&Vec::new(), &env()), Ok(()));
}

#[test]
fn references_take_their_declared_or_local_types() {
    let e = env();
    let graph = node(1, sp(0, 2), ExprKind::GraphRef(x()), Vec::new());
    assert_eq!(infer_expr_type(&graph, &e), Ok(quantity_of(Dimension::dimensionless())));
    let konst = node(1, sp(0, 2), ExprKind::ConstRef(ConstRef::Decl(by_phase())), Vec::new());
    assert_eq!(
        infer_expr_type(&konst, &e),
        Ok(InferredType::Indexed {
            element: Box::new(quantity_of(Dimension::dimensionless())),
            index: InferredIndex::from_resolved(phase()),
        })
    );
    let local = node(1, sp(0, 2), ExprKind::LocalRef(7), Vec::new());
    assert_eq!(infer_expr_type(&local, &e), Ok(InferredType::Int));
    let label = node(1, sp(0, 2), ExprKind::VariantLiteral(coast()), Vec::new());
    assert_eq!(infer_expr_type(&label, &e), Ok(InferredType::Key(InferredIndex::from_resolved(phase()))));
}

#[test]
fn unknown_names_and_non_values_are_rejected() {
    let e = env();
    let s = sp(3, 9);
    assert_eq!(
        infer_expr_type(&node(1, s, ExprKind::LocalRef(8), Vec::new()), &e),
        Err(ExprTypeError::UnknownLocal { span: s })
    );
    assert_eq!(
        infer_expr_type(&node(1, s, ExprKind::GraphRef(name(99)), Vec::new()), &e),
        Err(ExprTypeError::UnknownDecl { span: s })
    );
    assert_eq!(
        infer_expr_type(&node(1, s, ExprKind::VariantLiteral(name(99)), Vec::new()), &e),
        Err(ExprTypeError::UnknownVariant { span: s })
    );
    assert_eq!(
        infer_expr_type(&node(1, s, ExprKind::StringLiteral, Vec::new()), &e),
        Err(ExprTypeError::StringLiteral { span: s })
    );
    assert_eq!(
        infer_expr_type(&node(1, s, ExprKind::TypeSystemRef, Vec::new()), &e),
        Err(ExprTypeError::TypeSystemRef { span: s })
    );
    assert_eq!(
        infer_expr_type(&node(1, s, ExprKind::OffsetDateTimeLiteral, Vec::new()), &e),
        Err(ExprTypeError::Unsupported { span: s })
    );
}

#[test]
fn malformed_operator_node_is_rejected() {
    let s = sp(0, 5);
    let body = node(2, s, ExprKind::BinOp(BinOp::Add), vec![number(1, sp(0, 1))]);
    assert_eq!(infer_expr_type(&body, &env()), Err(ExprTypeError::Malformed { span: s }));
}

#[test]
fn conversion_keeps_the_target_dimension() {
    let body = node(2, sp(0, 12), ExprKind::Convert { target: vec![m()] }, vec![quantity(1, sp(0, 6), km())]);
    assert_eq!(infer_expr_type(&body, &env()), Ok(quantity_of(length())));
    let wrong = node(2, sp(0, 12), ExprKind::Convert { target: vec![kg()] }, vec![quantity(1, sp(0, 6), km())]);
    assert!(matches!(infer_expr_type(&wrong, &env()), Err(ExprTypeError::Rule(_))));
}

#[test]
fn to_float_of_an_integer_is_dimensionless() {
    let body = node(
        2,
        sp(0, 11),
        ExprKind::FnCall(FunctionRef::Builtin(BuiltinFnName::ToFloat)),
        vec![node(1, sp(9, 10), ExprKind::Integer(2), Vec::new())],
    );
    assert_eq!(infer_expr_type(&body, &env()), Ok(quantity_of(Dimension::dimensionless())));
}

#[test]
fn sum_over_an_indexed_value_gives_its_element() {
    let body = node(
        2,
        sp(0, 11),
        ExprKind::FnCall(FunctionRef::Builtin(BuiltinFnName::Sum)),
        vec![node(1, sp(4, 10), ExprKind::GraphRef(by_phase()), Vec::new())],
    );
    assert_eq!(infer_expr_type(&body, &env()), Ok(quantity_of(Dimension::dimensionless())));
}

#[test]
fn override_must_match_the_declared_parameter_type() {
    let e = env();
    // x: Dimensionless, overridden with 2.0
    assert_eq!(check_override_dimension(&number(1, sp(0, 3)), x(), &e), Ok(()));
    // x overridden with 2.0 km
    let s = sp(0, 6);
    assert_eq!(
        check_override_dimension(&quantity(1, s, km()), x(), &e),
        Err(OverrideError::DimensionMismatch { span: s, inferred: quantity_of(length()) })
    );
    // an unknown unit in the value
    assert!(matches!(
        check_override_dimension(&quantity(1, s, foobar()), x(), &e),
        Err(OverrideError::Expr(ExprTypeError::UnknownUnit { .. }))
    ));
    // an unknown parameter is reported before the value is typed
    assert_eq!(check_override_dimension(&quantity(1, s, foobar()), name(98), &e), Err(OverrideError::UnknownParam));
}

#[test]
fn reduction_functions_have_fixed_arity() {
    // node x: Dimensionless = minimum(1.0, 2.0);
    let s = sp(24, 40);
    let body = node(3, s, ExprKind::FnCall(FunctionRef::Builtin(BuiltinFnName::Min)), vec![number(1, sp(32, 35)), number(2, sp(37, 40))]);
    let decls = vec![decl(name(64), dimensionless(), body)];
    // The registry's `minimum` takes one argument.
    let mut e = env();
    e.signatures.push((
        BuiltinFnName::Min,
        FunctionSignature::fixed_to_fixed(Symbol(62), Dimension::dimensionless(), Dimension::dimensionless()),
    ));
    assert_eq!(
        check_dimensions(&decls, &e),
        Err(DimError::Expr { name: name(64), error: ExprTypeError::WrongArity { expected: 1, got: 2, span: s } })
    );
}

#[test]
fn check_field_access_on_quantity() {
    // param x: Length = 1.0 m;  node bad: Length = @x.foo;
    let mut e = env();
    e.decls.push((name(22), DeclaredType::Quantity(length())));
    let s = sp(40, 46);
    let body = node(2, s, ExprKind::FieldAccess { field: Symbol(70) }, vec![node(1, sp(40, 42), ExprKind::GraphRef(name(22)), Vec::new())]);
    let decls = vec![decl(name(65), DeclaredType::Quantity(length()), body)];
    assert_eq!(
        check_dimensions(&decls, &e),
        Err(DimError::Expr { name: name(65), error: ExprTypeError::NotAStruct { span: sp(40, 42) } })
    );
}

#[test]
fn check_field_access_error_in_inner() {
    // node bad: Length = (1.0 foobar).altitude;
    let body = node(2, sp(19, 40), ExprKind::FieldAccess { field: Symbol(71) }, vec![quantity(1, sp(20, 30), foobar())]);
    let decls = vec![decl(name(66), DeclaredType::Quantity(length()), body)];
    assert!(is_unknown_unit_in(check_dimensions(&decls, &env()), name(66)));
}

#[test]
fn check_struct_construction_error_in_field_value() {
    // node o: Orbit = Orbit(altitude: 1.0 foobar, speed: 7.6 km / s);
    let body = ctor_call(orbit_ctor(), Vec::new(), vec![altitude(), speed()], vec![quantity(2, sp(32, 42), foobar()), km_per(5, 52)]);
    let decls = vec![decl(name(67), DeclaredType::Quantity(length()), body)];
    assert!(is_unknown_unit_in(check_dimensions(&decls, &env()), name(67)));
}

#[test]
fn constructor_call_types_as_its_struct() {
    let body = ctor_call(orbit_ctor(), Vec::new(), vec![speed(), altitude()], vec![km_per(5, 52), quantity(2, sp(32, 38), km())]);
    assert_eq!(
        infer_expr_type(&body, &env()),
        Ok(InferredType::Struct(InferredStructType::from_ref(orbit_type()), Vec::new()))
    );
}

#[test]
fn constructor_field_of_the_wrong_type_is_rejected() {
    let s = sp(32, 38);
    let body = ctor_call(orbit_ctor(), Vec::new(), vec![altitude(), speed()], vec![quantity(2, sp(20, 26), km()), quantity(3, s, kg())]);
    assert_eq!(infer_expr_type(&body, &env()), Err(ExprTypeError::FieldMismatch { field: speed(), span: s }));
}

#[test]
fn constructor_field_names_are_checked_before_values() {
    // A missing field is reported although the value given is not typeable.
    let body = ctor_call(orbit_ctor(), Vec::new(), vec![altitude()], vec![quantity(2, sp(20, 26), foobar())]);
    assert_eq!(
        infer_expr_type(&body, &env()),
        Err(ExprTypeError::Fields(ConstructorFieldsError::MissingFields { names: vec![speed()] }))
    );
    let extra = ctor_call(orbit_ctor(), Vec::new(), vec![altitude(), speed(), Symbol(99)], vec![number(1, sp(0, 1)), number(2, sp(2, 3)), number(3, sp(4, 5))]);
    assert_eq!(
        infer_expr_type(&extra, &env()),
        Err(ExprTypeError::Fields(ConstructorFieldsError::ExtraFields { names: vec![Symbol(99)] }))
    );
    let twice = ctor_call(orbit_ctor(), Vec::new(), vec![altitude(), altitude()], vec![number(1, sp(0, 1)), number(2, sp(2, 3))]);
    assert_eq!(
        infer_expr_type(&twice, &env()),
        Err(ExprTypeError::Fields(ConstructorFieldsError::DuplicateField { position: 1 }))
    );
}

#[test]
fn generic_constructor_binds_its_type_argument() {
    // Box<Length>(value: 2.0 km)
    let explicit = ctor_call(
        box_ctor(),
        vec![CtorGenericArg::Type { ty: quantity_of(length()), span: sp(4, 10) }],
        vec![value_field()],
        vec![quantity(2, sp(20, 26), km())],
    );
    assert_eq!(
        infer_expr_type(&explicit, &env()),
        Ok(InferredType::Struct(
            InferredStructType::from_ref(box_type()),
            vec![InferredGenericArg::Type(quantity_of(length()))]
        ))
    );
    // Box(value: true) takes the default `Bool`.
    let defaulted = ctor_call(box_ctor(), Vec::new(), vec![value_field()], vec![node(2, sp(20, 24), ExprKind::Bool(true), Vec::new())]);
    assert_eq!(
        infer_expr_type(&defaulted, &env()),
        Ok(InferredType::Struct(InferredStructType::from_ref(box_type()), vec![InferredGenericArg::Type(InferredType::Bool)]))
    );
    // Box(value: 2.0 km) does not fit the default.
    let wrong = ctor_call(box_ctor(), Vec::new(), vec![value_field()], vec![quantity(2, sp(20, 26), km())]);
    assert_eq!(infer_expr_type(&wrong, &env()), Err(ExprTypeError::FieldMismatch { field: value_field(), span: sp(20, 26) }));
    // A Nat argument for the type parameter.
    let nat = ctor_call(box_ctor(), vec![CtorGenericArg::Nat { span: sp(4, 5) }], vec![value_field()], vec![number(2, sp(20, 23))]);
    assert_eq!(
        infer_expr_type(&nat, &env()),
        Err(ExprTypeError::CtorGenerics(CtorGenericError::ExpectedType { span: sp(4, 5) }))
    );
    // An unknown constructor.
    let unknown = ctor_call(name(99), Vec::new(), Vec::new(), Vec::new());
    assert_eq!(infer_expr_type(&unknown, &env()), Err(ExprTypeError::UnknownConstructor { span: sp(16, 63) }));
}

fn time() -> Dimension {
    Dimension::base(BaseDimId::Prelude(PreludeBaseDimension::Time))
}

// A coordinate index over time.
fn epoch_grid() -> ResolvedName {
    name(34)
}

fn dimensionless_t() -> InferredType {
    quantity_of(Dimension::dimensionless())
}

fn over_phase(t: InferredType) -> InferredType {
    InferredType::Indexed { element: Box::new(t), index: InferredIndex::from_resolved(phase()) }
}

fn local(id: u64, span: Span) -> Expr {
    node(id, span, ExprKind::LocalRef(id), Vec::new())
}

fn for_phase(body: Expr) -> Expr {
    node(
        40,
        sp(33, 60),
        ExprKind::ForComp { locals: vec![41], indexes: vec![ForBindingIndex::Named { index: phase(), span: sp(40, 45) }] },
        vec![body],
    )
}

#[test]
fn check_for_comp_error_in_body() {
    // node bad: Dimensionless[Phase] = for p: Phase { 1.0 foobar };
    let decls = vec![decl(name(68), dimensionless(), for_phase(quantity(1, sp(48, 58), foobar())))];
    assert!(is_unknown_unit_in(check_dimensions(&decls, &env()), name(68)));
}

#[test]
fn comprehension_indexes_its_body_by_each_binding() {
    assert_eq!(infer_expr_type(&for_phase(number(1, sp(48, 51))), &env()), Ok(over_phase(dimensionless_t())));
    // The loop local is a case of the index and selects along it.
    let access = node(
        3,
        sp(48, 58),
        ExprKind::IndexAccess { args: vec![IndexArg::Operand(1)] },
        vec![node(2, sp(48, 56), ExprKind::GraphRef(by_phase()), Vec::new()), local(41, sp(57, 58))],
    );
    assert_eq!(infer_expr_type(&for_phase(access), &env()), Ok(over_phase(dimensionless_t())));
    let unknown = node(
        40,
        sp(33, 60),
        ExprKind::ForComp { locals: vec![41], indexes: vec![ForBindingIndex::Named { index: name(99), span: sp(40, 45) }] },
        vec![number(1, sp(48, 51))],
    );
    assert_eq!(
        infer_expr_type(&unknown, &env()),
        Err(ExprTypeError::ForComp(ForCompError::UnknownIndex { index: name(99), span: sp(40, 45) }))
    );
}

fn scan_of(source: Expr, init: Expr, body: Expr) -> Expr {
    node(50, sp(33, 90), ExprKind::Scan { acc: 51, item: 52 }, vec![source, init, body])
}

fn acc_plus_val() -> Expr {
    node(55, sp(70, 79), ExprKind::BinOp(BinOp::Add), vec![local(51, sp(70, 73)), local(52, sp(76, 79))])
}

#[test]
fn check_scan_error_in_source() {
    // node bad: Dimensionless[Phase] = scan(1.0 foobar, 0.0, |acc, val| acc + val);
    let body = scan_of(quantity(1, sp(38, 48), foobar()), number(2, sp(50, 53)), acc_plus_val());
    let decls = vec![decl(name(69), dimensionless(), body)];
    assert!(is_unknown_unit_in(check_dimensions(&decls, &env()), name(69)));
}

#[test]
fn scan_accumulates_along_the_source_axis() {
    let by_phase_ref = || node(2, sp(38, 46), ExprKind::GraphRef(by_phase()), Vec::new());
    assert_eq!(
        infer_expr_type(&scan_of(by_phase_ref(), number(3, sp(50, 53)), acc_plus_val()), &env()),
        Ok(over_phase(dimensionless_t()))
    );
    assert_eq!(
        infer_expr_type(&scan_of(by_phase_ref(), quantity(3, sp(50, 56), km()), acc_plus_val()), &env()),
        Err(ExprTypeError::ScanInitMismatch { span: sp(50, 56) })
    );
    assert_eq!(
        infer_expr_type(&scan_of(number(2, sp(38, 41)), number(3, sp(50, 53)), acc_plus_val()), &env()),
        Err(ExprTypeError::Scan(ScanError::SourceNotIndexed { span: sp(38, 41) }))
    );
    assert_eq!(
        infer_expr_type(&scan_of(by_phase_ref(), number(3, sp(50, 53)), node(56, sp(70, 72), ExprKind::Bool(true), Vec::new())), &env()),
        Err(ExprTypeError::Scan(ScanError::BodyMismatch { span: sp(70, 72) }))
    );
}

fn unfold_of(index: ResolvedName, init: Expr, body: Expr) -> Expr {
    node(60, sp(33, 90), ExprKind::Unfold { index, prev: 61, curr: 62 }, vec![init, body])
}

#[test]
fn unfold_indexes_its_state_by_the_coordinate_axis() {
    let ok = unfold_of(epoch_grid(), quantity(1, sp(40, 46), km()), quantity(2, sp(60, 66), m()));
    assert_eq!(
        infer_expr_type(&ok, &env()),
        Ok(InferredType::Indexed { element: Box::new(quantity_of(length())), index: InferredIndex::from_resolved(epoch_grid()) })
    );
    let mismatch = unfold_of(epoch_grid(), quantity(1, sp(40, 46), km()), number(2, sp(60, 63)));
    assert_eq!(infer_expr_type(&mismatch, &env()), Err(ExprTypeError::UnfoldBodyMismatch { span: sp(60, 63) }));
    let named = unfold_of(phase(), number(1, sp(40, 43)), number(2, sp(60, 63)));
    assert_eq!(
        infer_expr_type(&named, &env()),
        Err(ExprTypeError::Unfold(UnfoldAxisError::NotCoordinate { index: phase(), span: sp(60, 63) }))
    );
}

fn match_of(scrutinee: Expr, patterns: Vec<MatchPattern>, bodies: Vec<Expr>) -> Expr {
    let mut operands = vec![scrutinee];
    operands.extend(bodies);
    node(70, sp(20, 99), ExprKind::Match { patterns }, operands)
}

fn coast_literal() -> Expr {
    node(71, sp(26, 37), ExprKind::VariantLiteral(coast()), Vec::new())
}

#[test]
fn label_match_covers_every_label_with_one_arm_type() {
    let ok = match_of(
        coast_literal(),
        vec![MatchPattern::IndexLabel(coast()), MatchPattern::IndexLabel(burn())],
        vec![quantity(72, sp(50, 55), m()), quantity(73, sp(60, 65), km())],
    );
    assert_eq!(infer_expr_type(&ok, &env()), Ok(quantity_of(length())));
    let missing = match_of(coast_literal(), vec![MatchPattern::IndexLabel(coast())], vec![quantity(72, sp(50, 55), m())]);
    assert_eq!(
        infer_expr_type(&missing, &env()),
        Err(ExprTypeError::Match(MatchArmError::NonExhaustive { missing: burn().name, span: sp(20, 99) }))
    );
    let twice = match_of(
        coast_literal(),
        vec![MatchPattern::IndexLabel(coast()), MatchPattern::IndexLabel(coast())],
        vec![number(72, sp(50, 53)), number(73, sp(60, 63))],
    );
    assert_eq!(
        infer_expr_type(&twice, &env()),
        Err(ExprTypeError::Match(MatchArmError::DuplicateArm { name: coast().name, span: sp(60, 63) }))
    );
    let mixed = match_of(
        coast_literal(),
        vec![MatchPattern::IndexLabel(coast()), MatchPattern::IndexLabel(burn())],
        vec![number(72, sp(50, 53)), quantity(73, sp(60, 65), km())],
    );
    assert_eq!(
        infer_expr_type(&mixed, &env()),
        Err(ExprTypeError::Rule(TypeRuleError::Mismatch { reason: MismatchReason::MatchArmMismatch, span: sp(60, 65) }))
    );
}

fn an_orbit() -> Expr {
    ctor_call(orbit_ctor(), Vec::new(), vec![altitude(), speed()], vec![quantity(2, sp(32, 38), km()), km_per(5, 52)])
}

#[test]
fn union_match_takes_constructor_patterns_of_its_type() {
    let ok = match_of(an_orbit(), vec![MatchPattern::Constructor(orbit_ctor())], vec![number(72, sp(70, 73))]);
    assert_eq!(infer_expr_type(&ok, &env()), Ok(dimensionless_t()));
    let foreign = match_of(an_orbit(), vec![MatchPattern::Constructor(box_ctor())], vec![number(72, sp(70, 73))]);
    assert_eq!(
        infer_expr_type(&foreign, &env()),
        Err(ExprTypeError::Match(MatchArmError::ForeignConstructor { member: box_ctor().name, span: sp(70, 73) }))
    );
    let label_arm = match_of(an_orbit(), vec![MatchPattern::IndexLabel(coast())], vec![number(72, sp(70, 73))]);
    assert_eq!(
        infer_expr_type(&label_arm, &env()),
        Err(ExprTypeError::Match(MatchArmError::ConstructorPatternExpected { span: sp(70, 73) }))
    );
    let number_scrutinee = match_of(number(71, sp(26, 29)), Vec::new(), Vec::new());
    assert_eq!(infer_expr_type(&number_scrutinee, &env()), Err(ExprTypeError::NotMatchable { span: sp(26, 29) }));
}

fn call(name_: BuiltinFnName, args: Vec<Expr>) -> Expr {
    node(80, sp(20, 40), ExprKind::FnCall(FunctionRef::Builtin(name_)), args)
}

#[test]
fn built_in_calls_follow_their_dimension_signature() {
    assert_eq!(infer_expr_type(&call(BuiltinFnName::Sqrt, vec![number(81, sp(25, 28))]), &env()), Ok(dimensionless_t()));
    assert!(matches!(
        infer_expr_type(&call(BuiltinFnName::Sqrt, vec![quantity(81, sp(25, 31), km())]), &env()),
        Err(ExprTypeError::Signature(SignatureError::DimensionMismatch { position: 0, .. }))
    ));
    assert_eq!(
        infer_expr_type(&call(BuiltinFnName::Sqrt, vec![node(81, sp(25, 29), ExprKind::Bool(true), Vec::new())]), &env()),
        Err(ExprTypeError::Rule(TypeRuleError::Mismatch { reason: MismatchReason::ExpectedQuantity, span: sp(25, 29) }))
    );
    assert_eq!(
        infer_expr_type(&call(BuiltinFnName::Sqrt, Vec::new()), &env()),
        Err(ExprTypeError::WrongArity { expected: 1, got: 0, span: sp(20, 40) })
    );
}

#[test]
fn check_fn_unknown_function() {
    // param x: Length = 1.0 m;  node y: Length = no_such_fn(@x);  -- a built-in without a signature
    let mut e = env();
    e.decls.push((name(22), DeclaredType::Quantity(length())));
    let body = call(BuiltinFnName::Abs, vec![node(81, sp(30, 32), ExprKind::GraphRef(name(22)), Vec::new())]);
    let decls = vec![decl(name(70), DeclaredType::Quantity(length()), body)];
    assert_eq!(
        check_dimensions(&decls, &e),
        Err(DimError::Expr { name: name(70), error: ExprTypeError::UnknownFunction { span: sp(20, 40) } })
    );
}

#[test]
fn field_access_on_a_record_gives_the_field_type() {
    let altitude_of = |value: Expr, field: Symbol| node(90, sp(20, 70), ExprKind::FieldAccess { field }, vec![value]);
    assert_eq!(infer_expr_type(&altitude_of(an_orbit(), altitude()), &env()), Ok(quantity_of(length())));
    assert_eq!(
        infer_expr_type(&altitude_of(an_orbit(), Symbol(98)), &env()),
        Err(ExprTypeError::UnknownField { field: Symbol(98), span: sp(20, 70) })
    );
    let boxed = ctor_call(
        box_ctor(),
        vec![CtorGenericArg::Type { ty: quantity_of(length()), span: sp(4, 10) }],
        vec![value_field()],
        vec![quantity(2, sp(20, 26), km())],
    );
    assert_eq!(infer_expr_type(&altitude_of(boxed, value_field()), &env()), Ok(quantity_of(length())));
}

// `dag id_len { param v: Length; pub node result: Length = @v; node hidden: Length = @v; }`
fn id_len() -> DagId {
    DagId(70)
}
fn v_param() -> Symbol {
    Symbol(71)
}
fn result_node() -> Symbol {
    Symbol(72)
}
fn hidden_node() -> Symbol {
    Symbol(73)
}
fn orbit_dag() -> InlineDagInterface {
    InlineDagInterface {
        params: vec![InlineDagParam { name: v_param(), ty: ResolvedTypeExpr::Quantity(length()), has_default: false }],
        nodes: vec![
            InlineDagNode { name: result_node(), ty: ResolvedTypeExpr::Quantity(length()), is_pub: true },
            InlineDagNode { name: hidden_node(), ty: ResolvedTypeExpr::Quantity(length()), is_pub: false },
        ],
    }
}

// `@dag(target: 10.0 m).output`
fn dag_call_of(dag: DagId, targets: Vec<Symbol>, output: Symbol) -> Expr {
    let values = targets.iter().enumerate().map(|(i, _)| quantity(91 + i as u64, sp(30, 36), m())).collect();
    node(95, sp(20, 50), ExprKind::DagCall { dag, targets, output }, values)
}

#[test]
fn inline_dag_call_unknown_dag() {
    // node y: Length = @nope(v: @src).result;
    let body = dag_call_of(DagId(99), vec![v_param()], result_node());
    assert_eq!(infer_expr_type(&body, &env()), Err(ExprTypeError::UnknownDag { span: sp(20, 50) }));
    let decls = vec![decl(name(70), DeclaredType::Quantity(length()), body)];
    assert_eq!(
        check_dimensions(&decls, &env()),
        Err(DimError::Expr { name: name(70), error: ExprTypeError::UnknownDag { span: sp(20, 50) } })
    );
}

#[test]
fn inline_dag_call_projects_the_public_node_type() {
    // node y: Length = @id_len(v: 10.0 m).result;
    let body = dag_call_of(id_len(), vec![v_param()], result_node());
    assert_eq!(infer_expr_type(&body, &env()), Ok(quantity_of(length())));
    let decls = vec![decl(name(70), DeclaredType::Quantity(length()), body)];
    assert_eq!(check_dimensions(&decls, &env()), Ok(()));
}

#[test]
fn inline_dag_call_errors_come_from_the_call_rule() {
    assert_eq!(
        infer_expr_type(&dag_call_of(id_len(), vec![Symbol(99)], result_node()), &env()),
        Err(ExprTypeError::InlineDag(InlineDagCallError::UnknownParam { name: Symbol(99), span: sp(30, 36) }))
    );
    assert!(matches!(
        infer_expr_type(&dag_call_of(id_len(), Vec::new(), result_node()), &env()),
        Err(ExprTypeError::InlineDag(InlineDagCallError::MissingBindings { .. }))
    ));
    assert!(matches!(
        infer_expr_type(&dag_call_of(id_len(), vec![v_param()], hidden_node()), &env()),
        Err(ExprTypeError::InlineDag(InlineDagCallError::PrivateOutput { .. }))
    ));
    assert!(matches!(
        infer_expr_type(&dag_call_of(id_len(), vec![v_param()], Symbol(98)), &env()),
        Err(ExprTypeError::InlineDag(InlineDagCallError::UnknownOutput { .. }))
    ));
}

// `from_jd(2451545.0)`, then the extractors and numeric conversions of it.
#[test]
fn datetime_extractors_and_numeric_conversions() {
    let jd = || call(BuiltinFnName::FromJd, vec![number(81, sp(28, 37))]);
    let utc = || InferredType::Datetime(TimeScale::UTC);
    assert_eq!(infer_expr_type(&jd(), &env()), Ok(utc()));
    assert_eq!(infer_expr_type(&call(BuiltinFnName::FromUnix, vec![node(81, sp(30, 32), ExprKind::Integer(0), Vec::new())]), &env()), Ok(utc()));
    assert_eq!(
        infer_expr_type(&call(BuiltinFnName::FromMjd, vec![quantity(81, sp(30, 36), km())]), &env()),
        Err(ExprTypeError::Rule(TypeRuleError::Mismatch { reason: MismatchReason::DatetimeFromNotNumeric, span: sp(30, 36) }))
    );
    assert_eq!(infer_expr_type(&call(BuiltinFnName::Year, vec![jd()]), &env()), Ok(InferredType::Int));
    assert_eq!(infer_expr_type(&call(BuiltinFnName::ToMjd, vec![jd()]), &env()), Ok(dimensionless_t()));
    assert_eq!(
        infer_expr_type(&call(BuiltinFnName::Hour, vec![number(81, sp(25, 28))]), &env()),
        Err(ExprTypeError::Rule(TypeRuleError::Mismatch { reason: MismatchReason::DatetimeArgumentNotDatetime, span: sp(25, 28) }))
    );
    assert_eq!(
        infer_expr_type(&call(BuiltinFnName::ToUnix, Vec::new()), &env()),
        Err(ExprTypeError::WrongArity { expected: 1, got: 0, span: sp(20, 40) })
    );
}

fn string_lit(id: u64, span: Span) -> Expr {
    node(id, span, ExprKind::StringLiteral, Vec::new())
}

#[test]
fn datetime_and_epoch_constructors() {
    // datetime("2026-01-01T00:00:00Z") and datetime("2026-01-01 12:00", "Europe/Paris")
    let text = || string_lit(81, sp(29, 51));
    let utc = InferredType::Datetime(TimeScale::UTC);
    assert_eq!(infer_expr_type(&call(BuiltinFnName::Datetime, vec![text()]), &env()), Ok(utc.clone()));
    assert_eq!(infer_expr_type(&call(BuiltinFnName::Datetime, vec![text(), string_lit(82, sp(53, 67))]), &env()), Ok(utc));
    assert_eq!(
        infer_expr_type(&call(BuiltinFnName::Datetime, vec![number(81, sp(29, 32))]), &env()),
        Err(ExprTypeError::Rule(TypeRuleError::Mismatch { reason: MismatchReason::DatetimeTextNotString, span: sp(29, 32) }))
    );
    assert_eq!(
        infer_expr_type(&call(BuiltinFnName::Datetime, vec![text(), node(82, sp(53, 57), ExprKind::Bool(true), Vec::new())]), &env()),
        Err(ExprTypeError::Rule(TypeRuleError::Mismatch { reason: MismatchReason::DatetimeZoneNotString, span: sp(53, 57) }))
    );
    // An argument that does not type reports its own error first.
    assert_eq!(
        infer_expr_type(&call(BuiltinFnName::Datetime, vec![quantity(81, sp(29, 35), foobar())]), &env()),
        Err(ExprTypeError::UnknownUnit { span: sp(29, 35) })
    );
    assert_eq!(
        infer_expr_type(&call(BuiltinFnName::Datetime, Vec::new()), &env()),
        Err(ExprTypeError::DatetimeArity { got: 0, span: sp(20, 40) })
    );
    // epoch("2000-01-01T12:00:00", TT)
    let tt = || node(82, sp(53, 55), ExprKind::ConstRef(ConstRef::TimeScale(TimeScale::TT)), Vec::new());
    assert_eq!(
        infer_expr_type(&call(BuiltinFnName::Epoch, vec![text(), tt()]), &env()),
        Ok(InferredType::Datetime(TimeScale::TT))
    );
    assert_eq!(
        infer_expr_type(&call(BuiltinFnName::Epoch, vec![text(), number(82, sp(53, 56))]), &env()),
        Err(ExprTypeError::Rule(TypeRuleError::Mismatch { reason: MismatchReason::EpochScaleNotTimeScale, span: sp(53, 56) }))
    );
    assert_eq!(
        infer_expr_type(&call(BuiltinFnName::Epoch, vec![text()]), &env()),
        Err(ExprTypeError::WrongArity { expected: 2, got: 1, span: sp(20, 40) })
    );
    // A time scale is no value.
    assert_eq!(infer_expr_type(&tt(), &env()), Err(ExprTypeError::TimeScaleValue { span: sp(53, 55) }));
}

#[test]
fn nullary_constructor_as_a_value() {
    // type Mode { Coast, Burn }  node m: Mode = Coast;
    let mode = StructTypeRef::from_resolved(name(87));
    let mut e = env();
    e.constructors.push((name(88), CtorDef { owner: mode, params: Vec::new(), fields: Vec::new() }));
    let coast_value = node(1, sp(18, 23), ExprKind::ConstRef(ConstRef::Constructor(name(88))), Vec::new());
    assert_eq!(
        infer_expr_type(&coast_value, &e),
        Ok(InferredType::Struct(InferredStructType::from_resolved(name(87)), Vec::new()))
    );
    // Orbit has fields, so `Orbit` alone is no value.
    let bare_orbit = node(1, sp(18, 23), ExprKind::ConstRef(ConstRef::Constructor(orbit_ctor())), Vec::new());
    assert_eq!(infer_expr_type(&bare_orbit, &e), Err(ExprTypeError::ConstructorNeedsFields { span: sp(18, 23) }));
}

#[test]
fn aggregation_of_a_scalar_falls_back_to_the_signature() {
    // sum(2.0): not indexed, so typed by the registry's signature of `sum`.
    let summed = || call(BuiltinFnName::Sum, vec![number(81, sp(24, 27))]);
    assert_eq!(infer_expr_type(&summed(), &env()), Err(ExprTypeError::UnknownFunction { span: sp(20, 40) }));
    let mut e = env();
    e.signatures.push((
        BuiltinFnName::Sum,
        FunctionSignature::fixed_to_fixed(Symbol(61), Dimension::dimensionless(), Dimension::dimensionless()),
    ));
    assert_eq!(infer_expr_type(&summed(), &e), Ok(dimensionless_t()));
    // sum(@by_phase) reduces the collection.
    let by_phase_ref = node(81, sp(24, 33), ExprKind::GraphRef(by_phase()), Vec::new());
    assert_eq!(infer_expr_type(&call(BuiltinFnName::Sum, vec![by_phase_ref]), &e), Ok(dimensionless_t()));
}

#[test]
fn time_zone_display_keeps_the_datetime_type() {
    // from_jd(2451545.0) -> "Europe/Paris"
    let jd = || call(BuiltinFnName::FromJd, vec![number(81, sp(28, 37))]);
    let shown = |value: Expr, known: bool| node(96, sp(20, 60), ExprKind::DisplayTimezone { zone_known: known }, vec![value]);
    assert_eq!(infer_expr_type(&shown(jd(), true), &env()), Ok(InferredType::Datetime(TimeScale::UTC)));
    assert_eq!(
        infer_expr_type(&shown(jd(), false), &env()),
        Err(ExprTypeError::Rule(TypeRuleError::InvalidTimezone { span: sp(20, 60) }))
    );
    // 1.0 -> "UTC": the value is checked before the zone.
    let shown_number = display_timezone_node(96, sp(20, 60), number(81, sp(20, 23)), "UTC");
    assert_eq!(shown_number.operands.len(), 1);
    assert_eq!(
        infer_expr_type(&shown_number, &env()),
        Err(ExprTypeError::Rule(TypeRuleError::Mismatch { reason: MismatchReason::DisplayTimezoneNotDatetime, span: sp(20, 23) }))
    );
}
