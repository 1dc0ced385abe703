use graphcal_compiler::declared::DeclaredType;
use graphcal_compiler::dimension::{BaseDimId, Dimension, PreludeBaseDimension};
use graphcal_compiler::index::{DagId, IndexTypeRef, ResolvedName, StructTypeRef, Symbol};
use graphcal_compiler::inline_dag::{
    inline_dag_output_type, InlineDagBinding, InlineDagCallError, InlineDagInterface, InlineDagNode,
    InlineDagParam,
};
use graphcal_compiler::nat_form::NatLinearForm;
use graphcal_compiler::resolved::{
    annotation_accepts, resolved_type_matches_inferred, ResolvedDimArg, ResolvedGenericArg, ResolvedIndex,
    ResolvedTypeExpr,
};
use graphcal_compiler::rules::Span;
use graphcal_compiler::types::{InferredGenericArg, InferredIndex, InferredStructType, InferredType};

fn length() -> Dimension {
    Dimension::base(BaseDimId::Prelude(PreludeBaseDimension::Length))
}

fn time() -> Dimension {
    Dimension::base(BaseDimId::Prelude(PreludeBaseDimension::Time))
}

fn sym(n: u64) -> Symbol {
    Symbol(n)
}

fn region() -> ResolvedName {
    ResolvedName { owner: DagId(1), name: sym(50) }
}

fn span(start: usize) -> Span {
    Span::new(start, start + 1)
}

fn param(name: u64, ty: ResolvedTypeExpr, has_default: bool) -> InlineDagParam {
    InlineDagParam { name: sym(name), ty, has_default }
}

fn node(name: u64, ty: ResolvedTypeExpr, is_pub: bool) -> InlineDagNode {
    InlineDagNode { name: sym(name), ty, is_pub }
}

fn bind(target: u64, found: InferredType, at: usize) -> InlineDagBinding {
    InlineDagBinding { target: sym(target), target_span: span(at), value_span: span(at + 10), found }
}

// Symbols of the DAG `scale`: factor = 1, v = 2, result = 3.
fn scale_dag() -> InlineDagInterface {
    InlineDagInterface {
        params: vec![
            param(1, ResolvedTypeExpr::Dimensionless, false),
            param(2, ResolvedTypeExpr::Quantity(length()), false),
        ],
        nodes: vec![node(3, ResolvedTypeExpr::Quantity(length()), true)],
    }
}

fn dimensionless() -> InferredType {
    InferredType::Quantity(Dimension::dimensionless())
}

#[test]
fn inline_dag_call_basic_returns_output_type() {
    let dag = scale_dag();
    let bindings = vec![bind(1, dimensionless(), 0), bind(2, InferredType::Quantity(length()), 20)];
    let ty = inline_dag_output_type(&dag, &bindings, sym(3), span(40), Span::new(0, 45)).unwrap();
    assert!(annotation_accepts(
        &DeclaredType::Quantity(length()),
        Some(ty),
        &InferredType::Quantity(length()),
    ));
    assert!(!resolved_type_matches_inferred(ty, &InferredType::Quantity(time())));
}

#[test]
fn inline_dag_call_can_project_defaulted_or_bound_param() {
    let dag = InlineDagInterface {
        params: vec![param(1, ResolvedTypeExpr::Dimensionless, true)],
        nodes: Vec::new(),
    };
    let default_factor = inline_dag_output_type(&dag, &Vec::new(), sym(1), span(20), Span::new(0, 25))
        .unwrap();
    assert!(resolved_type_matches_inferred(default_factor, &dimensionless()));
    let bound = vec![bind(1, dimensionless(), 0)];
    let bound_factor = inline_dag_output_type(&dag, &bound, sym(1), span(20), Span::new(0, 25)).unwrap();
    assert!(resolved_type_matches_inferred(bound_factor, &dimensionless()));
}

#[test]
fn inline_dag_call_unknown_param() {
    let dag = InlineDagInterface {
        params: vec![param(2, ResolvedTypeExpr::Quantity(length()), false)],
        nodes: vec![node(3, ResolvedTypeExpr::Quantity(length()), true)],
    };
    let bindings = vec![bind(9, InferredType::Quantity(length()), 5)];
    assert_eq!(
        inline_dag_output_type(&dag, &bindings, sym(3), span(40), Span::new(0, 45)),
        Err(InlineDagCallError::UnknownParam { name: sym(9), span: span(5) })
    );
}

#[test]
fn inline_dag_call_missing_binding() {
    let dag = scale_dag();
    let bindings = vec![bind(2, InferredType::Quantity(length()), 5)];
    assert_eq!(
        inline_dag_output_type(&dag, &bindings, sym(3), span(40), Span::new(0, 45)),
        Err(InlineDagCallError::MissingBindings { missing: vec![sym(1)], span: Span::new(0, 45) })
    );
}

#[test]
fn inline_dag_call_unknown_output() {
    let dag = InlineDagInterface {
        params: vec![param(2, ResolvedTypeExpr::Quantity(length()), false)],
        nodes: vec![node(3, ResolvedTypeExpr::Quantity(length()), false)],
    };
    let bindings = vec![bind(2, InferredType::Quantity(length()), 5)];
    assert_eq!(
        inline_dag_output_type(&dag, &bindings, sym(8), span(40), Span::new(0, 45)),
        Err(InlineDagCallError::UnknownOutput { name: sym(8), span: span(40) })
    );
}

#[test]
fn inline_dag_call_arg_dim_mismatch() {
    let dag = InlineDagInterface {
        params: vec![param(2, ResolvedTypeExpr::Quantity(length()), false)],
        nodes: vec![node(3, ResolvedTypeExpr::Quantity(length()), true)],
    };
    let bindings = vec![bind(2, InferredType::Quantity(time()), 5)];
    assert_eq!(
        inline_dag_output_type(&dag, &bindings, sym(3), span(40), Span::new(0, 45)),
        Err(InlineDagCallError::ArgTypeMismatch { param: sym(2), span: span(15) })
    );
}

#[test]
fn inline_dag_projection_requires_pub() {
    let dag = InlineDagInterface {
        params: vec![param(2, ResolvedTypeExpr::Quantity(length()), false)],
        nodes: vec![node(4, ResolvedTypeExpr::Quantity(length()), false)],
    };
    let bindings = vec![bind(2, InferredType::Quantity(length()), 5)];
    assert_eq!(
        inline_dag_output_type(&dag, &bindings, sym(4), span(40), Span::new(0, 45)),
        Err(InlineDagCallError::PrivateOutput { name: sym(4), span: span(40) })
    );
}

fn region_indexed(element: InferredType) -> InferredType {
    InferredType::Indexed { element: Box::new(element), index: InferredIndex::from_resolved(region()) }
}

#[test]
fn inline_dag_indexed_output_type_flows_through() {
    let length_by_region = || ResolvedTypeExpr::Indexed {
        base: Box::new(ResolvedTypeExpr::Quantity(length())),
        indexes: vec![ResolvedIndex::Concrete(region())],
    };
    let dag = InlineDagInterface {
        params: vec![param(2, length_by_region(), false)],
        nodes: vec![node(3, length_by_region(), true)],
    };
    let bindings = vec![bind(2, region_indexed(InferredType::Quantity(length())), 5)];
    let ty = inline_dag_output_type(&dag, &bindings, sym(3), span(40), Span::new(0, 45)).unwrap();
    assert!(resolved_type_matches_inferred(ty, &region_indexed(InferredType::Quantity(length()))));
    assert!(!resolved_type_matches_inferred(ty, &InferredType::Quantity(length())));
}

#[test]
fn inline_dag_call_inside_for_comp_with_loop_var() {
    // `@dist[r]` inside `for r: Region` is a single length.
    let dag = InlineDagInterface {
        params: vec![param(2, ResolvedTypeExpr::Quantity(length()), false)],
        nodes: vec![node(3, ResolvedTypeExpr::Quantity(length()), true)],
    };
    let bindings = vec![bind(2, InferredType::Quantity(length()), 5)];
    let ty = inline_dag_output_type(&dag, &bindings, sym(3), span(40), Span::new(0, 45)).unwrap();
    assert!(resolved_type_matches_inferred(ty, &InferredType::Quantity(length())));
    assert!(annotation_accepts(
        &DeclaredType::Indexed {
            element: Box::new(DeclaredType::Quantity(length())),
            index: IndexTypeRef::from_resolved(region()),
        },
        None,
        &region_indexed(InferredType::Quantity(length())),
    ));
}

#[test]
fn binding_errors_come_before_missing_parameters() {
    let dag = scale_dag();
    let bindings = vec![bind(2, dimensionless(), 5)];
    assert_eq!(
        inline_dag_output_type(&dag, &bindings, sym(3), span(40), Span::new(0, 45)),
        Err(InlineDagCallError::ArgTypeMismatch { param: sym(2), span: span(15) })
    );
}

#[test]
fn missing_parameters_are_listed_in_declaration_order() {
    let dag = scale_dag();
    assert_eq!(
        inline_dag_output_type(&dag, &Vec::new(), sym(3), span(40), Span::new(0, 45)),
        Err(InlineDagCallError::MissingBindings { missing: vec![sym(1), sym(2)], span: Span::new(0, 45) })
    );
}

#[test]
fn nested_indexed_types_list_axes_outermost_first() {
    let time_axis = ResolvedName { owner: DagId(1), name: sym(51) };
    let resolved = ResolvedTypeExpr::Indexed {
        base: Box::new(ResolvedTypeExpr::Quantity(length())),
        indexes: vec![ResolvedIndex::Concrete(region()), ResolvedIndex::Concrete(time_axis)],
    };
    let inner = InferredType::Indexed {
        element: Box::new(InferredType::Quantity(length())),
        index: InferredIndex::from_resolved(time_axis),
    };
    assert!(resolved_type_matches_inferred(&resolved, &region_indexed(inner)));
    let swapped = InferredType::Indexed {
        element: Box::new(region_indexed(InferredType::Quantity(length()))),
        index: InferredIndex::from_resolved(time_axis),
    };
    assert!(!resolved_type_matches_inferred(&resolved, &swapped));
}

#[test]
fn finite_axes_compare_by_their_forms_and_generic_axes_match_nothing() {
    let finite = ResolvedTypeExpr::IndexArg(ResolvedIndex::Finite(NatLinearForm::from_constant(3)));
    let three = InferredIndex::from_nat_range_form(NatLinearForm::from_constant(3)).unwrap();
    let four = InferredIndex::from_nat_range_form(NatLinearForm::from_constant(4)).unwrap();
    assert!(resolved_type_matches_inferred(&finite, &InferredType::IndexArg(three)));
    assert!(!resolved_type_matches_inferred(&finite, &InferredType::IndexArg(four)));
    let generic = ResolvedTypeExpr::IndexArg(ResolvedIndex::GenericParam(sym(7)));
    let declared = InferredIndex::from_resolved(region());
    assert!(!resolved_type_matches_inferred(&generic, &InferredType::IndexArg(declared)));
}

#[test]
fn generic_struct_arguments_are_compared_pairwise() {
    let orbit = ResolvedName { owner: DagId(1), name: sym(60) };
    let resolved = ResolvedTypeExpr::GenericStruct {
        name: orbit,
        generic_args: vec![
            ResolvedGenericArg::Dim(ResolvedDimArg::Concrete(length())),
            ResolvedGenericArg::Type(ResolvedTypeExpr::Int),
        ],
    };
    let inferred = |d: Dimension| {
        InferredType::Struct(
            InferredStructType::from_ref(StructTypeRef::from_resolved(orbit)),
            vec![InferredGenericArg::Dim(d), InferredGenericArg::Type(InferredType::Int)],
        )
    };
    assert!(resolved_type_matches_inferred(&resolved, &inferred(length())));
    assert!(!resolved_type_matches_inferred(&resolved, &inferred(time())));
    let unbound = ResolvedTypeExpr::GenericStruct {
        name: orbit,
        generic_args: vec![
            ResolvedGenericArg::Dim(ResolvedDimArg::GenericParam(sym(1))),
            ResolvedGenericArg::Type(ResolvedTypeExpr::Int),
        ],
    };
    assert!(!resolved_type_matches_inferred(&unbound, &inferred(length())));
    let plain = ResolvedTypeExpr::Struct(orbit);
    assert!(!resolved_type_matches_inferred(&plain, &inferred(length())));
}

#[test]
fn dimensionless_and_int_accept_their_refinements() {
    assert!(resolved_type_matches_inferred(&ResolvedTypeExpr::Dimensionless, &dimensionless()));
    assert!(!resolved_type_matches_inferred(&ResolvedTypeExpr::Dimensionless, &InferredType::Int));
    assert!(resolved_type_matches_inferred(&ResolvedTypeExpr::Int, &InferredType::Int));
    assert!(!resolved_type_matches_inferred(&ResolvedTypeExpr::Label(region()), &InferredType::Int));
}
