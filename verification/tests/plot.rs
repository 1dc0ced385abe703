use graphcal_compiler::dimension::{BaseDimId, Dimension, PreludeBaseDimension};
use graphcal_compiler::index::{DagId, IndexTypeRef, ResolvedName, StructTypeRef, Symbol};
use graphcal_compiler::plot::{
    check_plot_references, check_property_field, check_property_fields, encoding_channel_shape,
    plot_channel_shape, CompositionDecl, CompositionKind, LoweredPlotProperty, PlotChannelShape,
    PlotDeclarations, PlotLeafKind, PlotPropertyError, PlotPropertyField, PlotPropertyType, PlotReference,
    PlotReferenceError, PlotValue, PropertyContext, PropertyFamily, PropertyFound,
};
use graphcal_compiler::rules::Span;
use graphcal_compiler::types::{InferredIndex, InferredStructType, InferredType, TimeScale};

fn length() -> Dimension {
    Dimension::base(BaseDimId::Prelude(PreludeBaseDimension::Length))
}

fn dimensionless() -> InferredType {
    InferredType::Quantity(Dimension::dimensionless())
}

fn index(n: u64) -> ResolvedName {
    ResolvedName { owner: DagId(1), name: Symbol(n) }
}

fn indexed(element: InferredType, n: u64) -> InferredType {
    InferredType::Indexed { element: Box::new(element), index: InferredIndex::from_resolved(index(n)) }
}

#[test]
fn check_rejects_non_plottable_encoding_leaves() {
    let pair = InferredType::Struct(
        InferredStructType::from_ref(StructTypeRef::from_resolved(index(70))),
        Vec::new(),
    );
    assert_eq!(plot_channel_shape(&pair), None);
    let complex = InferredType::Complex(Dimension::dimensionless());
    assert_eq!(plot_channel_shape(&complex), None);
    assert_eq!(plot_channel_shape(&indexed(complex, 50)), None);
}

#[test]
fn check_accepts_every_plottable_leaf_kind() {
    let phase = index(50);
    assert_eq!(
        encoding_channel_shape(&PlotValue::StringLiteral),
        Some(PlotChannelShape { axes: Vec::new(), leaf: PlotLeafKind::ContextualString })
    );
    assert_eq!(
        plot_channel_shape(&InferredType::Quantity(length())),
        Some(PlotChannelShape { axes: Vec::new(), leaf: PlotLeafKind::Quantity(length()) })
    );
    assert_eq!(
        plot_channel_shape(&InferredType::Bool),
        Some(PlotChannelShape { axes: Vec::new(), leaf: PlotLeafKind::Bool })
    );
    assert_eq!(
        plot_channel_shape(&InferredType::Int),
        Some(PlotChannelShape { axes: Vec::new(), leaf: PlotLeafKind::Int })
    );
    assert_eq!(
        plot_channel_shape(&InferredType::Datetime(TimeScale::UTC)),
        Some(PlotChannelShape { axes: Vec::new(), leaf: PlotLeafKind::Datetime(TimeScale::UTC) })
    );
    assert_eq!(
        plot_channel_shape(&InferredType::Key(InferredIndex::from_resolved(phase))),
        Some(PlotChannelShape {
            axes: Vec::new(),
            leaf: PlotLeafKind::Key(IndexTypeRef::from_resolved(phase)),
        })
    );
}

#[test]
fn channel_axes_are_listed_outermost_first() {
    let shape = plot_channel_shape(&indexed(indexed(dimensionless(), 51), 50)).unwrap();
    assert_eq!(
        shape,
        PlotChannelShape {
            axes: vec![IndexTypeRef::from_resolved(index(50)), IndexTypeRef::from_resolved(index(51))],
            leaf: PlotLeafKind::Quantity(Dimension::dimensionless()),
        }
    );
}

// Property names.
fn title() -> Symbol {
    Symbol(1)
}

fn width() -> Symbol {
    Symbol(2)
}

fn plot_prop(name: Symbol, value_type: PlotPropertyType) -> LoweredPlotProperty {
    LoweredPlotProperty { name, family: PropertyFamily::Plot, value_type }
}

fn mark_prop(name: Symbol, value_type: PlotPropertyType) -> LoweredPlotProperty {
    LoweredPlotProperty { name, family: PropertyFamily::Mark, value_type }
}

fn composition_width() -> LoweredPlotProperty {
    LoweredPlotProperty {
        name: width(),
        family: PropertyFamily::Composition { applies_to_figure: false },
        value_type: PlotPropertyType::PositiveNumber,
    }
}

fn composition_title() -> LoweredPlotProperty {
    LoweredPlotProperty {
        name: title(),
        family: PropertyFamily::Composition { applies_to_figure: true },
        value_type: PlotPropertyType::String,
    }
}

fn unknown(name: Symbol) -> LoweredPlotProperty {
    LoweredPlotProperty { name, family: PropertyFamily::Unknown, value_type: PlotPropertyType::String }
}

fn field(property: LoweredPlotProperty, value: PlotValue) -> PlotPropertyField {
    PlotPropertyField { property, name_span: Span::new(10, 15), value, value_span: Span::new(17, 21) }
}

#[test]
fn check_unknown_plot_property_is_rejected() {
    let caption = field(unknown(Symbol(4)), PlotValue::StringLiteral);
    assert_eq!(
        check_property_field(PropertyContext::PlotDeclaration, &caption),
        Err(PlotPropertyError::Invalid {
            property: Symbol(4),
            context: PropertyContext::PlotDeclaration,
            span: Span::new(10, 15),
        })
    );
}

#[test]
fn check_unknown_mark_property_is_rejected() {
    let strokewidth = field(unknown(Symbol(9)), PlotValue::Expression(dimensionless()));
    assert!(matches!(
        check_property_field(PropertyContext::MarkBlock, &strokewidth),
        Err(PlotPropertyError::Invalid { property: Symbol(9), context: PropertyContext::MarkBlock, .. })
    ));
}

#[test]
fn check_string_property_with_number_value_is_rejected() {
    let f = field(plot_prop(title(), PlotPropertyType::String), PlotValue::Expression(dimensionless()));
    assert_eq!(
        check_property_field(PropertyContext::PlotDeclaration, &f),
        Err(PlotPropertyError::TypeMismatch {
            property: title(),
            expected: PlotPropertyType::String,
            found: PropertyFound::NotAStringLiteral,
            span: Span::new(17, 21),
        })
    );
}

#[test]
fn check_numeric_property_with_string_value_is_rejected() {
    let f = field(plot_prop(width(), PlotPropertyType::PositiveNumber), PlotValue::StringLiteral);
    assert_eq!(
        check_property_field(PropertyContext::PlotDeclaration, &f),
        Err(PlotPropertyError::TypeMismatch {
            property: width(),
            expected: PlotPropertyType::PositiveNumber,
            found: PropertyFound::StringLiteral,
            span: Span::new(17, 21),
        })
    );
}

#[test]
fn check_dimensioned_mark_property_is_rejected() {
    let stroke_width = Symbol(5);
    let f = field(
        mark_prop(stroke_width, PlotPropertyType::Number),
        PlotValue::Expression(InferredType::Quantity(length())),
    );
    assert_eq!(
        check_property_field(PropertyContext::MarkBlock, &f),
        Err(PlotPropertyError::Dimensioned { property: stroke_width, span: Span::new(17, 21) })
    );
}

#[test]
fn check_figure_width_is_rejected() {
    let f = field(composition_width(), PlotValue::Expression(dimensionless()));
    assert_eq!(
        check_property_field(PropertyContext::FigureDeclaration, &f),
        Err(PlotPropertyError::Invalid {
            property: width(),
            context: PropertyContext::FigureDeclaration,
            span: Span::new(10, 15),
        })
    );
}

#[test]
fn check_layer_width_is_accepted() {
    let fields = vec![
        field(composition_width(), PlotValue::Expression(dimensionless())),
        field(composition_title(), PlotValue::StringLiteral),
    ];
    assert_eq!(check_property_fields(PropertyContext::LayerDeclaration, &fields), Ok(()));
}

#[test]
fn check_valid_plot_properties_pass() {
    let mark = vec![
        field(mark_prop(Symbol(5), PlotPropertyType::Number), PlotValue::Expression(dimensionless())),
        field(mark_prop(Symbol(6), PlotPropertyType::Number), PlotValue::Expression(dimensionless())),
        field(mark_prop(Symbol(7), PlotPropertyType::String), PlotValue::StringLiteral),
        field(mark_prop(Symbol(8), PlotPropertyType::Bool), PlotValue::Expression(InferredType::Bool)),
    ];
    assert_eq!(check_property_fields(PropertyContext::MarkBlock, &mark), Ok(()));
    let plot = vec![
        field(plot_prop(title(), PlotPropertyType::String), PlotValue::StringLiteral),
        field(plot_prop(width(), PlotPropertyType::PositiveNumber), PlotValue::Expression(dimensionless())),
        field(plot_prop(Symbol(3), PlotPropertyType::String), PlotValue::StringLiteral),
    ];
    assert_eq!(check_property_fields(PropertyContext::PlotDeclaration, &plot), Ok(()));
}

#[test]
fn numeric_properties_accept_int_and_reject_other_values() {
    let int = field(plot_prop(width(), PlotPropertyType::Number), PlotValue::Expression(InferredType::Int));
    assert_eq!(check_property_field(PropertyContext::PlotDeclaration, &int), Ok(()));
    let flag = field(plot_prop(width(), PlotPropertyType::Number), PlotValue::Expression(InferredType::Bool));
    assert!(matches!(
        check_property_field(PropertyContext::PlotDeclaration, &flag),
        Err(PlotPropertyError::TypeMismatch { found: PropertyFound::OtherType, .. })
    ));
    let number = field(mark_prop(Symbol(8), PlotPropertyType::Bool), PlotValue::Expression(InferredType::Int));
    assert!(matches!(
        check_property_field(PropertyContext::MarkBlock, &number),
        Err(PlotPropertyError::TypeMismatch { expected: PlotPropertyType::Bool, .. })
    ));
}

#[test]
fn the_first_rejected_property_is_reported() {
    let fields = vec![
        field(plot_prop(title(), PlotPropertyType::String), PlotValue::StringLiteral),
        field(unknown(Symbol(4)), PlotValue::StringLiteral),
        field(plot_prop(width(), PlotPropertyType::Number), PlotValue::StringLiteral),
    ];
    assert!(matches!(
        check_property_fields(PropertyContext::PlotDeclaration, &fields),
        Err(PlotPropertyError::Invalid { property: Symbol(4), .. })
    ));
}

// Declaration names.
fn reference(name: u64, at: usize) -> PlotReference {
    PlotReference { name: Symbol(name), span: Span::new(at, at + 1) }
}

fn composition(name: u64, plots: Vec<PlotReference>) -> CompositionDecl {
    CompositionDecl { name: Symbol(name), plots }
}

#[test]
fn check_unknown_plot_reference_is_rejected() {
    let d = PlotDeclarations {
        plots: vec![Symbol(1)],
        included_plots: Vec::new(),
        figures: vec![composition(10, vec![reference(1, 20), reference(2, 30)])],
        layers: Vec::new(),
    };
    assert_eq!(
        check_plot_references(&d),
        Err(PlotReferenceError::Unknown {
            owner_kind: CompositionKind::Figure,
            owner: Symbol(10),
            name: Symbol(2),
            span: Span::new(30, 31),
        })
    );
}

#[test]
fn check_figure_referencing_figure_is_rejected() {
    let d = PlotDeclarations {
        plots: vec![Symbol(1)],
        included_plots: Vec::new(),
        figures: vec![composition(10, vec![reference(1, 20)]), composition(11, vec![reference(10, 40)])],
        layers: Vec::new(),
    };
    assert_eq!(
        check_plot_references(&d),
        Err(PlotReferenceError::NotAPlot {
            owner_kind: CompositionKind::Figure,
            actual_kind: CompositionKind::Figure,
            name: Symbol(10),
            span: Span::new(40, 41),
        })
    );
}

#[test]
fn check_duplicate_plot_reference_is_rejected() {
    let d = PlotDeclarations {
        plots: vec![Symbol(1)],
        included_plots: Vec::new(),
        figures: vec![composition(10, vec![reference(1, 20), reference(1, 25)])],
        layers: Vec::new(),
    };
    assert_eq!(
        check_plot_references(&d),
        Err(PlotReferenceError::Duplicate {
            owner_kind: CompositionKind::Figure,
            owner: Symbol(10),
            name: Symbol(1),
            span: Span::new(25, 26),
        })
    );
}

#[test]
fn check_valid_plot_references_pass() {
    let d = PlotDeclarations {
        plots: vec![Symbol(1), Symbol(2)],
        included_plots: Vec::new(),
        figures: vec![composition(10, vec![reference(1, 20), reference(2, 25)])],
        layers: vec![composition(12, vec![reference(1, 40), reference(2, 45)])],
    };
    assert_eq!(check_plot_references(&d), Ok(()));
}

#[test]
fn layers_may_list_included_plots_but_not_layers() {
    let d = PlotDeclarations {
        plots: Vec::new(),
        included_plots: vec![Symbol(3)],
        figures: Vec::new(),
        layers: vec![composition(12, vec![reference(3, 40)]), composition(13, vec![reference(12, 50)])],
    };
    assert_eq!(
        check_plot_references(&d),
        Err(PlotReferenceError::NotAPlot {
            owner_kind: CompositionKind::Layer,
            actual_kind: CompositionKind::Layer,
            name: Symbol(12),
            span: Span::new(50, 51),
        })
    );
}

#[test]
fn figures_are_checked_before_layers() {
    let d = PlotDeclarations {
        plots: Vec::new(),
        included_plots: Vec::new(),
        figures: vec![composition(10, vec![reference(7, 20)])],
        layers: vec![composition(12, vec![reference(8, 10)])],
    };
    assert!(matches!(
        check_plot_references(&d),
        Err(PlotReferenceError::Unknown { owner_kind: CompositionKind::Figure, .. })
    ));
}

#[test]
fn a_channel_over_a_built_collection_ranges_over_its_axes() {
    let axes = vec![InferredIndex::from_resolved(index(50)), InferredIndex::from_resolved(index(51))];
    let collection = graphcal_compiler::keys::indexed_over(InferredType::Bool, axes);
    assert_eq!(
        plot_channel_shape(&collection),
        Some(PlotChannelShape {
            axes: vec![IndexTypeRef::from_resolved(index(50)), IndexTypeRef::from_resolved(index(51))],
            leaf: PlotLeafKind::Bool,
        })
    );
}
