//! Static validation of plot encodings and plot-family declarations.
//!
//! Every encoding channel reduces to a plottable leaf and the index axes it
//! ranges over; figure and layer declarations must list distinct plots; and
//! each property of a plot, mark block, figure or layer must belong there and
//! carry a value of its expected kind.

use crate::dimension::Dimension;
use crate::index::{IndexRefV, IndexTypeRef, Symbol};
use crate::rules::Span;
use crate::types::{InferredType, TimeScale, TypeV};
use vstd::prelude::*;

verus! {

broadcast use vstd::std_specs::vec::axiom_vec_index_decreases;

/// The value a channel plots once its axes are peeled off.
#[derive(Debug, PartialEq, Eq)]
pub enum PlotLeafKind {
    Quantity(Dimension),
    Bool,
    Int,
    Datetime(TimeScale),
    Key(IndexTypeRef),
    /// A string literal, which only labels and has no axes.
    ContextualString,
}

/// Value-level view of a leaf.
pub enum LeafV {
    Quantity(Seq<(int, int)>),
    Bool,
    Int,
    Datetime(TimeScale),
    Key(IndexRefV),
    ContextualString,
}

impl View for PlotLeafKind {
    type V = LeafV;

    open spec fn view(&self) -> LeafV {
        match self {
            PlotLeafKind::Quantity(d) => LeafV::Quantity(d@),
            PlotLeafKind::Bool => LeafV::Bool,
            PlotLeafKind::Int => LeafV::Int,
            PlotLeafKind::Datetime(s) => LeafV::Datetime(*s),
            PlotLeafKind::Key(i) => LeafV::Key(i@),
            PlotLeafKind::ContextualString => LeafV::ContextualString,
        }
    }
}

/// The axes of one channel, outermost first, and its leaf.
#[derive(Debug, PartialEq, Eq)]
pub struct PlotChannelShape {
    pub axes: Vec<IndexTypeRef>,
    pub leaf: PlotLeafKind,
}

/// The leaf of a non-indexed type, if it can be plotted.  Integer-like
/// values plot as integers, keys and named-index loop cases as keys of their
/// axis, and coordinate labels as their quantity.
pub open spec fn leaf_v(t: TypeV) -> Option<LeafV> {
    match t {
        TypeV::Quantity(d) => Some(LeafV::Quantity(d)),
        TypeV::CoordinateIndexLabel(d, _) => Some(LeafV::Quantity(d)),
        TypeV::Bool => Some(LeafV::Bool),
        TypeV::Int => Some(LeafV::Int),
        TypeV::Fin(_) => Some(LeafV::Int),
        TypeV::Datetime(s) => Some(LeafV::Datetime(s)),
        TypeV::Key(i) => Some(LeafV::Key(i)),
        TypeV::NamedIndexCase(i) => Some(LeafV::Key(i)),
        _ => None,
    }
}

/// The axes of a type, outermost first, down to its first non-indexed
/// element.
pub open spec fn axes_v(t: TypeV) -> Seq<IndexRefV>
    decreases t,
{
    match t {
        TypeV::Indexed(e, i) => seq![i] + axes_v(*e),
        _ => Seq::empty(),
    }
}

/// The first non-indexed element of a type.
pub open spec fn element_v(t: TypeV) -> TypeV
    decreases t,
{
    match t {
        TypeV::Indexed(e, _) => element_v(*e),
        _ => t,
    }
}

/// Identities of a list of axes.
pub open spec fn axes_view(axes: Seq<IndexTypeRef>) -> Seq<IndexRefV> {
    axes.map_values(|i: IndexTypeRef| i@)
}

/// The shape of a channel that plots a value of the given type, or `None`
/// when its leaf cannot be plotted.
pub fn plot_channel_shape(inferred: &InferredType) -> (r: Option<PlotChannelShape>)
    ensures
        r is Some <==> leaf_v(element_v(inferred@)) is Some,
        r matches Some(s) ==> Some(s.leaf@) == leaf_v(element_v(inferred@)) && axes_view(s.axes@)
            == axes_v(inferred@),
{
    let mut axes: Vec<IndexTypeRef> = Vec::new();
    let mut current: &InferredType = inferred;
    loop
        invariant
            axes_view(axes@) + axes_v(current@) == axes_v(inferred@),
            element_v(current@) == element_v(inferred@),
        ensures
            axes_view(axes@) + axes_v(current@) == axes_v(inferred@),
            element_v(current@) == element_v(inferred@),
            !(current@ is Indexed),
        decreases current,
    {
        match current {
            InferredType::Indexed { element, index } => {
                let axis = index.type_ref().clone();
                proof {
                    assert(axes_view(axes@.push(axis)) =~= axes_view(axes@).push(index@));
                    assert(axes_v(current@) == seq![index@] + axes_v(element@));
                    assert(axes_view(axes@).push(index@) + axes_v(element@) =~= axes_view(axes@)
                        + (seq![index@] + axes_v(element@)));
                }
                axes.push(axis);
                current = element;
            },
            _ => {
                break ;
            },
        }
    }
    proof {
        assert(axes_v(current@) =~= Seq::<IndexRefV>::empty());
        assert(axes_view(axes@) + axes_v(current@) =~= axes_view(axes@));
    }
    let leaf = match current {
        InferredType::Quantity(d) => PlotLeafKind::Quantity(d.clone()),
        InferredType::CoordinateIndexLabel { dimension, .. } => PlotLeafKind::Quantity(dimension.clone()),
        InferredType::Bool => PlotLeafKind::Bool,
        InferredType::Int | InferredType::Fin(_) => PlotLeafKind::Int,
        InferredType::Datetime(s) => PlotLeafKind::Datetime(*s),
        InferredType::Key(i) | InferredType::NamedIndexCase(i) => PlotLeafKind::Key(i.type_ref().clone()),
        _ => return None,
    };
    Some(PlotChannelShape { axes, leaf })
}

/// The value of an encoding channel: a string literal, or an expression
/// with its inferred type.
#[derive(Debug)]
pub enum PlotValue {
    StringLiteral,
    Expression(InferredType),
}

/// The shape of an encoding channel; string literals label without axes.
pub fn encoding_channel_shape(value: &PlotValue) -> (r: Option<PlotChannelShape>)
    ensures
        match value {
            PlotValue::StringLiteral => r matches Some(s) && s.axes@.len() == 0 && s.leaf
                == PlotLeafKind::ContextualString,
            PlotValue::Expression(t) => (r is Some <==> leaf_v(element_v(t@)) is Some) && (
            r matches Some(s) ==> Some(s.leaf@) == leaf_v(element_v(t@)) && axes_view(s.axes@)
                == axes_v(t@)),
        },
{
    match value {
        PlotValue::StringLiteral => Some(
            PlotChannelShape { axes: Vec::new(), leaf: PlotLeafKind::ContextualString },
        ),
        PlotValue::Expression(t) => plot_channel_shape(t),
    }
}

// ---------------------------------------------------------------------------
// Figure and layer plot references
// ---------------------------------------------------------------------------

/// The two declarations that compose plots.
#[derive(Clone, Copy, Debug, PartialEq, Eq, Structural)]
pub enum CompositionKind {
    Figure,
    Layer,
}

/// One entry of a `plots:` list.
#[derive(Clone, Copy, Debug, PartialEq, Eq, Structural)]
pub struct PlotReference {
    pub name: Symbol,
    pub span: Span,
}

/// A figure or layer with its `plots:` list.
#[derive(Debug)]
pub struct CompositionDecl {
    pub name: Symbol,
    pub plots: Vec<PlotReference>,
}

/// The plot-family declarations of one DAG.
#[derive(Debug)]
pub struct PlotDeclarations {
    /// Plots declared in the DAG.
    pub plots: Vec<Symbol>,
    /// Plots brought in by includes.
    pub included_plots: Vec<Symbol>,
    pub figures: Vec<CompositionDecl>,
    pub layers: Vec<CompositionDecl>,
}

/// Why a `plots:` list is rejected.
#[derive(Clone, Copy, Debug, PartialEq, Eq, Structural)]
pub enum PlotReferenceError {
    /// The entry names no plot, figure or layer.
    Unknown { owner_kind: CompositionKind, owner: Symbol, name: Symbol, span: Span },
    /// The entry names a figure or layer instead of a plot.
    NotAPlot { owner_kind: CompositionKind, actual_kind: CompositionKind, name: Symbol, span: Span },
    /// The entry repeats an earlier entry of the same list.
    Duplicate { owner_kind: CompositionKind, owner: Symbol, name: Symbol, span: Span },
}

pub open spec fn names_composition(cs: Seq<CompositionDecl>, name: Symbol) -> bool {
    exists|k: int| 0 <= k < cs.len() && #[trigger] cs[k].name == name
}

pub open spec fn is_known_plot(d: PlotDeclarations, name: Symbol) -> bool {
    d.plots@.contains(name) || d.included_plots@.contains(name)
}

/// The error for entry `i` of composition `c`, if any.
pub open spec fn reference_error_v(
    d: PlotDeclarations,
    kind: CompositionKind,
    c: CompositionDecl,
    i: int,
) -> Option<PlotReferenceError> {
    let r = c.plots@[i];
    if !is_known_plot(d, r.name) {
        if names_composition(d.figures@, r.name) {
            Some(
                PlotReferenceError::NotAPlot {
                    owner_kind: kind,
                    actual_kind: CompositionKind::Figure,
                    name: r.name,
                    span: r.span,
                },
            )
        } else if names_composition(d.layers@, r.name) {
            Some(
                PlotReferenceError::NotAPlot {
                    owner_kind: kind,
                    actual_kind: CompositionKind::Layer,
                    name: r.name,
                    span: r.span,
                },
            )
        } else {
            Some(PlotReferenceError::Unknown { owner_kind: kind, owner: c.name, name: r.name, span: r.span })
        }
    } else if exists|j: int| 0 <= j < i && #[trigger] c.plots@[j].name == r.name {
        Some(PlotReferenceError::Duplicate { owner_kind: kind, owner: c.name, name: r.name, span: r.span })
    } else {
        None
    }
}

/// Entry `i` of composition `a` in `cs` is a valid position.
pub open spec fn entry_in(cs: Seq<CompositionDecl>, a: int, i: int) -> bool {
    0 <= a < cs.len() && 0 <= i < cs[a].plots@.len()
}

fn contains_symbol(v: &Vec<Symbol>, s: Symbol) -> (b: bool)
    ensures
        b == v@.contains(s),
{
    let mut k: usize = 0;
    while k < v.len()
        invariant
            k <= v@.len(),
            forall|j: int| 0 <= j < k ==> v@[j] != s,
        decreases v@.len() - k,
    {
        if v[k] == s {
            return true;
        }
        k += 1;
    }
    false
}

fn names_any(cs: &Vec<CompositionDecl>, s: Symbol) -> (b: bool)
    ensures
        b == names_composition(cs@, s),
{
    let mut k: usize = 0;
    while k < cs.len()
        invariant
            k <= cs@.len(),
            forall|j: int| 0 <= j < k ==> #[trigger] cs@[j].name != s,
        decreases cs@.len() - k,
    {
        if cs[k].name == s {
            return true;
        }
        k += 1;
    }
    false
}

fn reference_error(d: &PlotDeclarations, kind: CompositionKind, c: &CompositionDecl, i: usize) -> (r:
    Option<PlotReferenceError>)
    requires
        i < c.plots@.len(),
    ensures
        r == reference_error_v(*d, kind, *c, i as int),
{
    let r = c.plots[i];
    if !(contains_symbol(&d.plots, r.name) || contains_symbol(&d.included_plots, r.name)) {
        if names_any(&d.figures, r.name) {
            return Some(
                PlotReferenceError::NotAPlot {
                    owner_kind: kind,
                    actual_kind: CompositionKind::Figure,
                    name: r.name,
                    span: r.span,
                },
            );
        } else if names_any(&d.layers, r.name) {
            return Some(
                PlotReferenceError::NotAPlot {
                    owner_kind: kind,
                    actual_kind: CompositionKind::Layer,
                    name: r.name,
                    span: r.span,
                },
            );
        }
        return Some(PlotReferenceError::Unknown { owner_kind: kind, owner: c.name, name: r.name, span: r.span });
    }
    let mut j: usize = 0;
    while j < i
        invariant
            i < c.plots@.len(),
            r == c.plots@[i as int],
            is_known_plot(*d, r.name),
            j <= i,
            forall|k: int| 0 <= k < j ==> #[trigger] c.plots@[k].name != r.name,
        decreases i - j,
    {
        if c.plots[j].name == r.name {
            proof {
                assert(c.plots@[j as int].name == r.name);
            }
            return Some(
                PlotReferenceError::Duplicate { owner_kind: kind, owner: c.name, name: r.name, span: r.span },
            );
        }
        j += 1;
    }
    None
}

fn check_compositions(d: &PlotDeclarations, kind: CompositionKind, cs: &Vec<CompositionDecl>) -> (r:
    Result<(), PlotReferenceError>)
    ensures
        r is Ok <==> forall|a: int, i: int| #[trigger] entry_in(cs@, a, i) ==> reference_error_v(
            *d,
            kind,
            cs@[a],
            i,
        ) is None,
        r matches Err(e) ==> exists|a: int, i: int|
            {
                &&& #[trigger] entry_in(cs@, a, i)
                &&& reference_error_v(*d, kind, cs@[a], i) == Some(e)
                &&& forall|x: int, y: int| #[trigger]
                    entry_in(cs@, x, y) && (x < a || (x == a && y < i)) ==> reference_error_v(
                        *d,
                        kind,
                        cs@[x],
                        y,
                    ) is None
            },
{
    let mut a: usize = 0;
    while a < cs.len()
        invariant
            a <= cs@.len(),
            forall|x: int, y: int| #[trigger] entry_in(cs@, x, y) && x < a ==> reference_error_v(
                *d,
                kind,
                cs@[x],
                y,
            ) is None,
        decreases cs@.len() - a,
    {
        let c = &cs[a];
        let mut i: usize = 0;
        while i < c.plots.len()
            invariant
                a < cs@.len(),
                *c == cs@[a as int],
                i <= c.plots@.len(),
                forall|x: int, y: int| #[trigger] entry_in(cs@, x, y) && x < a ==> reference_error_v(
                    *d,
                    kind,
                    cs@[x],
                    y,
                ) is None,
                forall|y: int| 0 <= y < i ==> reference_error_v(*d, kind, *c, y) is None,
            decreases c.plots@.len() - i,
        {
            match reference_error(d, kind, c, i) {
                Some(e) => {
                    proof {
                        assert(entry_in(cs@, a as int, i as int));
                    }
                    return Err(e);
                },
                None => {},
            }
            i += 1;
        }
        a += 1;
    }
    Ok(())
}

/// The outcome of checking every `plots:` list: figures first, then
/// layers, each list in order.
pub open spec fn references_ok_v(d: PlotDeclarations, kind: CompositionKind, cs: Seq<CompositionDecl>) -> bool {
    forall|a: int, i: int| #[trigger] entry_in(cs, a, i) ==> reference_error_v(d, kind, cs[a], i) is None
}

/// `e` is the first error of the lists `cs` of the given kind.
pub open spec fn first_reference_error(
    d: PlotDeclarations,
    kind: CompositionKind,
    cs: Seq<CompositionDecl>,
    e: PlotReferenceError,
) -> bool {
    exists|a: int, i: int|
        {
            &&& #[trigger] entry_in(cs, a, i)
            &&& reference_error_v(d, kind, cs[a], i) == Some(e)
            &&& forall|x: int, y: int| #[trigger]
                entry_in(cs, x, y) && (x < a || (x == a && y < i)) ==> reference_error_v(
                    d,
                    kind,
                    cs[x],
                    y,
                ) is None
        }
}

/// Validates the `plots:` lists of every figure and layer: each entry must
/// name a plot of the DAG or one it includes (a figure or layer gets a
/// targeted error), and no entry may repeat an earlier one of its list.
pub fn check_plot_references(d: &PlotDeclarations) -> (r: Result<(), PlotReferenceError>)
    ensures
        r is Ok <==> references_ok_v(*d, CompositionKind::Figure, d.figures@) && references_ok_v(
            *d,
            CompositionKind::Layer,
            d.layers@,
        ),
        r matches Err(e) ==> first_reference_error(*d, CompositionKind::Figure, d.figures@, e) || (
        references_ok_v(*d, CompositionKind::Figure, d.figures@) && first_reference_error(
            *d,
            CompositionKind::Layer,
            d.layers@,
            e,
        )),
{
    match check_compositions(d, CompositionKind::Figure, &d.figures) {
        Err(e) => {
            return Err(e);
        },
        Ok(()) => {},
    }
    check_compositions(d, CompositionKind::Layer, &d.layers)
}

// ---------------------------------------------------------------------------
// Properties
// ---------------------------------------------------------------------------

/// The kind of value a property takes.
#[derive(Clone, Copy, Debug, PartialEq, Eq, Structural)]
pub enum PlotPropertyType {
    /// A string literal.
    String,
    /// A dimensionless number.
    Number,
    /// A positive dimensionless number; positivity is checked at run time.
    PositiveNumber,
    Bool,
}

/// Where a property name was recognized.
#[derive(Clone, Copy, Debug, PartialEq, Eq, Structural)]
pub enum PropertyFamily {
    /// A property of a mark block.
    Mark,
    /// A property of a plot declaration.
    Plot,
    /// A property of a figure or layer.
    Composition { applies_to_figure: bool },
    /// A name no family knows.
    Unknown,
}

/// A property as lowered from its name.
#[derive(Clone, Copy, Debug, PartialEq, Eq, Structural)]
pub struct LoweredPlotProperty {
    pub name: Symbol,
    pub family: PropertyFamily,
    pub value_type: PlotPropertyType,
}

/// Where a property is written.
#[derive(Clone, Copy, Debug, PartialEq, Eq, Structural)]
pub enum PropertyContext {
    MarkBlock,
    PlotDeclaration,
    FigureDeclaration,
    LayerDeclaration,
}

/// What a property value was found to be.
#[derive(Clone, Copy, Debug, PartialEq, Eq, Structural)]
pub enum PropertyFound {
    /// A string was expected and the value is not a string literal.
    NotAStringLiteral,
    /// A number or boolean was expected and the value is a string literal.
    StringLiteral,
    /// The value's inferred type is not the expected kind.
    OtherType,
}

/// Why a property is rejected.
#[derive(Clone, Copy, Debug, PartialEq, Eq, Structural)]
pub enum PlotPropertyError {
    /// The property does not belong in this context.
    Invalid { property: Symbol, context: PropertyContext, span: Span },
    TypeMismatch { property: Symbol, expected: PlotPropertyType, found: PropertyFound, span: Span },
    /// A numeric property with a dimensioned value.
    Dimensioned { property: Symbol, span: Span },
}

/// One `name: value` property.
#[derive(Debug)]
pub struct PlotPropertyField {
    pub property: LoweredPlotProperty,
    pub name_span: Span,
    pub value: PlotValue,
    pub value_span: Span,
}

/// Whether a property of this family belongs in the context.
pub open spec fn belongs_v(family: PropertyFamily, context: PropertyContext) -> bool {
    match context {
        PropertyContext::MarkBlock => family is Mark,
        PropertyContext::PlotDeclaration => family is Plot,
        PropertyContext::FigureDeclaration => family == PropertyFamily::Composition {
            applies_to_figure: true,
        },
        PropertyContext::LayerDeclaration => family is Composition,
    }
}

/// The check of a property value against its expected kind.
pub open spec fn value_check_v(property: Symbol, expected: PlotPropertyType, value: PlotValue, span: Span) -> Result<
    (),
    PlotPropertyError,
> {
    match expected {
        PlotPropertyType::String => match value {
            PlotValue::StringLiteral => Ok(()),
            PlotValue::Expression(_) => Err(
                PlotPropertyError::TypeMismatch {
                    property,
                    expected,
                    found: PropertyFound::NotAStringLiteral,
                    span,
                },
            ),
        },
        PlotPropertyType::Number | PlotPropertyType::PositiveNumber => match value {
            PlotValue::StringLiteral => Err(
                PlotPropertyError::TypeMismatch { property, expected, found: PropertyFound::StringLiteral, span },
            ),
            PlotValue::Expression(t) => match t@ {
                TypeV::Int => Ok(()),
                TypeV::Quantity(d) => if d.len() == 0 {
                    Ok(())
                } else {
                    Err(PlotPropertyError::Dimensioned { property, span })
                },
                _ => Err(
                    PlotPropertyError::TypeMismatch { property, expected, found: PropertyFound::OtherType, span },
                ),
            },
        },
        PlotPropertyType::Bool => match value {
            PlotValue::StringLiteral => Err(
                PlotPropertyError::TypeMismatch { property, expected, found: PropertyFound::StringLiteral, span },
            ),
            PlotValue::Expression(t) => if t@ is Bool {
                Ok(())
            } else {
                Err(PlotPropertyError::TypeMismatch { property, expected, found: PropertyFound::OtherType, span })
            },
        },
    }
}

/// The check of one property written in `context`.
pub open spec fn property_check_v(context: PropertyContext, f: PlotPropertyField) -> Result<(), PlotPropertyError> {
    if !belongs_v(f.property.family, context) {
        Err(PlotPropertyError::Invalid { property: f.property.name, context, span: f.name_span })
    } else {
        value_check_v(f.property.name, f.property.value_type, f.value, f.value_span)
    }
}

/// Checks a property value against its expected kind: strings must be
/// literals, numbers dimensionless (an `Int` counts) and booleans `Bool`.
pub fn check_property_value(
    property: Symbol,
    expected: PlotPropertyType,
    value: &PlotValue,
    span: Span,
) -> (r: Result<(), PlotPropertyError>)
    ensures
        r == value_check_v(property, expected, *value, span),
{
    match expected {
        PlotPropertyType::String => match value {
            PlotValue::StringLiteral => Ok(()),
            PlotValue::Expression(_) => Err(
                PlotPropertyError::TypeMismatch {
                    property,
                    expected,
                    found: PropertyFound::NotAStringLiteral,
                    span,
                },
            ),
        },
        PlotPropertyType::Number | PlotPropertyType::PositiveNumber => match value {
            PlotValue::StringLiteral => Err(
                PlotPropertyError::TypeMismatch { property, expected, found: PropertyFound::StringLiteral, span },
            ),
            PlotValue::Expression(t) => match t {
                InferredType::Int => Ok(()),
                InferredType::Quantity(d) => if d.is_dimensionless() {
                    Ok(())
                } else {
                    Err(PlotPropertyError::Dimensioned { property, span })
                },
                _ => Err(
                    PlotPropertyError::TypeMismatch { property, expected, found: PropertyFound::OtherType, span },
                ),
            },
        },
        PlotPropertyType::Bool => match value {
            PlotValue::StringLiteral => Err(
                PlotPropertyError::TypeMismatch { property, expected, found: PropertyFound::StringLiteral, span },
            ),
            PlotValue::Expression(t) => match t {
                InferredType::Bool => Ok(()),
                _ => Err(
                    PlotPropertyError::TypeMismatch { property, expected, found: PropertyFound::OtherType, span },
                ),
            },
        },
    }
}

/// Checks one property written in `context`: it must belong there (a
/// figure takes only the composition properties that apply to figures),
/// then its value must fit.
pub fn check_property_field(context: PropertyContext, field: &PlotPropertyField) -> (r: Result<
    (),
    PlotPropertyError,
>)
    ensures
        r == property_check_v(context, *field),
{
    let belongs = match context {
        PropertyContext::MarkBlock => match field.property.family {
            PropertyFamily::Mark => true,
            _ => false,
        },
        PropertyContext::PlotDeclaration => match field.property.family {
            PropertyFamily::Plot => true,
            _ => false,
        },
        PropertyContext::FigureDeclaration => match field.property.family {
            PropertyFamily::Composition { applies_to_figure } => applies_to_figure,
            _ => false,
        },
        PropertyContext::LayerDeclaration => match field.property.family {
            PropertyFamily::Composition { .. } => true,
            _ => false,
        },
    };
    if !belongs {
        return Err(
            PlotPropertyError::Invalid { property: field.property.name, context, span: field.name_span },
        );
    }
    check_property_value(field.property.name, field.property.value_type, &field.value, field.value_span)
}

/// Checks every property of one declaration or mark block, in order; the
/// first rejected property is reported.
pub fn check_property_fields(context: PropertyContext, fields: &Vec<PlotPropertyField>) -> (r: Result<
    (),
    PlotPropertyError,
>)
    ensures
        r is Ok <==> forall|k: int| 0 <= k < fields@.len() ==> #[trigger] property_check_v(
            context,
            fields@[k],
        ) is Ok,
        r matches Err(e) ==> exists|k: int|
            0 <= k < fields@.len() && #[trigger] property_check_v(context, fields@[k]) == Err::<
                (),
                PlotPropertyError,
            >(e) && forall|j: int| 0 <= j < k ==> #[trigger] property_check_v(context, fields@[j]) is Ok,
{
    let mut k: usize = 0;
    while k < fields.len()
        invariant
            k <= fields@.len(),
            forall|j: int| 0 <= j < k ==> #[trigger] property_check_v(context, fields@[j]) is Ok,
        decreases fields@.len() - k,
    {
        match check_property_field(context, &fields[k]) {
            Err(e) => {
                return Err(e);
            },
            Ok(()) => {},
        }
        k += 1;
    }
    Ok(())
}

} // verus!
