//! The dimension check of a whole file: declaration cycles first, then
//! inline-call cycles between DAGs, then the declarations of each DAG.

use crate::cycles::{dag_acyclic, detect_decl_cycles, has_topo_order, CyclicDependency, DagDeclarations};
use crate::dag_cycles::{call_edges, detect_cross_dag_cycles, distinct_dags, CyclicDagCall, DagCalls};
use crate::expr_typing::{
    check_dimensions, infer_expr_type, infer_v, program_v, same_typing, Declaration, DimError, DimErrorV, ExprTypeError,
    ExprTypeErrorV, TypingEnv,
};
use crate::hir::Expr;
use crate::plot::{axes_v, axes_view, element_v, leaf_v, plot_channel_shape, PlotChannelShape, PlotLeafKind};
use crate::rules::Span;
use crate::types::{InferredType, TypeV};
use vstd::prelude::*;

verus! {

/// The declarations of one DAG with what their bodies may reference.
#[derive(Debug)]
pub struct DagProgram {
    pub declarations: Vec<Declaration>,
    pub env: TypingEnv,
}

/// Why a file does not pass the dimension check.
#[derive(Debug, PartialEq, Eq)]
pub enum TirCheckError {
    /// A declaration that depends on itself.
    Cycle(CyclicDependency),
    /// A DAG that calls itself inline, directly or through other DAGs.
    DagCycle(CyclicDagCall),
    /// A declaration of DAG `dag` that does not type or fit its annotation.
    Dimension { dag: usize, error: DimError },
}

/// What checking the declarations of one DAG, in order, gives.
#[verifier::opaque]
pub open spec fn dag_outcome(d: DagProgram) -> Result<(), DimErrorV> {
    program_v(d.declarations@, d.env, d.declarations@.len() as int)
}

/// Every DAG's declarations type and fit their annotations.
pub open spec fn dags_typed(dags: Seq<DagProgram>) -> bool {
    forall|i: int| 0 <= i < dags.len() ==> (#[trigger] dag_outcome(dags[i])) is Ok
}

fn check_dag(d: &DagProgram) -> (r: Result<(), DimError>)
    ensures
        match (r, dag_outcome(*d)) {
            (Ok(()), Ok(())) => true,
            (Err(e), Err(f)) => e@ == f,
            _ => false,
        },
{
    proof {
        reveal(dag_outcome);
    }
    check_dimensions(&d.declarations, &d.env)
}

/// Check a file: every DAG's declaration graph is acyclic, the inline calls
/// between DAGs are acyclic, and the declarations of each DAG, in order,
/// type and fit their annotations. The first failing step decides the error.
pub fn check_dimensions_tir(decl_graphs: &Vec<DagDeclarations>, calls: &Vec<DagCalls>, dags: &Vec<DagProgram>) -> (r: Result<
    (),
    TirCheckError,
>)
    requires
        distinct_dags(calls@),
    ensures
        r is Ok <==> (forall|k: int| 0 <= k < decl_graphs@.len() ==> #[trigger] dag_acyclic(decl_graphs@[k]))
            && has_topo_order(calls@.len(), call_edges(calls@)) && dags_typed(dags@),
        r matches Err(TirCheckError::Cycle(_)) <==> !(forall|k: int|
            0 <= k < decl_graphs@.len() ==> #[trigger] dag_acyclic(decl_graphs@[k])),
        r matches Err(TirCheckError::DagCycle(_)) <==> (forall|k: int|
            0 <= k < decl_graphs@.len() ==> #[trigger] dag_acyclic(decl_graphs@[k])) && !has_topo_order(
            calls@.len(),
            call_edges(calls@),
        ),
        r matches Err(TirCheckError::Dimension { dag, error }) ==> (forall|k: int|
            0 <= k < decl_graphs@.len() ==> #[trigger] dag_acyclic(decl_graphs@[k])) && has_topo_order(
            calls@.len(),
            call_edges(calls@),
        ) && dag < dags@.len() && (forall|j: int| 0 <= j < dag ==> (#[trigger] dag_outcome(dags@[j])) is Ok)
            && dag_outcome(dags@[dag as int]) == Err::<(), DimErrorV>(error@),
{
    match detect_decl_cycles(decl_graphs) {
        Err(e) => {
            return Err(TirCheckError::Cycle(e));
        },
        Ok(()) => {},
    }
    match detect_cross_dag_cycles(calls) {
        Err(c) => {
            return Err(TirCheckError::DagCycle(c));
        },
        Ok(()) => {},
    }
    let ghost acyclic = forall|k: int| 0 <= k < decl_graphs@.len() ==> #[trigger] dag_acyclic(decl_graphs@[k]);
    let ghost ordered = has_topo_order(calls@.len(), call_edges(calls@));
    let mut i: usize = 0;
    while i < dags.len()
        invariant
            acyclic == (forall|k: int| 0 <= k < decl_graphs@.len() ==> #[trigger] dag_acyclic(decl_graphs@[k])),
            ordered == has_topo_order(calls@.len(), call_edges(calls@)),
            acyclic,
            ordered,
            i <= dags@.len(),
            forall|j: int| 0 <= j < i ==> (#[trigger] dag_outcome(dags@[j])) is Ok,
        decreases dags@.len() - i,
    {
        match check_dag(&dags[i]) {
            Err(error) => {
                return Err(TirCheckError::Dimension { dag: i, error });
            },
            Ok(()) => {},
        }
        i += 1;
    }
    Ok(())
}

/// The value of one encoding channel of a plot.
#[derive(Debug)]
pub enum EncodingValue {
    /// A string literal, which labels without axes.
    StringLiteral,
    Expression(Expr),
}

/// Why the encodings of a plot have no shapes.
#[derive(Debug, PartialEq, Eq)]
pub enum PlotEncodingError {
    /// The expression of the channel at `channel` does not type.
    Type { channel: usize, error: ExprTypeError },
    /// The channel at `channel` holds a value of type `found`, whose leaf
    /// cannot be plotted.
    NotPlottable { channel: usize, found: InferredType, span: Span },
}

/// The type of a channel's expression.
#[verifier::opaque]
pub open spec fn channel_type(e: Expr, env: TypingEnv) -> Result<TypeV, ExprTypeErrorV> {
    infer_v(e, env)
}

fn type_channel(e: &Expr, env: &TypingEnv) -> (r: Result<InferredType, ExprTypeError>)
    ensures
        same_typing(r, channel_type(*e, *env)),
{
    proof {
        reveal(channel_type);
    }
    infer_expr_type(e, env)
}

/// The channel types and its leaf can be plotted.
pub open spec fn channel_ok(v: EncodingValue, env: TypingEnv) -> bool {
    match v {
        EncodingValue::StringLiteral => true,
        EncodingValue::Expression(e) => channel_type(e, env) is Ok && leaf_v(element_v(channel_type(e, env)->Ok_0)) is Some,
    }
}

/// `s` is the shape of the channel holding `v`.
pub open spec fn shape_of(v: EncodingValue, env: TypingEnv, s: PlotChannelShape) -> bool {
    match v {
        EncodingValue::StringLiteral => s.axes@.len() == 0 && s.leaf == PlotLeafKind::ContextualString,
        EncodingValue::Expression(e) => channel_type(e, env) matches Ok(t) && Some(s.leaf@) == leaf_v(element_v(t))
            && axes_view(s.axes@) == axes_v(t),
    }
}

/// Type every encoding channel of a plot, in order, and give the shape of
/// each: the axes it varies along and the leaf it plots. The first channel
/// that does not type, or whose leaf cannot be plotted, decides the error.
pub fn plot_encoding_shapes(encodings: &Vec<EncodingValue>, env: &TypingEnv) -> (r: Result<
    Vec<PlotChannelShape>,
    PlotEncodingError,
>)
    ensures
        r is Ok <==> forall|i: int| 0 <= i < encodings@.len() ==> #[trigger] channel_ok(encodings@[i], *env),
        r matches Ok(s) ==> s@.len() == encodings@.len() && forall|i: int|
            0 <= i < encodings@.len() ==> shape_of(encodings@[i], *env, #[trigger] s@[i]),
        r matches Err(PlotEncodingError::Type { channel, error }) ==> channel < encodings@.len() && (forall|j: int|
            0 <= j < channel ==> #[trigger] channel_ok(encodings@[j], *env)) && (encodings@[channel as int] matches EncodingValue::Expression(e)
            && channel_type(e, *env) == Err::<TypeV, ExprTypeErrorV>(error@)),
        r matches Err(PlotEncodingError::NotPlottable { channel, found, span }) ==> channel < encodings@.len() && (
        forall|j: int| 0 <= j < channel ==> #[trigger] channel_ok(encodings@[j], *env)) && (encodings@[channel as int] matches EncodingValue::Expression(e)
            && channel_type(e, *env) == Ok::<TypeV, ExprTypeErrorV>(found@) && leaf_v(element_v(found@)) is None
            && span == e.span),
{
    let mut shapes: Vec<PlotChannelShape> = Vec::new();
    let mut i: usize = 0;
    while i < encodings.len()
        invariant
            i <= encodings@.len(),
            shapes@.len() == i,
            forall|j: int| 0 <= j < i ==> #[trigger] channel_ok(encodings@[j], *env),
            forall|j: int| 0 <= j < i ==> shape_of(encodings@[j], *env, #[trigger] shapes@[j]),
        decreases encodings@.len() - i,
    {
        let shape = match &encodings[i] {
            EncodingValue::StringLiteral => PlotChannelShape { axes: Vec::new(), leaf: PlotLeafKind::ContextualString },
            EncodingValue::Expression(e) => {
                let t = match type_channel(e, env) {
                    Ok(t) => t,
                    Err(error) => {
                        proof {
                            assert(!channel_ok(encodings@[i as int], *env));
                        }
                        return Err(PlotEncodingError::Type { channel: i, error });
                    },
                };
                match plot_channel_shape(&t) {
                    Some(s) => s,
                    None => {
                        proof {
                            assert(!channel_ok(encodings@[i as int], *env));
                        }
                        return Err(PlotEncodingError::NotPlottable { channel: i, found: t, span: e.span });
                    },
                }
            },
        };
        shapes.push(shape);
        i += 1;
    }
    Ok(shapes)
}

} // verus!
