//! Typing of inline DAG calls: `@dag(param: value, ...).output`.
//!
//! A call binds parameters of the called DAG by name and projects one of its
//! declarations.  Every binding must name a parameter and fit its resolved
//! type, every parameter without a default must be bound, and the projected
//! declaration must be a parameter or a `pub` node.  The call's type is the
//! projected declaration's resolved type.

use crate::index::Symbol;
use crate::resolved::{resolved_matches_v, resolved_type_matches_inferred, ResolvedTypeExpr};
use crate::rules::Span;
use crate::types::InferredType;
use vstd::prelude::*;

verus! {

/// A parameter of a DAG that can be called inline.
#[derive(Debug)]
pub struct InlineDagParam {
    pub name: Symbol,
    pub ty: ResolvedTypeExpr,
    /// Whether the parameter has a default and may be left unbound.
    pub has_default: bool,
}

/// A node of a DAG that can be called inline.
#[derive(Debug)]
pub struct InlineDagNode {
    pub name: Symbol,
    pub ty: ResolvedTypeExpr,
    /// Whether the node is `pub` and may be projected.
    pub is_pub: bool,
}

/// What a call sees of the called DAG.
#[derive(Debug)]
pub struct InlineDagInterface {
    pub params: Vec<InlineDagParam>,
    pub nodes: Vec<InlineDagNode>,
}

/// One `param: value` binding with the value's inferred type.
#[derive(Debug)]
pub struct InlineDagBinding {
    pub target: Symbol,
    pub target_span: Span,
    pub value_span: Span,
    pub found: InferredType,
}

/// Why an inline DAG call does not type.
#[derive(Debug, PartialEq, Eq)]
pub enum InlineDagCallError {
    /// A binding names no parameter of the DAG.
    UnknownParam { name: Symbol, span: Span },
    /// A bound value does not fit the parameter's type.
    ArgTypeMismatch { param: Symbol, span: Span },
    /// Parameters without defaults that no binding names, in declaration
    /// order.
    MissingBindings { missing: Vec<Symbol>, span: Span },
    /// The projection names no declaration of the DAG.
    UnknownOutput { name: Symbol, span: Span },
    /// The projection names a node that is not `pub`.
    PrivateOutput { name: Symbol, span: Span },
}

/// Value-level view of a call error.
pub enum InlineDagCallErrorV {
    UnknownParam { name: Symbol, span: Span },
    ArgTypeMismatch { param: Symbol, span: Span },
    MissingBindings { missing: Seq<Symbol>, span: Span },
    UnknownOutput { name: Symbol, span: Span },
    PrivateOutput { name: Symbol, span: Span },
}

impl View for InlineDagCallError {
    type V = InlineDagCallErrorV;

    open spec fn view(&self) -> InlineDagCallErrorV {
        match self {
            InlineDagCallError::UnknownParam { name, span } => InlineDagCallErrorV::UnknownParam {
                name: *name,
                span: *span,
            },
            InlineDagCallError::ArgTypeMismatch { param, span } => InlineDagCallErrorV::ArgTypeMismatch {
                param: *param,
                span: *span,
            },
            InlineDagCallError::MissingBindings { missing, span } => InlineDagCallErrorV::MissingBindings {
                missing: missing@,
                span: *span,
            },
            InlineDagCallError::UnknownOutput { name, span } => InlineDagCallErrorV::UnknownOutput {
                name: *name,
                span: *span,
            },
            InlineDagCallError::PrivateOutput { name, span } => InlineDagCallErrorV::PrivateOutput {
                name: *name,
                span: *span,
            },
        }
    }
}

/// The declaration a projection selects.
pub enum ProjectedV {
    Param(int),
    Node(int),
}

/// Position of the first parameter named `name`.
pub open spec fn find_param(ps: Seq<InlineDagParam>, name: Symbol) -> Option<int>
    decreases ps.len(),
{
    if ps.len() == 0 {
        None
    } else if ps.last().name == name && find_param(ps.drop_last(), name) is None {
        Some(ps.len() - 1)
    } else {
        find_param(ps.drop_last(), name)
    }
}

/// Position of the first node named `name`.
pub open spec fn find_node(ns: Seq<InlineDagNode>, name: Symbol) -> Option<int>
    decreases ns.len(),
{
    if ns.len() == 0 {
        None
    } else if ns.last().name == name && find_node(ns.drop_last(), name) is None {
        Some(ns.len() - 1)
    } else {
        find_node(ns.drop_last(), name)
    }
}

/// The check of one binding.
pub open spec fn binding_v(ps: Seq<InlineDagParam>, b: InlineDagBinding) -> Result<(), InlineDagCallErrorV> {
    match find_param(ps, b.target) {
        None => Err(InlineDagCallErrorV::UnknownParam { name: b.target, span: b.target_span }),
        Some(i) => if resolved_matches_v(ps[i].ty, b.found@) {
            Ok(())
        } else {
            Err(InlineDagCallErrorV::ArgTypeMismatch { param: b.target, span: b.value_span })
        },
    }
}

/// The first error among the first `k` bindings, in order.
pub open spec fn bindings_v(ps: Seq<InlineDagParam>, bs: Seq<InlineDagBinding>, k: int) -> Result<
    (),
    InlineDagCallErrorV,
>
    decreases k,
{
    if k <= 0 {
        Ok(())
    } else {
        match bindings_v(ps, bs, k - 1) {
            Err(e) => Err(e),
            Ok(()) => binding_v(ps, bs[k - 1]),
        }
    }
}

/// Whether some binding names `name`.
pub open spec fn is_bound(bs: Seq<InlineDagBinding>, name: Symbol) -> bool {
    exists|k: int| 0 <= k < bs.len() && #[trigger] bs[k].target == name
}

/// The names of the first `n` parameters that have no default and no
/// binding, in declaration order.
pub open spec fn missing_v(ps: Seq<InlineDagParam>, bs: Seq<InlineDagBinding>, n: int) -> Seq<Symbol>
    decreases n,
{
    if n <= 0 {
        Seq::empty()
    } else if !ps[n - 1].has_default && !is_bound(bs, ps[n - 1].name) {
        missing_v(ps, bs, n - 1).push(ps[n - 1].name)
    } else {
        missing_v(ps, bs, n - 1)
    }
}

/// The declaration a projection selects: a `pub` node, or a parameter.
pub open spec fn projection_v(d: InlineDagInterface, output: Symbol, output_span: Span) -> Result<
    ProjectedV,
    InlineDagCallErrorV,
> {
    match find_node(d.nodes@, output) {
        Some(i) => if d.nodes@[i].is_pub {
            Ok(ProjectedV::Node(i))
        } else {
            Err(InlineDagCallErrorV::PrivateOutput { name: output, span: output_span })
        },
        None => match find_param(d.params@, output) {
            Some(i) => Ok(ProjectedV::Param(i)),
            None => Err(InlineDagCallErrorV::UnknownOutput { name: output, span: output_span }),
        },
    }
}

/// The outcome of an inline call: binding errors first, then missing
/// parameters, then the projection.
pub open spec fn inline_call_v(
    d: InlineDagInterface,
    bs: Seq<InlineDagBinding>,
    output: Symbol,
    output_span: Span,
    call_span: Span,
) -> Result<ProjectedV, InlineDagCallErrorV> {
    match bindings_v(d.params@, bs, bs.len() as int) {
        Err(e) => Err(e),
        Ok(()) => {
            let missing = missing_v(d.params@, bs, d.params@.len() as int);
            if missing.len() > 0 {
                Err(InlineDagCallErrorV::MissingBindings { missing, span: call_span })
            } else {
                projection_v(d, output, output_span)
            }
        },
    }
}

fn lookup_param(ps: &Vec<InlineDagParam>, name: Symbol) -> (r: Option<usize>)
    ensures
        r matches Some(i) ==> i < ps@.len(),
        match (r, find_param(ps@, name)) {
            (Some(i), Some(j)) => i == j,
            (None, None) => true,
            _ => false,
        },
{
    let mut i: usize = 0;
    while i < ps.len()
        invariant
            i <= ps@.len(),
            find_param(ps@.subrange(0, i as int), name) is None,
        decreases ps@.len() - i,
    {
        proof {
            let s = ps@.subrange(0, i as int + 1);
            assert(s.drop_last() =~= ps@.subrange(0, i as int));
        }
        if ps[i].name == name {
            proof {
                lemma_find_param_prefix(ps@, name, i as int + 1);
            }
            return Some(i);
        }
        i += 1;
    }
    proof {
        assert(ps@.subrange(0, ps@.len() as int) =~= ps@);
    }
    None
}

/// A first match inside a prefix is the first match of the whole sequence.
proof fn lemma_find_param_prefix(ps: Seq<InlineDagParam>, name: Symbol, n: int)
    requires
        0 <= n <= ps.len(),
        find_param(ps.subrange(0, n), name) is Some,
    ensures
        find_param(ps, name) == find_param(ps.subrange(0, n), name),
    decreases ps.len() - n,
{
    if n < ps.len() {
        assert(ps.subrange(0, n + 1).drop_last() =~= ps.subrange(0, n));
        lemma_find_param_prefix(ps, name, n + 1);
    } else {
        assert(ps.subrange(0, n) =~= ps);
    }
}

proof fn lemma_find_node_prefix(ns: Seq<InlineDagNode>, name: Symbol, n: int)
    requires
        0 <= n <= ns.len(),
        find_node(ns.subrange(0, n), name) is Some,
    ensures
        find_node(ns, name) == find_node(ns.subrange(0, n), name),
    decreases ns.len() - n,
{
    if n < ns.len() {
        assert(ns.subrange(0, n + 1).drop_last() =~= ns.subrange(0, n));
        lemma_find_node_prefix(ns, name, n + 1);
    } else {
        assert(ns.subrange(0, n) =~= ns);
    }
}

fn lookup_node(ns: &Vec<InlineDagNode>, name: Symbol) -> (r: Option<usize>)
    ensures
        r matches Some(i) ==> i < ns@.len(),
        match (r, find_node(ns@, name)) {
            (Some(i), Some(j)) => i == j,
            (None, None) => true,
            _ => false,
        },
{
    let mut i: usize = 0;
    while i < ns.len()
        invariant
            i <= ns@.len(),
            find_node(ns@.subrange(0, i as int), name) is None,
        decreases ns@.len() - i,
    {
        proof {
            let s = ns@.subrange(0, i as int + 1);
            assert(s.drop_last() =~= ns@.subrange(0, i as int));
        }
        if ns[i].name == name {
            proof {
                lemma_find_node_prefix(ns@, name, i as int + 1);
            }
            return Some(i);
        }
        i += 1;
    }
    proof {
        assert(ns@.subrange(0, ns@.len() as int) =~= ns@);
    }
    None
}

/// The first binding error stays the outcome of every longer prefix.
proof fn lemma_bindings_error_persists(
    ps: Seq<InlineDagParam>,
    bs: Seq<InlineDagBinding>,
    k: int,
    m: int,
)
    requires
        0 <= k <= m,
        bindings_v(ps, bs, k) is Err,
    ensures
        bindings_v(ps, bs, m) == bindings_v(ps, bs, k),
    decreases m - k,
{
    if k < m {
        lemma_bindings_error_persists(ps, bs, k, m - 1);
    }
}

fn bound_by(bindings: &Vec<InlineDagBinding>, name: Symbol) -> (b: bool)
    ensures
        b == is_bound(bindings@, name),
{
    let mut k: usize = 0;
    while k < bindings.len()
        invariant
            k <= bindings@.len(),
            forall|j: int| 0 <= j < k ==> #[trigger] bindings@[j].target != name,
        decreases bindings@.len() - k,
    {
        if bindings[k].target == name {
            return true;
        }
        k += 1;
    }
    false
}

/// Types an inline DAG call from the inferred types of its bound values:
/// the result is the projected declaration's resolved type.
pub fn inline_dag_output_type<'a>(
    dag: &'a InlineDagInterface,
    bindings: &Vec<InlineDagBinding>,
    output: Symbol,
    output_span: Span,
    call_span: Span,
) -> (r: Result<&'a ResolvedTypeExpr, InlineDagCallError>)
    ensures
        match (r, inline_call_v(*dag, bindings@, output, output_span, call_span)) {
            (Ok(t), Ok(ProjectedV::Node(i))) => 0 <= i < dag.nodes@.len() && *t == dag.nodes@[i].ty,
            (Ok(t), Ok(ProjectedV::Param(i))) => 0 <= i < dag.params@.len() && *t
                == dag.params@[i].ty,
            (Err(e), Err(v)) => e@ == v,
            _ => false,
        },
{
    let mut k: usize = 0;
    while k < bindings.len()
        invariant
            k <= bindings@.len(),
            bindings_v(dag.params@, bindings@, k as int) is Ok,
        decreases bindings@.len() - k,
    {
        let b = &bindings[k];
        match lookup_param(&dag.params, b.target) {
            None => {
                proof {
                    lemma_bindings_error_persists(
                        dag.params@,
                        bindings@,
                        k as int + 1,
                        bindings@.len() as int,
                    );
                }
                return Err(InlineDagCallError::UnknownParam { name: b.target, span: b.target_span });
            },
            Some(i) => {
                if !resolved_type_matches_inferred(&dag.params[i].ty, &b.found) {
                    proof {
                        lemma_bindings_error_persists(
                            dag.params@,
                            bindings@,
                            k as int + 1,
                            bindings@.len() as int,
                        );
                    }
                    return Err(InlineDagCallError::ArgTypeMismatch { param: b.target, span: b.value_span });
                }
            },
        }
        k += 1;
    }
    let mut missing: Vec<Symbol> = Vec::new();
    let mut p: usize = 0;
    while p < dag.params.len()
        invariant
            p <= dag.params@.len(),
            missing@ == missing_v(dag.params@, bindings@, p as int),
        decreases dag.params@.len() - p,
    {
        let param = &dag.params[p];
        if !param.has_default && !bound_by(bindings, param.name) {
            missing.push(param.name);
        }
        p += 1;
    }
    if missing.len() > 0 {
        return Err(InlineDagCallError::MissingBindings { missing, span: call_span });
    }
    match lookup_node(&dag.nodes, output) {
        Some(i) => {
            if dag.nodes[i].is_pub {
                Ok(&dag.nodes[i].ty)
            } else {
                Err(InlineDagCallError::PrivateOutput { name: output, span: output_span })
            }
        },
        None => match lookup_param(&dag.params, output) {
            Some(i) => Ok(&dag.params[i].ty),
            None => Err(InlineDagCallError::UnknownOutput { name: output, span: output_span }),
        },
    }
}

} // verus!
