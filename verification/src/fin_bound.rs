//! Static `Fin` bounds of index expressions.
//!
//! An index expression is statically in range when its `Fin(N)` bound is
//! known: a local of type `Fin(N)` has bound `N`, and adding a non-negative
//! integer literal `k` on either side gives `Fin(N + k)`, since the largest
//! value `N - 1 + k` stays below `N + k`.  Other expressions have no static
//! bound.

use crate::hir::{Expr, ExprKind};
use crate::nat_form::NatLinearForm;
use crate::rules::BinOp;
use crate::types::InferredType;
use std::collections::HashMap;
use vstd::prelude::*;

verus! {

broadcast use {vstd::std_specs::vec::axiom_vec_index_decreases, vstd::std_specs::hash::group_hash_axioms};

/// The static bound of an index expression, as a form view.
pub open spec fn fin_bound_v(e: Expr, locals: Map<u64, InferredType>) -> Option<(nat, Seq<u64>)>
    decreases e, 1int,
{
    match e.kind {
        ExprKind::LocalRef(id) => if locals.contains_key(id) {
            match locals[id] {
                InferredType::Fin(f) => Some(f@),
                _ => None,
            }
        } else {
            None
        },
        ExprKind::BinOp(BinOp::Add) => if e.operands@.len() == 2 {
            match fin_plus_literal_v(e.operands@[0], e.operands@[1], locals) {
                Some(f) => Some(f),
                None => fin_plus_literal_v(e.operands@[1], e.operands@[0], locals),
            }
        } else {
            None
        },
        _ => None,
    }
}

/// The bound of `fin_e + lit_e` when `fin_e` has a bound and `lit_e` is a
/// non-negative integer literal; `None` as well when the sum of the
/// constants leaves `u64`.
pub open spec fn fin_plus_literal_v(fin_e: Expr, lit_e: Expr, locals: Map<u64, InferredType>) -> Option<
    (nat, Seq<u64>),
>
    decreases fin_e, 2int,
{
    match fin_bound_v(fin_e, locals) {
        Some(b) => match lit_e.kind {
            ExprKind::Integer(k) => if k >= 0 && b.0 + k <= u64::MAX {
                Some(((b.0 + k) as nat, b.1))
            } else {
                None
            },
            _ => None,
        },
        None => None,
    }
}

fn fin_plus_literal(fin_expr: &Expr, lit_expr: &Expr, local_types: &HashMap<u64, InferredType>) -> (r:
    Option<NatLinearForm>)
    ensures
        match (r, fin_plus_literal_v(*fin_expr, *lit_expr, local_types@)) {
            (Some(f), Some(v)) => f@ == v,
            (None, None) => true,
            _ => false,
        },
    decreases fin_expr, 2int,
{
    let bound = match compute_index_fin_bound(fin_expr, local_types) {
        Some(b) => b,
        None => return None,
    };
    let k = match &lit_expr.kind {
        ExprKind::Integer(k) => *k,
        _ => return None,
    };
    if k < 0 {
        return None;
    }
    match bound.add_constant(k as u64) {
        Ok(f) => Some(f),
        Err(_) => None,
    }
}

/// The static `Fin` bound of an index expression, if it has one.
pub fn compute_index_fin_bound(expr: &Expr, local_types: &HashMap<u64, InferredType>) -> (r: Option<
    NatLinearForm,
>)
    ensures
        match (r, fin_bound_v(*expr, local_types@)) {
            (Some(f), Some(v)) => f@ == v,
            (None, None) => true,
            _ => false,
        },
    decreases expr, 1int,
{
    match &expr.kind {
        ExprKind::LocalRef(id) => match local_types.get(id) {
            Some(InferredType::Fin(bound)) => Some(bound.clone()),
            _ => None,
        },
        ExprKind::BinOp(BinOp::Add) => {
            if expr.operands.len() != 2 {
                return None;
            }
            proof {
                assert(decreases_to!(*expr => expr.operands@[0]));
                assert(decreases_to!(*expr => expr.operands@[1]));
            }
            match fin_plus_literal(&expr.operands[0], &expr.operands[1], local_types) {
                Some(f) => Some(f),
                None => fin_plus_literal(&expr.operands[1], &expr.operands[0], local_types),
            }
        },
        _ => None,
    }
}

} // verus!
