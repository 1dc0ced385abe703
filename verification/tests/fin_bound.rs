use graphcal_compiler::fin_bound::compute_index_fin_bound;
use graphcal_compiler::hir::{Expr, ExprKind};
use graphcal_compiler::nat_form::NatLinearForm;
use graphcal_compiler::rules::{BinOp, Span};
use graphcal_compiler::types::InferredType;
use std::collections::HashMap;

fn local(id: u64) -> Expr {
    Expr::new(1, Span::new(0, 1), ExprKind::LocalRef(id), Vec::new())
}

fn lit(value: i64) -> Expr {
    Expr::new(2, Span::new(4, 5), ExprKind::Integer(value), Vec::new())
}

fn bin(op: BinOp, lhs: Expr, rhs: Expr) -> Expr {
    Expr::new(3, Span::new(0, 5), ExprKind::BinOp(op), vec![lhs, rhs])
}

fn locals() -> HashMap<u64, InferredType> {
    let mut m = HashMap::new();
    m.insert(7, InferredType::Fin(NatLinearForm::from_constant(3)));
    m.insert(8, InferredType::Int);
    m.insert(9, InferredType::Fin(NatLinearForm::from_constant(u64::MAX)));
    m
}

fn bound(n: u64) -> Option<NatLinearForm> {
    Some(NatLinearForm::from_constant(n))
}

#[test]
fn fin_locals_carry_their_bound() {
    assert_eq!(compute_index_fin_bound(&local(7), &locals()), bound(3));
    assert_eq!(compute_index_fin_bound(&local(8), &locals()), None);
    assert_eq!(compute_index_fin_bound(&local(6), &locals()), None);
}

#[test]
fn adding_a_literal_on_either_side_shifts_the_bound() {
    assert_eq!(compute_index_fin_bound(&bin(BinOp::Add, local(7), lit(2)), &locals()), bound(5));
    assert_eq!(compute_index_fin_bound(&bin(BinOp::Add, lit(2), local(7)), &locals()), bound(5));
    let nested = bin(BinOp::Add, bin(BinOp::Add, local(7), lit(1)), lit(1));
    assert_eq!(compute_index_fin_bound(&nested, &locals()), bound(5));
}

#[test]
fn other_offsets_have_no_static_bound() {
    assert_eq!(compute_index_fin_bound(&bin(BinOp::Add, local(7), lit(-1)), &locals()), None);
    assert_eq!(compute_index_fin_bound(&bin(BinOp::Sub, local(7), lit(1)), &locals()), None);
    assert_eq!(compute_index_fin_bound(&bin(BinOp::Mul, local(7), lit(2)), &locals()), None);
    assert_eq!(compute_index_fin_bound(&bin(BinOp::Add, local(7), local(7)), &locals()), None);
    assert_eq!(compute_index_fin_bound(&lit(2), &locals()), None);
}

#[test]
fn a_bound_that_would_overflow_is_unknown() {
    assert_eq!(compute_index_fin_bound(&bin(BinOp::Add, local(9), lit(1)), &locals()), None);
    assert_eq!(compute_index_fin_bound(&bin(BinOp::Add, local(9), lit(0)), &locals()), bound(u64::MAX));
}
