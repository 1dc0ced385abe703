use graphcal_compiler::const_fold::try_const_int;
use graphcal_compiler::hir::{Expr, ExprKind};
use graphcal_compiler::rules::{BinOp, PowerExponent, Span, UnaryOp};

fn lit(value: i64) -> Expr {
    Expr::new(1, Span::new(0, 1), ExprKind::Integer(value), Vec::new())
}

fn bin(op: BinOp, lhs: Expr, rhs: Expr) -> Expr {
    Expr::new(2, Span::new(0, 5), ExprKind::BinOp(op), vec![lhs, rhs])
}

fn neg(operand: Expr) -> Expr {
    Expr::new(3, Span::new(0, 2), ExprKind::UnaryOp(UnaryOp::Neg), vec![operand])
}

fn pow() -> BinOp {
    BinOp::Pow(PowerExponent::Runtime)
}

#[test]
fn right_associated_power_chain_folds() {
    let e = bin(pow(), lit(2), bin(pow(), lit(3), lit(2)));
    assert_eq!(try_const_int(&e), Some(512));
}

#[test]
fn difference_folds_to_a_negative_constant() {
    assert_eq!(try_const_int(&bin(BinOp::Sub, lit(3), lit(5))), Some(-2));
}

#[test]
fn negation_folds_and_rejects_the_minimum() {
    assert_eq!(try_const_int(&neg(lit(7))), Some(-7));
    assert_eq!(try_const_int(&neg(lit(i64::MIN))), None);
}

#[test]
fn division_truncates_toward_zero() {
    assert_eq!(try_const_int(&bin(BinOp::Div, lit(-7), lit(2))), Some(-3));
    assert_eq!(try_const_int(&bin(BinOp::Div, lit(7), lit(-2))), Some(-3));
    assert_eq!(try_const_int(&bin(BinOp::Mod, lit(-7), lit(2))), Some(-1));
    assert_eq!(try_const_int(&bin(BinOp::Mod, lit(7), lit(-2))), Some(1));
}

#[test]
fn division_by_zero_and_overflowing_quotients_do_not_fold() {
    assert_eq!(try_const_int(&bin(BinOp::Div, lit(1), lit(0))), None);
    assert_eq!(try_const_int(&bin(BinOp::Mod, lit(1), lit(0))), None);
    assert_eq!(try_const_int(&bin(BinOp::Div, lit(i64::MIN), lit(-1))), None);
    assert_eq!(try_const_int(&bin(BinOp::Mod, lit(i64::MIN), lit(-1))), None);
}

#[test]
fn sums_and_products_stay_inside_i64() {
    assert_eq!(try_const_int(&bin(BinOp::Add, lit(i64::MAX), lit(1))), None);
    assert_eq!(try_const_int(&bin(BinOp::Mul, lit(1 << 32), lit(1 << 31))), None);
    assert_eq!(try_const_int(&bin(BinOp::Mul, lit(-(1 << 32)), lit(1 << 31))), Some(i64::MIN));
}

#[test]
fn powers_fold_within_range() {
    assert_eq!(try_const_int(&bin(pow(), lit(2), lit(62))), Some(1 << 62));
    assert_eq!(try_const_int(&bin(pow(), lit(2), lit(63))), None);
    assert_eq!(try_const_int(&bin(pow(), lit(-2), lit(63))), Some(i64::MIN));
    assert_eq!(try_const_int(&bin(pow(), lit(0), lit(0))), Some(1));
    assert_eq!(try_const_int(&bin(pow(), lit(0), lit(5))), Some(0));
    assert_eq!(try_const_int(&bin(pow(), lit(-1), lit(u32::MAX as i64))), Some(-1));
    assert_eq!(try_const_int(&bin(pow(), lit(1), lit(u32::MAX as i64))), Some(1));
}

#[test]
fn negative_or_oversized_exponents_do_not_fold() {
    assert_eq!(try_const_int(&bin(pow(), lit(2), lit(-1))), None);
    assert_eq!(try_const_int(&bin(pow(), lit(1), lit(u32::MAX as i64 + 1))), None);
}

#[test]
fn other_nodes_do_not_fold() {
    let flag = Expr::new(1, Span::new(0, 4), ExprKind::Bool(true), Vec::new());
    assert_eq!(try_const_int(&flag), None);
    assert_eq!(try_const_int(&bin(BinOp::Lt, lit(1), lit(2))), None);
    assert_eq!(try_const_int(&bin(BinOp::Add, lit(1), flag)), None);
    let short = Expr::new(2, Span::new(0, 1), ExprKind::BinOp(BinOp::Add), vec![lit(1)]);
    assert_eq!(try_const_int(&short), None);
}
