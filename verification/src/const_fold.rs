//! Compile-time folding of integer exponent expressions.
//!
//! `2 ^ 3 ^ 2` is accepted for an `Int` base only when its exponent folds to
//! a constant.  Folding follows the run-time integer rules: checked `i64`
//! arithmetic, truncating division and remainder, no division by zero and no
//! negative or oversized `^` exponent, so a successful fold is exactly the
//! value evaluation will produce.

use crate::hir::{Expr, ExprKind};
use crate::rules::{binop_rule, binop_v, same_result, BinOp, Operand, Span, TypeRuleError, UnaryOp};
use crate::types::InferredType;
use vstd::arithmetic::power::pow;
use vstd::prelude::*;

verus! {

broadcast use vstd::std_specs::vec::axiom_vec_index_decreases;

/// `v` as an `i64`, or `None` when it does not fit.
pub open spec fn fit_i64(v: int) -> Option<int> {
    if i64::MIN <= v <= i64::MAX {
        Some(v)
    } else {
        None
    }
}

pub open spec fn abs(x: int) -> int {
    if x < 0 {
        -x
    } else {
        x
    }
}

/// Quotient rounded toward zero.
pub open spec fn trunc_div(x: int, d: int) -> int {
    if (x < 0) == (d < 0) {
        abs(x) / abs(d)
    } else {
        -(abs(x) / abs(d))
    }
}

/// Remainder of the quotient rounded toward zero; it takes the sign of `x`.
pub open spec fn trunc_rem(x: int, d: int) -> int {
    if x < 0 {
        -(abs(x) % abs(d))
    } else {
        abs(x) % abs(d)
    }
}

/// The folded value of `op` applied to two folded operands.
pub open spec fn fold_binop_v(op: BinOp, l: int, r: int) -> Option<int> {
    match op {
        BinOp::Add => fit_i64(l + r),
        BinOp::Sub => fit_i64(l - r),
        BinOp::Mul => fit_i64(l * r),
        BinOp::Div => if r == 0 {
            None
        } else {
            fit_i64(trunc_div(l, r))
        },
        BinOp::Mod => if r == 0 || (l == i64::MIN && r == -1) {
            None
        } else {
            Some(trunc_rem(l, r))
        },
        BinOp::Pow(_) => if 0 <= r <= u32::MAX {
            fit_i64(pow(l, r as nat))
        } else {
            None
        },
        _ => None,
    }
}

/// The constant an expression folds to: integer literals, negation and the
/// arithmetic operators over operands that fold themselves.  Any other node,
/// or a node without its operands, does not fold.
pub open spec fn const_int_v(e: Expr) -> Option<int>
    decreases e,
{
    match e.kind {
        ExprKind::Integer(n) => Some(n as int),
        ExprKind::UnaryOp(UnaryOp::Neg) => if e.operands@.len() == 1 {
            match const_int_v(e.operands@[0]) {
                Some(v) => fit_i64(-v),
                None => None,
            }
        } else {
            None
        },
        ExprKind::BinOp(op) => if e.operands@.len() == 2 {
            match (const_int_v(e.operands@[0]), const_int_v(e.operands@[1])) {
                (Some(l), Some(r)) => fold_binop_v(op, l, r),
                _ => None,
            }
        } else {
            None
        },
        _ => None,
    }
}

proof fn lemma_pow_step(b: int, e: nat)
    ensures
        pow(b, e + 1) == b * pow(b, e),
{
    reveal(pow);
}

/// Powers of `-1` alternate in sign.
proof fn lemma_pow_neg_one(e: nat)
    ensures
        pow(-1, e) == (if e % 2 == 0 {
            1int
        } else {
            -1int
        }),
    decreases e,
{
    reveal(pow);
    if e > 0 {
        lemma_pow_neg_one((e - 1) as nat);
    }
}

proof fn lemma_pow_zero_base(e: nat)
    ensures
        pow(0, e) == (if e == 0 {
            1int
        } else {
            0int
        }),
    decreases e,
{
    reveal(pow);
    if e > 0 {
        lemma_pow_zero_base((e - 1) as nat);
    }
}

proof fn lemma_pow_one_base(e: nat)
    ensures
        pow(1, e) == 1,
    decreases e,
{
    reveal(pow);
    if e > 0 {
        lemma_pow_one_base((e - 1) as nat);
    }
}

/// Once a power of a base of magnitude at least two leaves the `i64` range,
/// every higher power stays outside it.
proof fn lemma_pow_stays_out(b: int, k: nat, m: nat)
    requires
        abs(b) >= 2,
        k <= m,
        fit_i64(pow(b, k)) is None,
    ensures
        fit_i64(pow(b, m)) is None,
    decreases m - k,
{
    if k < m {
        let p = pow(b, k);
        lemma_pow_step(b, k);
        assert(fit_i64(b * p) is None) by (nonlinear_arith)
            requires
                b >= 2 || b <= -2,
                p > i64::MAX || p < i64::MIN,
        ;
        lemma_pow_stays_out(b, k + 1, m);
    }
}

/// `base` raised to `exp` in checked `i64` arithmetic.
fn checked_pow(base: i64, exp: u32) -> (r: Option<i64>)
    ensures
        r == (match fit_i64(pow(base as int, exp as nat)) {
            Some(v) => Some(v as i64),
            None => None::<i64>,
        }),
{
    if base == 0 {
        proof {
            lemma_pow_zero_base(exp as nat);
        }
        return if exp == 0 {
            Some(1)
        } else {
            Some(0)
        };
    }
    if base == 1 {
        proof {
            lemma_pow_one_base(exp as nat);
        }
        return Some(1);
    }
    if base == -1 {
        proof {
            lemma_pow_neg_one(exp as nat);
        }
        return if exp % 2 == 0 {
            Some(1)
        } else {
            Some(-1)
        };
    }
    let mut acc: i64 = 1;
    let mut i: u32 = 0;
    proof {
        reveal(pow);
    }
    while i < exp
        invariant
            i <= exp,
            acc as int == pow(base as int, i as nat),
            abs(base as int) >= 2,
        decreases exp - i,
    {
        proof {
            lemma_pow_step(base as int, i as nat);
        }
        match acc.checked_mul(base) {
            Some(v) => {
                acc = v;
                i = i + 1;
            },
            None => {
                proof {
                    lemma_pow_stays_out(base as int, (i + 1) as nat, exp as nat);
                }
                return None;
            },
        }
    }
    Some(acc)
}

/// Folds an integer-valued expression to its constant value.
///
/// Returns `Some` exactly when every node is an integer literal, a negation
/// or an arithmetic operator and each step stays inside `i64`; division and
/// remainder by zero, negative exponents and exponents beyond `u32` do not
/// fold.
pub fn try_const_int(expr: &Expr) -> (r: Option<i64>)
    ensures
        r == (match const_int_v(*expr) {
            Some(v) => Some(v as i64),
            None => None::<i64>,
        }),
        r matches Some(v) ==> const_int_v(*expr) == Some(v as int),
    decreases expr,
{
    match &expr.kind {
        ExprKind::Integer(n) => Some(*n),
        ExprKind::UnaryOp(UnaryOp::Neg) => {
            if expr.operands.len() != 1 {
                return None;
            }
            proof {
                assert(decreases_to!(*expr => expr.operands@[0]));
            }
            match try_const_int(&expr.operands[0]) {
                Some(v) => if v == i64::MIN {
                    None
                } else {
                    Some(-v)
                },
                None => None,
            }
        },
        ExprKind::BinOp(op) => {
            if expr.operands.len() != 2 {
                return None;
            }
            proof {
                assert(decreases_to!(*expr => expr.operands@[0]));
                assert(decreases_to!(*expr => expr.operands@[1]));
            }
            let l = match try_const_int(&expr.operands[0]) {
                Some(v) => v,
                None => return None,
            };
            let r = match try_const_int(&expr.operands[1]) {
                Some(v) => v,
                None => return None,
            };
            match op {
                BinOp::Add => l.checked_add(r),
                BinOp::Sub => l.checked_sub(r),
                BinOp::Mul => l.checked_mul(r),
                BinOp::Div => if r != 0 {
                    l.checked_div(r)
                } else {
                    None
                },
                BinOp::Mod => if r != 0 {
                    l.checked_rem(r)
                } else {
                    None
                },
                BinOp::Pow(_) => if r >= 0 && r <= u32::MAX as i64 {
                    checked_pow(l, r as u32)
                } else {
                    None
                },
                _ => None,
            }
        },
        _ => None,
    }
}

/// The folded exponent handed to the typing rule: only `^` reads it.
pub open spec fn exponent_fold_v(op: BinOp, rhs: Expr) -> Option<i64> {
    if op is Pow {
        match const_int_v(rhs) {
            Some(v) => Some(v as i64),
            None => None,
        }
    } else {
        None
    }
}

/// Types a binary expression from its already-typed operands, folding the
/// right operand's expression to a constant when the operator is `^`.
pub fn infer_binop_from_operands(
    expr_span: Span,
    op: BinOp,
    lhs: &Operand,
    rhs: &Operand,
    rhs_expr: &Expr,
) -> (r: Result<InferredType, TypeRuleError>)
    ensures
        same_result(
            r,
            binop_v(op, lhs.ty@, lhs.span, rhs.ty@, rhs.span, expr_span, exponent_fold_v(op, *rhs_expr)),
        ),
{
    let folded = match op {
        BinOp::Pow(_) => try_const_int(rhs_expr),
        _ => None,
    };
    binop_rule(expr_span, op, lhs, rhs, folded)
}

} // verus!
