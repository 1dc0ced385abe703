//! Exact rational exponents with checked arithmetic.
//!
//! A [`Rational`] is always stored in the reduced form that [`norm`] computes:
//! the denominator is positive and numerator and denominator have been divided
//! by their greatest common divisor. Arithmetic that would leave the `i64`
//! range reports overflow instead of wrapping.

use vstd::arithmetic::div_mod::{
    lemma_fundamental_div_mod, lemma_mod_multiples_basic, lemma_div_is_ordered_by_denominator,
};
use vstd::prelude::*;

verus! {

/// Greatest common divisor by Euclid's recurrence.
pub open spec fn gcd(a: nat, b: nat) -> nat
    decreases b,
{
    if b == 0 {
        a
    } else {
        gcd(b, a % b)
    }
}

pub open spec fn abs(n: int) -> nat {
    if n < 0 {
        (-n) as nat
    } else {
        n as nat
    }
}

/// The reduced form of the fraction `n / d` (for `d > 0`).
pub open spec fn norm(n: int, d: int) -> (int, int) {
    let g = gcd(abs(n), d as nat);
    if n >= 0 {
        ((n as nat / g) as int, (d as nat / g) as int)
    } else {
        (-((abs(n) / g) as int), (d as nat / g) as int)
    }
}

/// A reduced fraction whose parts fit the stored `i64` fields.
pub open spec fn fits(r: (int, int)) -> bool {
    &&& -(i64::MAX as int) <= r.0 <= i64::MAX
    &&& 1 <= r.1 <= i64::MAX
}

pub open spec fn rat_zero() -> (int, int) {
    (0, 1)
}

pub open spec fn rat_add(a: (int, int), b: (int, int)) -> (int, int) {
    norm(a.0 * b.1 + b.0 * a.1, a.1 * b.1)
}

pub open spec fn rat_sub(a: (int, int), b: (int, int)) -> (int, int) {
    norm(a.0 * b.1 - b.0 * a.1, a.1 * b.1)
}

pub open spec fn rat_mul(a: (int, int), b: (int, int)) -> (int, int) {
    norm(a.0 * b.0, a.1 * b.1)
}

pub proof fn lemma_gcd_divides(a: nat, b: nat)
    requires
        a > 0 || b > 0,
    ensures
        gcd(a, b) > 0,
        a % gcd(a, b) == 0,
        b % gcd(a, b) == 0,
        gcd(a, b) <= a || a == 0,
    decreases b,
{
    if b == 0 {
        lemma_mod_multiples_basic(1, a as int);
        lemma_mod_multiples_basic(0, a as int);
    } else {
        lemma_fundamental_div_mod(a as int, b as int);
        assert(a % b < b);
        lemma_gcd_divides(b, a % b);
        let g = gcd(b, a % b);
        let r = a % b;
        lemma_fundamental_div_mod(b as int, g as int);
        lemma_fundamental_div_mod(r as int, g as int);
        let k1 = b / g;
        let k2 = r / g;
        let q = a / b;
        assert(b == g * k1);
        assert(r == g * k2);
        assert(a == b * q + r);
        assert(a == (k1 * q + k2) * g) by (nonlinear_arith)
            requires
                b == g * k1,
                r == g * k2,
                a == b * q + r,
        ;
        lemma_mod_multiples_basic((k1 * q + k2) as int, g as int);
        if a > 0 {
            assert(k1 * q + k2 >= 1) by (nonlinear_arith)
                requires
                    a == (k1 * q + k2) * g,
                    a > 0,
                    g > 0,
                    k1 >= 0,
                    q >= 0,
                    k2 >= 0,
            ;
            assert(g <= a) by (nonlinear_arith)
                requires
                    a == (k1 * q + k2) * g,
                    k1 * q + k2 >= 1,
                    g > 0,
            ;
        }
    }
}

/// An exponent divided exactly by a positive divisor of it.
proof fn lemma_exact_quotient(x: nat, g: nat)
    requires
        g > 0,
        x % g == 0,
    ensures
        x == (x / g) * g,
        x > 0 ==> x / g >= 1,
        x / g <= x,
{
    lemma_fundamental_div_mod(x as int, g as int);
    assert(x == g * (x / g));
    assert(x == (x / g) * g) by (nonlinear_arith)
        requires
            x == g * (x / g),
    ;
    if x > 0 && x / g == 0 {
        assert(false);
    }
    lemma_div_is_ordered_by_denominator(x as int, 1, g as int);
}

pub proof fn lemma_norm_zero(d: int)
    requires
        d > 0,
    ensures
        norm(0, d) == rat_zero(),
{
    assert(gcd(0, d as nat) == gcd(d as nat, 0));
    lemma_gcd_divides(0, d as nat);
    assert((d as nat) / (d as nat) == 1) by (nonlinear_arith)
        requires
            d > 0,
    ;
}

/// Combining zero exponents yields zero.
pub proof fn lemma_zero_ops(p: (int, int))
    requires
        p.1 > 0,
    ensures
        rat_add(rat_zero(), rat_zero()) == rat_zero(),
        rat_sub(rat_zero(), rat_zero()) == rat_zero(),
        rat_mul(rat_zero(), p) == rat_zero(),
{
    lemma_norm_zero(1);
    lemma_norm_zero(p.1);
    assert(0int * 1int + 0int * 1int == 0) by (nonlinear_arith);
    assert(0int * 1int - 0int * 1int == 0) by (nonlinear_arith);
    assert(1int * 1int == 1) by (nonlinear_arith);
    assert(0 * p.0 == 0) by (nonlinear_arith);
    assert(1 * p.1 == p.1) by (nonlinear_arith);
}

/// An exact rational number in reduced form.
#[derive(Clone, Copy, Debug, PartialEq, Eq, Structural, Hash)]
pub struct Rational {
    num: i64,
    den: i64,
}

impl View for Rational {
    type V = (int, int);

    closed spec fn view(&self) -> (int, int) {
        (self.num as int, self.den as int)
    }
}

/// Euclid's algorithm on unsigned machine integers.
fn gcd_u128(a: u128, b: u128) -> (g: u128)
    ensures
        g == gcd(a as nat, b as nat),
{
    let mut x = a;
    let mut y = b;
    while y != 0
        invariant
            gcd(x as nat, y as nat) == gcd(a as nat, b as nat),
        decreases y,
    {
        let t = x % y;
        x = y;
        y = t;
    }
    x
}

/// Reduce `n / d`, or report that the reduced form does not fit `i64`.
fn reduce(n: i128, d: i128) -> (r: Option<Rational>)
    requires
        n > i128::MIN,
        d > 0,
    ensures
        r is Some <==> fits(norm(n as int, d as int)),
        r matches Some(x) ==> x@ == norm(n as int, d as int) && x.wf(),
{
    let neg = n < 0;
    let a: u128 = if neg {
        (-n) as u128
    } else {
        n as u128
    };
    let b: u128 = d as u128;
    let g = gcd_u128(a, b);
    proof {
        lemma_gcd_divides(a as nat, b as nat);
        lemma_exact_quotient(a as nat, g as nat);
        lemma_exact_quotient(b as nat, g as nat);
        assert(a as nat == abs(n as int));
    }
    let q = a / g;
    let e = b / g;
    if q > i64::MAX as u128 || e > i64::MAX as u128 {
        None
    } else {
        let num: i64 = if neg {
            -(q as i64)
        } else {
            q as i64
        };
        Some(Rational { num, den: e as i64 })
    }
}

impl Rational {
    /// Well-formedness: positive denominator, numerator away from `i64::MIN`.
    pub open spec fn wf(self) -> bool {
        fits(self@)
    }

    #[verifier::type_invariant]
    spec fn inv(self) -> bool {
        self.wf()
    }

    /// The rational `0`.
    pub fn zero() -> (r: Rational)
        ensures
            r@ == rat_zero(),
            r.wf(),
    {
        Rational { num: 0, den: 1 }
    }

    /// The rational `1`.
    pub fn one() -> (r: Rational)
        ensures
            r@ == (1int, 1int),
            r.wf(),
    {
        Rational { num: 1, den: 1 }
    }

    /// An integer as a rational.
    pub fn from_integer(n: i32) -> (r: Rational)
        ensures
            r@ == (n as int, 1int),
            r.wf(),
    {
        Rational { num: n as i64, den: 1 }
    }

    /// The reduced form of `num / den`; `None` when `den` is not positive or a
    /// part lies outside the supported range.
    pub fn new(num: i64, den: i64) -> (r: Option<Rational>)
        ensures
            r is Some <==> (den > 0 && num > i64::MIN && fits(norm(num as int, den as int))),
            r matches Some(x) ==> x@ == norm(num as int, den as int) && x.wf(),
    {
        if den <= 0 || num == i64::MIN {
            None
        } else {
            reduce(num as i128, den as i128)
        }
    }

    pub fn numerator(&self) -> (n: i64)
        ensures
            n == self@.0,
            self.wf(),
    {
        proof {
            use_type_invariant(self);
        }
        self.num
    }

    pub fn denominator(&self) -> (d: i64)
        ensures
            d == self@.1,
    {
        self.den
    }

    /// `true` when the value is an integer.
    pub fn is_integer(&self) -> (b: bool)
        ensures
            b == (self@.1 == 1),
    {
        self.den == 1
    }

    /// Value equality.
    pub fn same(&self, other: &Rational) -> (b: bool)
        ensures
            b == (self@ == other@),
    {
        self.num == other.num && self.den == other.den
    }

    /// `true` when the value is zero.
    pub fn is_zero(&self) -> (b: bool)
        ensures
            b == (self@ == rat_zero()),
    {
        self.num == 0 && self.den == 1
    }

    /// Exact sum; `None` on overflow of the reduced result.
    pub fn checked_add(&self, other: &Rational) -> (r: Option<Rational>)
        ensures
            r is Some <==> fits(rat_add(self@, other@)),
            r matches Some(x) ==> x@ == rat_add(self@, other@) && x.wf(),
    {
        proof {
            use_type_invariant(self);
            use_type_invariant(other);
        }
        let a = self.num as i128;
        let b = self.den as i128;
        let c = other.num as i128;
        let d = other.den as i128;
        proof {
            assert(-0x7fff_ffff_ffff_ffff * 0x7fff_ffff_ffff_ffff <= a * d <= 0x7fff_ffff_ffff_ffff
                * 0x7fff_ffff_ffff_ffff) by (nonlinear_arith)
                requires
                    -0x7fff_ffff_ffff_ffff <= a <= 0x7fff_ffff_ffff_ffff,
                    1 <= d <= 0x7fff_ffff_ffff_ffff,
            ;
            assert(-0x7fff_ffff_ffff_ffff * 0x7fff_ffff_ffff_ffff <= c * b <= 0x7fff_ffff_ffff_ffff
                * 0x7fff_ffff_ffff_ffff) by (nonlinear_arith)
                requires
                    -0x7fff_ffff_ffff_ffff <= c <= 0x7fff_ffff_ffff_ffff,
                    1 <= b <= 0x7fff_ffff_ffff_ffff,
            ;
            assert(1 <= b * d <= 0x7fff_ffff_ffff_ffff * 0x7fff_ffff_ffff_ffff) by (nonlinear_arith)
                requires
                    1 <= b <= 0x7fff_ffff_ffff_ffff,
                    1 <= d <= 0x7fff_ffff_ffff_ffff,
            ;
        }
        reduce(a * d + c * b, b * d)
    }

    /// Exact difference; `None` on overflow of the reduced result.
    pub fn checked_sub(&self, other: &Rational) -> (r: Option<Rational>)
        ensures
            r is Some <==> fits(rat_sub(self@, other@)),
            r matches Some(x) ==> x@ == rat_sub(self@, other@) && x.wf(),
    {
        proof {
            use_type_invariant(self);
            use_type_invariant(other);
        }
        let a = self.num as i128;
        let b = self.den as i128;
        let c = other.num as i128;
        let d = other.den as i128;
        proof {
            assert(-0x7fff_ffff_ffff_ffff * 0x7fff_ffff_ffff_ffff <= a * d <= 0x7fff_ffff_ffff_ffff
                * 0x7fff_ffff_ffff_ffff) by (nonlinear_arith)
                requires
                    -0x7fff_ffff_ffff_ffff <= a <= 0x7fff_ffff_ffff_ffff,
                    1 <= d <= 0x7fff_ffff_ffff_ffff,
            ;
            assert(-0x7fff_ffff_ffff_ffff * 0x7fff_ffff_ffff_ffff <= c * b <= 0x7fff_ffff_ffff_ffff
                * 0x7fff_ffff_ffff_ffff) by (nonlinear_arith)
                requires
                    -0x7fff_ffff_ffff_ffff <= c <= 0x7fff_ffff_ffff_ffff,
                    1 <= b <= 0x7fff_ffff_ffff_ffff,
            ;
            assert(1 <= b * d <= 0x7fff_ffff_ffff_ffff * 0x7fff_ffff_ffff_ffff) by (nonlinear_arith)
                requires
                    1 <= b <= 0x7fff_ffff_ffff_ffff,
                    1 <= d <= 0x7fff_ffff_ffff_ffff,
            ;
        }
        reduce(a * d - c * b, b * d)
    }

    /// Exact product; `None` on overflow of the reduced result.
    pub fn checked_mul(&self, other: &Rational) -> (r: Option<Rational>)
        ensures
            r is Some <==> fits(rat_mul(self@, other@)),
            r matches Some(x) ==> x@ == rat_mul(self@, other@) && x.wf(),
    {
        proof {
            use_type_invariant(self);
            use_type_invariant(other);
        }
        let a = self.num as i128;
        let b = self.den as i128;
        let c = other.num as i128;
        let d = other.den as i128;
        proof {
            assert(-0x7fff_ffff_ffff_ffff * 0x7fff_ffff_ffff_ffff <= a * c <= 0x7fff_ffff_ffff_ffff
                * 0x7fff_ffff_ffff_ffff) by (nonlinear_arith)
                requires
                    -0x7fff_ffff_ffff_ffff <= a <= 0x7fff_ffff_ffff_ffff,
                    -0x7fff_ffff_ffff_ffff <= c <= 0x7fff_ffff_ffff_ffff,
            ;
            assert(1 <= b * d <= 0x7fff_ffff_ffff_ffff * 0x7fff_ffff_ffff_ffff) by (nonlinear_arith)
                requires
                    1 <= b <= 0x7fff_ffff_ffff_ffff,
                    1 <= d <= 0x7fff_ffff_ffff_ffff,
            ;
        }
        reduce(a * c, b * d)
    }
}

} // verus!
