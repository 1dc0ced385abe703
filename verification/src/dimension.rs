//! Physical dimensions as exact rational exponents over base dimensions.
//!
//! A [`Dimension`] maps every base dimension to a rational exponent; all but
//! finitely many exponents are zero. The exponents are stored densely by base
//! position with trailing zeros removed, so two dimensions are equal exactly
//! when all their exponents are equal.

use crate::rational::{fits, lemma_norm_zero, lemma_zero_ops, rat_add, rat_mul, rat_sub, rat_zero, Rational};
use vstd::prelude::*;

verus! {

/// Built-in base dimensions of the Graphcal prelude.
#[derive(Clone, Copy, Debug, PartialEq, Eq, Hash)]
pub enum PreludeBaseDimension {
    Length,
    Mass,
    Time,
    ElectricCurrent,
    Temperature,
    AmountOfSubstance,
    LuminousIntensity,
    Angle,
}

/// Number of prelude base dimensions; user base dimensions follow them.
pub const PRELUDE_BASE_COUNT: u32 = 8;

/// Identity of one base dimension.
#[derive(Clone, Copy, Debug, PartialEq, Eq, Hash)]
pub enum BaseDimId {
    Prelude(PreludeBaseDimension),
    /// A base dimension declared in a Graphcal source file, by declaration order.
    User(u16),
}

/// Position of a base dimension in the exponent vector.
pub open spec fn base_position(id: BaseDimId) -> int {
    match id {
        BaseDimId::Prelude(p) => match p {
            PreludeBaseDimension::Length => 0,
            PreludeBaseDimension::Mass => 1,
            PreludeBaseDimension::Time => 2,
            PreludeBaseDimension::ElectricCurrent => 3,
            PreludeBaseDimension::Temperature => 4,
            PreludeBaseDimension::AmountOfSubstance => 5,
            PreludeBaseDimension::LuminousIntensity => 6,
            PreludeBaseDimension::Angle => 7,
        },
        BaseDimId::User(u) => PRELUDE_BASE_COUNT + u,
    }
}

impl BaseDimId {
    /// Position of this base dimension in the exponent vector.
    pub fn position(&self) -> (p: usize)
        ensures
            p == base_position(*self),
    {
        match self {
            BaseDimId::Prelude(p) => match p {
                PreludeBaseDimension::Length => 0,
                PreludeBaseDimension::Mass => 1,
                PreludeBaseDimension::Time => 2,
                PreludeBaseDimension::ElectricCurrent => 3,
                PreludeBaseDimension::Temperature => 4,
                PreludeBaseDimension::AmountOfSubstance => 5,
                PreludeBaseDimension::LuminousIntensity => 6,
                PreludeBaseDimension::Angle => 7,
            },
            BaseDimId::User(u) => 8 + *u as usize,
        }
    }
}

/// Exponent arithmetic overflowed the supported rational range.
#[derive(Clone, Copy, Debug, PartialEq, Eq)]
pub struct DimensionOverflow;

/// The range of one dimension exponent: a reduced fraction whose numerator
/// and denominator fit `i32` (the numerator away from `i32::MIN`).
pub open spec fn exp_fits(r: (int, int)) -> bool {
    &&& -(i32::MAX as int) <= r.0 <= i32::MAX
    &&& 1 <= r.1 <= i32::MAX
}

/// `true` when a rational lies in the dimension exponent range.
pub fn in_exponent_range(x: &Rational) -> (b: bool)
    ensures
        b == exp_fits(x@),
{
    let n = x.numerator();
    let d = x.denominator();
    n >= -(i32::MAX as i64) && n <= i32::MAX as i64 && d <= i32::MAX as i64
}

/// Exponent at position `i` of a stored exponent sequence (zero past its end).
pub open spec fn exp_at(s: Seq<(int, int)>, i: int) -> (int, int) {
    if 0 <= i < s.len() {
        s[i]
    } else {
        rat_zero()
    }
}

/// No trailing zero exponent is stored.
pub open spec fn trimmed(s: Seq<(int, int)>) -> bool {
    s.len() == 0 || s.last() != rat_zero()
}

/// Drop trailing zero exponents.
pub open spec fn trim(s: Seq<(int, int)>) -> Seq<(int, int)>
    decreases s.len(),
{
    if s.len() > 0 && s.last() == rat_zero() {
        trim(s.drop_last())
    } else {
        s
    }
}

pub proof fn lemma_trim(s: Seq<(int, int)>)
    ensures
        trimmed(trim(s)),
        forall|i: int| 0 <= i ==> #[trigger] exp_at(trim(s), i) == exp_at(s, i),
    decreases s.len(),
{
    if s.len() > 0 && s.last() == rat_zero() {
        lemma_trim(s.drop_last());
        assert forall|i: int| 0 <= i implies #[trigger] exp_at(trim(s), i) == exp_at(s, i) by {
            assert(exp_at(trim(s.drop_last()), i) == exp_at(s.drop_last(), i));
        }
    }
}

pub open spec fn max_len(a: Seq<(int, int)>, b: Seq<(int, int)>) -> nat {
    if a.len() < b.len() {
        b.len()
    } else {
        a.len()
    }
}

pub open spec fn mul_seq(a: Seq<(int, int)>, b: Seq<(int, int)>) -> Seq<(int, int)> {
    Seq::new(max_len(a, b), |i: int| rat_add(exp_at(a, i), exp_at(b, i)))
}

pub open spec fn mul_fits(a: Seq<(int, int)>, b: Seq<(int, int)>) -> bool {
    forall|i: int| 0 <= i ==> exp_fits(#[trigger] rat_add(exp_at(a, i), exp_at(b, i)))
}

pub open spec fn div_seq(a: Seq<(int, int)>, b: Seq<(int, int)>) -> Seq<(int, int)> {
    Seq::new(max_len(a, b), |i: int| rat_sub(exp_at(a, i), exp_at(b, i)))
}

pub open spec fn div_fits(a: Seq<(int, int)>, b: Seq<(int, int)>) -> bool {
    forall|i: int| 0 <= i ==> exp_fits(#[trigger] rat_sub(exp_at(a, i), exp_at(b, i)))
}

pub open spec fn pow_seq(a: Seq<(int, int)>, p: (int, int)) -> Seq<(int, int)> {
    Seq::new(a.len(), |i: int| rat_mul(exp_at(a, i), p))
}

pub open spec fn pow_fits(a: Seq<(int, int)>, p: (int, int)) -> bool {
    forall|i: int| 0 <= i ==> exp_fits(#[trigger] rat_mul(exp_at(a, i), p))
}

/// Product of two dimension views; `None` when an exponent overflows.
pub open spec fn dim_mul_v(a: Seq<(int, int)>, b: Seq<(int, int)>) -> Option<Seq<(int, int)>> {
    if mul_fits(a, b) {
        Some(trim(mul_seq(a, b)))
    } else {
        None
    }
}

/// Quotient of two dimension views; `None` when an exponent overflows.
pub open spec fn dim_div_v(a: Seq<(int, int)>, b: Seq<(int, int)>) -> Option<Seq<(int, int)>> {
    if div_fits(a, b) {
        Some(trim(div_seq(a, b)))
    } else {
        None
    }
}

/// A dimension view raised to a rational power; `None` when an exponent overflows.
pub open spec fn dim_pow_v(a: Seq<(int, int)>, p: (int, int)) -> Option<Seq<(int, int)>> {
    if pow_fits(a, p) {
        Some(trim(pow_seq(a, p)))
    } else {
        None
    }
}

/// The view of one base dimension to the first power.
pub open spec fn base_v(p: int) -> Seq<(int, int)> {
    Seq::new(
        (p + 1) as nat,
        |i: int|
            if i == p {
                (1int, 1int)
            } else {
                rat_zero()
            },
    )
}

/// Exponent values of a stored rational vector.
pub open spec fn rats_view(v: Seq<Rational>) -> Seq<(int, int)> {
    v.map_values(|r: Rational| r@)
}

/// Which exponent operation a pointwise combination applies.
#[derive(Clone, Copy, Debug, PartialEq, Eq)]
enum ExpOp {
    Add,
    Sub,
}

spec fn apply_op(op: ExpOp, x: (int, int), y: (int, int)) -> (int, int) {
    match op {
        ExpOp::Add => rat_add(x, y),
        ExpOp::Sub => rat_sub(x, y),
    }
}

/// Two trimmed exponent sequences agreeing at every position are equal.
pub proof fn lemma_trimmed_ext(a: Seq<(int, int)>, b: Seq<(int, int)>)
    requires
        trimmed(a),
        trimmed(b),
        forall|i: int| 0 <= i ==> #[trigger] exp_at(a, i) == exp_at(b, i),
    ensures
        a == b,
{
    if a.len() < b.len() {
        assert(exp_at(a, b.len() - 1) == exp_at(b, b.len() - 1));
    } else if b.len() < a.len() {
        assert(exp_at(a, a.len() - 1) == exp_at(b, a.len() - 1));
    }
    assert(a.len() == b.len());
    assert forall|i: int| 0 <= i < a.len() implies a[i] == b[i] by {
        assert(exp_at(a, i) == exp_at(b, i));
    }
    assert(a =~= b);
}

/// A physical dimension: a rational exponent for every base dimension.
#[derive(Debug, PartialEq, Eq, Hash)]
pub struct Dimension {
    exps: Vec<Rational>,
}

impl View for Dimension {
    type V = Seq<(int, int)>;

    closed spec fn view(&self) -> Seq<(int, int)> {
        rats_view(self.exps@)
    }
}

impl Clone for Dimension {
    fn clone(&self) -> (r: Self)
        ensures
            r@ == self@,
    {
        proof {
            use_type_invariant(self);
        }
        let exps = self.exps.clone();
        proof {
            assert(rats_view(exps@) =~= self@);
        }
        Dimension { exps }
    }
}

impl Dimension {
    #[verifier::type_invariant]
    spec fn inv(self) -> bool {
        trimmed(self@)
    }

    /// Exponent of the base dimension at position `i`.
    pub open spec fn exponent(self, i: int) -> (int, int) {
        exp_at(self@, i)
    }

    /// Trim trailing zero exponents from a freshly built exponent vector.
    fn from_exponents(mut exps: Vec<Rational>) -> (d: Dimension)
        ensures
            trimmed(d@),
            forall|i: int| 0 <= i ==> #[trigger] d.exponent(i) == exp_at(
                rats_view(exps@),
                i,
            ),
    {
        let ghost orig = rats_view(exps@);
        while exps.len() > 0 && exps[exps.len() - 1].is_zero()
            invariant
                forall|i: int| 0 <= i ==> #[trigger] exp_at(rats_view(exps@), i)
                    == exp_at(orig, i),
            decreases exps.len(),
        {
            let ghost before = rats_view(exps@);
            exps.pop();
            proof {
                let after = rats_view(exps@);
                assert forall|i: int| 0 <= i implies #[trigger] exp_at(after, i) == exp_at(orig, i) by {
                    assert(exp_at(before, i) == exp_at(orig, i));
                    if i < after.len() {
                        assert(after[i] == before[i]);
                    }
                }
            }
        }
        let d = Dimension { exps };
        d
    }

    /// The dimensionless dimension (every exponent zero).
    pub fn dimensionless() -> (d: Dimension)
        ensures
            d@.len() == 0,
            trimmed(d@),
            forall|i: int| #[trigger] d.exponent(i) == rat_zero(),
    {
        let d = Dimension { exps: Vec::new() };
        assert(d@ =~= Seq::<(int, int)>::empty());
        d
    }

    /// The dimension of one base dimension to the first power.
    pub fn base(id: BaseDimId) -> (d: Dimension)
        ensures
            d@ == base_v(base_position(id)),
            trimmed(d@),
            forall|i: int| 0 <= i ==> #[trigger] d.exponent(i) == (if i == base_position(id) {
                (1int, 1int)
            } else {
                rat_zero()
            }),
    {
        let p = id.position();
        let mut exps: Vec<Rational> = Vec::new();
        let mut k: usize = 0;
        while k < p
            invariant
                k <= p,
                exps@.len() == k,
                forall|j: int| 0 <= j < k ==> #[trigger] exps@[j]@ == rat_zero(),
            decreases p - k,
        {
            exps.push(Rational::zero());
            k += 1;
        }
        exps.push(Rational::one());
        let ghost v = rats_view(exps@);
        let d = Dimension { exps };
        proof {
            assert(v =~= base_v(base_position(id)));
            assert forall|i: int| 0 <= i implies #[trigger] d.exponent(i) == (if i == base_position(id) {
                (1int, 1int)
            } else {
                rat_zero()
            }) by {
                if i < p {
                    assert(v[i] == exps@[i]@);
                }
            }
        }
        d
    }

    /// `true` when every exponent is zero.
    pub fn is_dimensionless(&self) -> (b: bool)
        ensures
            b == (self@.len() == 0),
            b == (forall|i: int| #[trigger] self.exponent(i) == rat_zero()),
    {
        proof {
            use_type_invariant(self);
            if self@.len() > 0 {
                assert(self.exponent(self@.len() - 1) != rat_zero());
            }
        }
        self.exps.len() == 0
    }

    /// Structural equality, which is exponent-wise equality.
    pub fn equals(&self, other: &Dimension) -> (b: bool)
        ensures
            b == (self@ == other@),
            b == (forall|i: int| #[trigger] self.exponent(i) == other.exponent(i)),
    {
        proof {
            use_type_invariant(self);
            use_type_invariant(other);
        }
        if self.exps.len() != other.exps.len() {
            proof {
                if self@.len() < other@.len() {
                    assert(self.exponent(other@.len() - 1) != other.exponent(other@.len() - 1));
                } else {
                    assert(self.exponent(self@.len() - 1) != other.exponent(self@.len() - 1));
                }
            }
            return false;
        }
        let mut i: usize = 0;
        while i < self.exps.len()
            invariant
                self.exps@.len() == other.exps@.len(),
                i <= self.exps@.len(),
                forall|j: int| 0 <= j < i ==> #[trigger] self@[j] == other@[j],
            decreases self.exps.len() - i,
        {
            if !self.exps[i].same(&other.exps[i]) {
                proof {
                    assert(self@[i as int] == self.exps@[i as int]@);
                    assert(other@[i as int] == other.exps@[i as int]@);
                    assert(self.exponent(i as int) != other.exponent(i as int));
                }
                return false;
            }
            proof {
                assert(self@[i as int] == self.exps@[i as int]@);
                assert(other@[i as int] == other.exps@[i as int]@);
            }
            i += 1;
        }
        proof {
            assert(self@ =~= other@);
        }
        true
    }

    /// Combine two dimensions exponent by exponent.
    fn combine(&self, other: &Dimension, op: ExpOp) -> (r: Result<Dimension, DimensionOverflow>)
        ensures
            r is Ok <==> forall|i: int| 0 <= i ==> exp_fits(
                #[trigger] apply_op(op, self.exponent(i), other.exponent(i)),
            ),
            r matches Ok(d) ==> trimmed(d@),
            r matches Ok(d) ==> forall|i: int| 0 <= i ==> #[trigger] d.exponent(i) == apply_op(
                op,
                self.exponent(i),
                other.exponent(i),
            ),
    {
        let la = self.exps.len();
        let lb = other.exps.len();
        let n = if la < lb {
            lb
        } else {
            la
        };
        let mut exps: Vec<Rational> = Vec::new();
        let mut i: usize = 0;
        proof {
            lemma_norm_zero(1);
            lemma_zero_ops((0, 1));
        }
        while i < n
            invariant
                la == self@.len(),
                lb == other@.len(),
                n == if la < lb {
                    lb
                } else {
                    la
                },
                i <= n,
                exps@.len() == i,
                forall|j: int| 0 <= j < i ==> #[trigger] exps@[j]@ == apply_op(
                    op,
                    self.exponent(j),
                    other.exponent(j),
                ),
                forall|j: int| 0 <= j < i ==> exp_fits(#[trigger] apply_op(op, self.exponent(j), other.exponent(j))),
            decreases n - i,
        {
            let x = if i < la {
                self.exps[i]
            } else {
                Rational::zero()
            };
            let y = if i < lb {
                other.exps[i]
            } else {
                Rational::zero()
            };
            proof {
                if i < la {
                    assert(self@[i as int] == self.exps@[i as int]@);
                }
                if i < lb {
                    assert(other@[i as int] == other.exps@[i as int]@);
                }
                assert(x@ == self.exponent(i as int));
                assert(y@ == other.exponent(i as int));
            }
            let z = match op {
                ExpOp::Add => x.checked_add(&y),
                ExpOp::Sub => x.checked_sub(&y),
            };
            match z {
                Some(z) => {
                    if !in_exponent_range(&z) {
                        assert(!exp_fits(apply_op(op, self.exponent(i as int), other.exponent(i as int))));
                        return Err(DimensionOverflow);
                    }
                    exps.push(z);
                },
                None => {
                    assert(!fits(apply_op(op, self.exponent(i as int), other.exponent(i as int))));
                    return Err(DimensionOverflow);
                },
            }
            i += 1;
        }
        let ghost v = rats_view(exps@);
        let d = Self::from_exponents(exps);
        proof {
            assert forall|j: int| 0 <= j implies #[trigger] d.exponent(j) == apply_op(
                op,
                self.exponent(j),
                other.exponent(j),
            ) by {
                assert(d.exponent(j) == exp_at(v, j));
                if j < n {
                    assert(v[j] == exps@[j]@);
                }
            }
            assert forall|j: int| 0 <= j implies exp_fits(
                #[trigger] apply_op(op, self.exponent(j), other.exponent(j)),
            ) by {
                if j >= n {
                    assert(self.exponent(j) == rat_zero());
                    assert(other.exponent(j) == rat_zero());
                }
            }
        }
        Ok(d)
    }

    /// Product of two dimensions: exponents add.
    pub fn checked_mul(&self, other: &Dimension) -> (r: Result<Dimension, DimensionOverflow>)
        ensures
            r is Ok <==> dim_mul_v(self@, other@) is Some,
            r matches Ok(d) ==> Some(d@) == dim_mul_v(self@, other@),
            r is Ok <==> forall|i: int| 0 <= i ==> exp_fits(
                #[trigger] rat_add(self.exponent(i), other.exponent(i)),
            ),
            r matches Ok(d) ==> trimmed(d@),
            r matches Ok(d) ==> forall|i: int| 0 <= i ==> #[trigger] d.exponent(i) == rat_add(
                self.exponent(i),
                other.exponent(i),
            ),
    {
        let r = self.combine(other, ExpOp::Add);
        proof {
            assert(forall|x: (int, int), y: (int, int)| apply_op(ExpOp::Add, x, y) == rat_add(x, y));
            let s = mul_seq(self@, other@);
            lemma_trim(s);
            if r is Ok {
                let d = r->Ok_0;
                assert forall|i: int| 0 <= i implies #[trigger] exp_at(d@, i) == exp_at(trim(s), i) by {
                    assert(d.exponent(i) == rat_add(self.exponent(i), other.exponent(i)));
                    if i >= max_len(self@, other@) {
                        lemma_zero_ops((0, 1));
                    }
                }
                lemma_trimmed_ext(d@, trim(s));
                assert forall|i: int| 0 <= i implies exp_fits(
                    #[trigger] rat_add(exp_at(self@, i), exp_at(other@, i)),
                ) by {
                    assert(exp_fits(rat_add(self.exponent(i), other.exponent(i))));
                }
            } else {
                let i = choose|i: int| 0 <= i && !exp_fits(rat_add(self.exponent(i), other.exponent(i)));
                assert(!exp_fits(rat_add(exp_at(self@, i), exp_at(other@, i))));
            }
        }
        r
    }

    /// Quotient of two dimensions: exponents subtract.
    pub fn checked_div(&self, other: &Dimension) -> (r: Result<Dimension, DimensionOverflow>)
        ensures
            r is Ok <==> dim_div_v(self@, other@) is Some,
            r matches Ok(d) ==> Some(d@) == dim_div_v(self@, other@),
            r is Ok <==> forall|i: int| 0 <= i ==> exp_fits(
                #[trigger] rat_sub(self.exponent(i), other.exponent(i)),
            ),
            r matches Ok(d) ==> trimmed(d@),
            r matches Ok(d) ==> forall|i: int| 0 <= i ==> #[trigger] d.exponent(i) == rat_sub(
                self.exponent(i),
                other.exponent(i),
            ),
    {
        let r = self.combine(other, ExpOp::Sub);
        proof {
            assert(forall|x: (int, int), y: (int, int)| apply_op(ExpOp::Sub, x, y) == rat_sub(x, y));
            let s = div_seq(self@, other@);
            lemma_trim(s);
            if r is Ok {
                let d = r->Ok_0;
                assert forall|i: int| 0 <= i implies #[trigger] exp_at(d@, i) == exp_at(trim(s), i) by {
                    assert(d.exponent(i) == rat_sub(self.exponent(i), other.exponent(i)));
                    if i >= max_len(self@, other@) {
                        lemma_zero_ops((0, 1));
                    }
                }
                lemma_trimmed_ext(d@, trim(s));
                assert forall|i: int| 0 <= i implies exp_fits(
                    #[trigger] rat_sub(exp_at(self@, i), exp_at(other@, i)),
                ) by {
                    assert(exp_fits(rat_sub(self.exponent(i), other.exponent(i))));
                }
            } else {
                let i = choose|i: int| 0 <= i && !exp_fits(rat_sub(self.exponent(i), other.exponent(i)));
                assert(!exp_fits(rat_sub(exp_at(self@, i), exp_at(other@, i))));
            }
        }
        r
    }

    /// Raise a dimension to a rational power: every exponent is multiplied.
    pub fn pow(&self, power: Rational) -> (r: Result<Dimension, DimensionOverflow>)
        ensures
            r is Ok <==> dim_pow_v(self@, power@) is Some,
            r matches Ok(d) ==> Some(d@) == dim_pow_v(self@, power@),
            r is Ok <==> forall|i: int| 0 <= i ==> exp_fits(#[trigger] rat_mul(self.exponent(i), power@)),
            r matches Ok(d) ==> trimmed(d@),
            r matches Ok(d) ==> forall|i: int| 0 <= i ==> #[trigger] d.exponent(i) == rat_mul(
                self.exponent(i),
                power@,
            ),
    {
        let n = self.exps.len();
        let mut exps: Vec<Rational> = Vec::new();
        let mut i: usize = 0;
        let _ = power.numerator();
        proof {
            lemma_norm_zero(power@.1);
            lemma_zero_ops(power@);
        }
        while i < n
            invariant
                n == self@.len(),
                i <= n,
                exps@.len() == i,
                forall|j: int| 0 <= j < i ==> #[trigger] exps@[j]@ == rat_mul(self.exponent(j), power@),
                forall|j: int| 0 <= j < i ==> exp_fits(#[trigger] rat_mul(self.exponent(j), power@)),
            decreases n - i,
        {
            let x = self.exps[i];
            proof {
                assert(self@[i as int] == self.exps@[i as int]@);
            }
            match x.checked_mul(&power) {
                Some(z) => {
                    if !in_exponent_range(&z) {
                        assert(!exp_fits(rat_mul(self.exponent(i as int), power@)));
                        assert(!exp_fits(rat_mul(exp_at(self@, i as int), power@)));
                        return Err(DimensionOverflow);
                    }
                    exps.push(z);
                },
                None => {
                    assert(!fits(rat_mul(self.exponent(i as int), power@)));
                    assert(!exp_fits(rat_mul(exp_at(self@, i as int), power@)));
                    return Err(DimensionOverflow);
                },
            }
            i += 1;
        }
        let ghost v = rats_view(exps@);
        let d = Self::from_exponents(exps);
        proof {
            assert forall|j: int| 0 <= j implies #[trigger] d.exponent(j) == rat_mul(
                self.exponent(j),
                power@,
            ) by {
                assert(d.exponent(j) == exp_at(v, j));
                if j < n {
                    assert(v[j] == exps@[j]@);
                }
            }
            let s = pow_seq(self@, power@);
            lemma_trim(s);
            assert forall|i: int| 0 <= i implies #[trigger] exp_at(d@, i) == exp_at(trim(s), i) by {
                assert(d.exponent(i) == rat_mul(self.exponent(i), power@));
            }
            assert forall|i: int| 0 <= i implies exp_fits(#[trigger] rat_mul(exp_at(self@, i), power@)) by {
                assert(exp_fits(rat_mul(self.exponent(i), power@)));
            }
            lemma_trimmed_ext(d@, trim(s));
        }
        Ok(d)
    }

    /// Raise a dimension to an integer power.
    pub fn powi(&self, power: i32) -> (r: Result<Dimension, DimensionOverflow>)
        ensures
            r is Ok <==> dim_pow_v(self@, (power as int, 1int)) is Some,
            r matches Ok(d) ==> Some(d@) == dim_pow_v(self@, (power as int, 1int)),
            r is Ok <==> forall|i: int| 0 <= i ==> exp_fits(
                #[trigger] rat_mul(self.exponent(i), (power as int, 1int)),
            ),
            r matches Ok(d) ==> trimmed(d@),
            r matches Ok(d) ==> forall|i: int| 0 <= i ==> #[trigger] d.exponent(i) == rat_mul(
                self.exponent(i),
                (power as int, 1int),
            ),
    {
        self.pow(Rational::from_integer(power))
    }
}

} // verus!
