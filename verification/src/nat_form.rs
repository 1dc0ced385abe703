//! Normalized linear forms over generic Nat parameters.
//!
//! A [`NatLinearForm`] denotes `c + k0*N0 + k1*N1 + ...` where `Ni` are generic
//! Nat parameters identified by position. Coefficients are stored densely with
//! trailing zeros removed, so structurally equal forms denote the same
//! polynomial and vice versa.

use vstd::prelude::*;

verus! {

/// Number of generic Nat parameter positions a form can mention.
pub const MAX_NAT_PARAMS: usize = 0x10000;

/// Identity of a generic Nat parameter in scope, by position.
#[derive(Clone, Copy, Debug, PartialEq, Eq, Structural, Hash)]
pub struct NatParam(pub u32);

/// Failure of Nat form arithmetic.
#[derive(Clone, Copy, Debug, PartialEq, Eq, Structural)]
pub enum NatFormError {
    /// A coefficient or the constant left the `u64` range.
    Overflow,
    /// The product of two non-constant forms is not linear.
    NonLinear,
}

/// Coefficient at position `i` (zero past the end).
pub open spec fn coeff_at(s: Seq<u64>, i: int) -> nat {
    if 0 <= i < s.len() {
        s[i] as nat
    } else {
        0
    }
}

pub open spec fn coeffs_trimmed(s: Seq<u64>) -> bool {
    s.len() == 0 || s.last() != 0
}

/// Two trimmed coefficient vectors agreeing at every position are equal.
pub proof fn lemma_coeffs_ext(a: Seq<u64>, b: Seq<u64>)
    requires
        coeffs_trimmed(a),
        coeffs_trimmed(b),
        forall|i: int| 0 <= i ==> #[trigger] coeff_at(a, i) == coeff_at(b, i),
    ensures
        a == b,
{
    if a.len() < b.len() {
        assert(coeff_at(a, b.len() - 1) == coeff_at(b, b.len() - 1));
    } else if b.len() < a.len() {
        assert(coeff_at(a, a.len() - 1) == coeff_at(b, a.len() - 1));
    }
    assert forall|i: int| 0 <= i < a.len() implies a[i] == b[i] by {
        assert(coeff_at(a, i) == coeff_at(b, i));
    }
    assert(a =~= b);
}

/// A linear form `constant + sum(coeffs[i] * param_i)` with natural coefficients.
#[derive(Debug, PartialEq, Eq, Hash)]
pub struct NatLinearForm {
    constant: u64,
    coeffs: Vec<u64>,
}

impl View for NatLinearForm {
    type V = (nat, Seq<u64>);

    closed spec fn view(&self) -> (nat, Seq<u64>) {
        (self.constant as nat, self.coeffs@)
    }
}

impl Clone for NatLinearForm {
    fn clone(&self) -> (r: Self)
        ensures
            r@ == self@,
    {
        proof {
            use_type_invariant(self);
        }
        NatLinearForm { constant: self.constant, coeffs: self.coeffs.clone() }
    }
}

impl NatLinearForm {
    #[verifier::type_invariant]
    spec fn inv(self) -> bool {
        &&& coeffs_trimmed(self.coeffs@)
        &&& self.coeffs@.len() <= MAX_NAT_PARAMS
    }

    /// The coefficient of parameter `i`.
    pub open spec fn coefficient(self, i: int) -> nat {
        coeff_at(self@.1, i)
    }

    /// The form has no parameter terms.
    pub open spec fn spec_is_constant(self) -> bool {
        self@.1.len() == 0
    }

    /// Multiplying every term by `k` stays within `u64`.
    pub open spec fn scale_fits(self, k: nat) -> bool {
        &&& self@.0 * k <= u64::MAX
        &&& forall|i: int| 0 <= i ==> #[trigger] self.coefficient(i) * k <= u64::MAX
    }

    /// Trim trailing zero coefficients.
    fn from_parts(constant: u64, mut coeffs: Vec<u64>) -> (f: NatLinearForm)
        requires
            coeffs@.len() <= MAX_NAT_PARAMS,
        ensures
            coeffs_trimmed(f@.1),
            f@.0 == constant,
            forall|i: int| 0 <= i ==> #[trigger] f.coefficient(i) == coeff_at(coeffs@, i),
    {
        let ghost orig = coeffs@;
        while coeffs.len() > 0 && coeffs[coeffs.len() - 1] == 0
            invariant
                coeffs@.len() <= MAX_NAT_PARAMS,
                forall|i: int| 0 <= i ==> #[trigger] coeff_at(coeffs@, i) == coeff_at(orig, i),
            decreases coeffs.len(),
        {
            let ghost before = coeffs@;
            coeffs.pop();
            proof {
                assert forall|i: int| 0 <= i implies #[trigger] coeff_at(coeffs@, i) == coeff_at(
                    orig,
                    i,
                ) by {
                    assert(coeff_at(before, i) == coeff_at(orig, i));
                }
            }
        }
        NatLinearForm { constant, coeffs }
    }

    /// The constant form `n`.
    pub fn from_constant(n: u64) -> (f: NatLinearForm)
        ensures
            f@.0 == n,
            f@.1.len() == 0,
            coeffs_trimmed(f@.1),
    {
        NatLinearForm { constant: n, coeffs: Vec::new() }
    }

    /// The form consisting of one parameter with coefficient one.
    pub fn from_var(param: NatParam) -> (f: NatLinearForm)
        requires
            param.0 < MAX_NAT_PARAMS,
        ensures
            f@.0 == 0,
            coeffs_trimmed(f@.1),
            forall|i: int| 0 <= i ==> #[trigger] f.coefficient(i) == (if i == param.0 {
                1nat
            } else {
                0nat
            }),
    {
        let p = param.0 as usize;
        let mut coeffs: Vec<u64> = Vec::new();
        let mut k: usize = 0;
        while k < p
            invariant
                k <= p,
                coeffs@.len() == k,
                forall|j: int| 0 <= j < k ==> #[trigger] coeffs@[j] == 0,
            decreases p - k,
        {
            coeffs.push(0);
            k += 1;
        }
        coeffs.push(1);
        NatLinearForm { constant: 0, coeffs }
    }

    /// `true` when the form has no parameter terms.
    pub fn is_constant(&self) -> (b: bool)
        ensures
            b == self.spec_is_constant(),
            b == (forall|i: int| #[trigger] self.coefficient(i) == 0),
    {
        proof {
            use_type_invariant(self);
            if self@.1.len() > 0 {
                assert(self.coefficient(self@.1.len() - 1) != 0);
            }
        }
        self.coeffs.len() == 0
    }

    /// The value of a constant form.
    pub fn constant_value(&self) -> (r: Option<u64>)
        ensures
            r is Some <==> self.spec_is_constant(),
            r matches Some(v) ==> v == self@.0,
    {
        if self.coeffs.len() == 0 {
            Some(self.constant)
        } else {
            None
        }
    }

    /// The constant term.
    pub fn constant(&self) -> (c: u64)
        ensures
            c == self@.0,
            coeffs_trimmed(self@.1),
    {
        proof {
            use_type_invariant(self);
        }
        self.constant
    }

    /// Number of parameter positions up to the last one with a nonzero
    /// coefficient.
    pub fn param_count(&self) -> (n: usize)
        ensures
            n == self@.1.len(),
            n <= MAX_NAT_PARAMS,
    {
        proof {
            use_type_invariant(self);
        }
        self.coeffs.len()
    }

    /// The coefficient of parameter position `i`.
    pub fn coefficient_at(&self, i: usize) -> (c: u64)
        requires
            i < self@.1.len(),
        ensures
            c == self@.1[i as int],
    {
        self.coeffs[i]
    }

    /// Structural equality, which is equality of the denoted forms.
    pub fn equals(&self, other: &NatLinearForm) -> (b: bool)
        ensures
            b == (self@ == other@),
    {
        if self.constant != other.constant || self.coeffs.len() != other.coeffs.len() {
            return false;
        }
        let mut i: usize = 0;
        while i < self.coeffs.len()
            invariant
                self.coeffs@.len() == other.coeffs@.len(),
                i <= self.coeffs@.len(),
                forall|j: int| 0 <= j < i ==> #[trigger] self.coeffs@[j] == other.coeffs@[j],
            decreases self.coeffs.len() - i,
        {
            if self.coeffs[i] != other.coeffs[i] {
                return false;
            }
            i += 1;
        }
        proof {
            assert(self.coeffs@ =~= other.coeffs@);
        }
        true
    }

    /// Whether this form is at most `other` for every value of the
    /// parameters: term by term, since parameters range over all naturals.
    pub fn is_leq(&self, other: &NatLinearForm) -> (b: bool)
        ensures
            b == (self@.0 <= other@.0 && forall|i: int| 0 <= i ==> #[trigger] self.coefficient(i)
                <= other.coefficient(i)),
    {
        if self.constant > other.constant {
            return false;
        }
        let mut i: usize = 0;
        while i < self.coeffs.len()
            invariant
                i <= self.coeffs@.len(),
                forall|j: int| 0 <= j < i ==> #[trigger] self.coefficient(j) <= other.coefficient(j),
            decreases self.coeffs@.len() - i,
        {
            let b = if i < other.coeffs.len() {
                other.coeffs[i]
            } else {
                0
            };
            if self.coeffs[i] > b {
                proof {
                    assert(self.coefficient(i as int) > other.coefficient(i as int));
                }
                return false;
            }
            i += 1;
        }
        proof {
            assert forall|j: int| 0 <= j implies #[trigger] self.coefficient(j) <= other.coefficient(j) by {
                if j >= self.coeffs@.len() {
                    assert(self.coefficient(j) == 0);
                }
            }
        }
        true
    }

    /// The form shifted by a constant; fails when the constant term overflows.
    pub fn add_constant(&self, k: u64) -> (r: Result<NatLinearForm, NatFormError>)
        ensures
            r is Ok <==> self@.0 + k <= u64::MAX,
            r matches Err(e) ==> e == NatFormError::Overflow,
            r matches Ok(f) ==> f@ == (((self@.0 + k) as nat), self@.1),
    {
        proof {
            use_type_invariant(self);
        }
        match self.constant.checked_add(k) {
            Some(c) => Ok(NatLinearForm { constant: c, coeffs: self.coeffs.clone() }),
            None => Err(NatFormError::Overflow),
        }
    }

    /// Sum of two forms; fails when a coefficient or the constant overflows.
    pub fn add(&self, other: &NatLinearForm) -> (r: Result<NatLinearForm, NatFormError>)
        ensures
            r is Ok <==> (self@.0 + other@.0 <= u64::MAX && forall|i: int|
                0 <= i ==> #[trigger] self.coefficient(i) + other.coefficient(i) <= u64::MAX),
            r matches Err(e) ==> e == NatFormError::Overflow,
            r matches Ok(f) ==> f@.0 == self@.0 + other@.0 && coeffs_trimmed(f@.1) && forall|i: int|
                0 <= i ==> #[trigger] f.coefficient(i) == self.coefficient(i) + other.coefficient(i),
    {
        proof {
            use_type_invariant(self);
            use_type_invariant(other);
        }
        let constant = match self.constant.checked_add(other.constant) {
            Some(c) => c,
            None => {
                return Err(NatFormError::Overflow);
            },
        };
        let la = self.coeffs.len();
        let lb = other.coeffs.len();
        let n = if la < lb {
            lb
        } else {
            la
        };
        let mut coeffs: Vec<u64> = Vec::new();
        let mut i: usize = 0;
        while i < n
            invariant
                la == self@.1.len(),
                lb == other@.1.len(),
                la <= MAX_NAT_PARAMS,
                lb <= MAX_NAT_PARAMS,
                n == if la < lb {
                    lb
                } else {
                    la
                },
                i <= n,
                coeffs@.len() == i,
                forall|j: int| 0 <= j < i ==> #[trigger] coeffs@[j] == self.coefficient(j) + other.coefficient(j),
            decreases n - i,
        {
            let x = if i < la {
                self.coeffs[i]
            } else {
                0
            };
            let y = if i < lb {
                other.coeffs[i]
            } else {
                0
            };
            match x.checked_add(y) {
                Some(z) => coeffs.push(z),
                None => {
                    assert(self.coefficient(i as int) + other.coefficient(i as int) > u64::MAX);
                    return Err(NatFormError::Overflow);
                },
            }
            i += 1;
        }
        let ghost c = coeffs@;
        let f = Self::from_parts(constant, coeffs);
        proof {
            assert forall|j: int| 0 <= j implies #[trigger] f.coefficient(j) == self.coefficient(j)
                + other.coefficient(j) by {
                assert(f.coefficient(j) == coeff_at(c, j));
            }
            assert forall|j: int| 0 <= j implies #[trigger] self.coefficient(j) + other.coefficient(j)
                <= u64::MAX by {
                if j < n {
                    assert(c[j] == self.coefficient(j) + other.coefficient(j));
                }
            }
        }
        Ok(f)
    }

    /// Multiply every term by a constant.
    fn scale(&self, k: u64) -> (r: Result<NatLinearForm, NatFormError>)
        ensures
            r is Ok <==> self.scale_fits(k as nat),
            r matches Err(e) ==> e == NatFormError::Overflow,
            r matches Ok(f) ==> f@.0 == self@.0 * k && coeffs_trimmed(f@.1) && forall|i: int|
                0 <= i ==> #[trigger] f.coefficient(i) == self.coefficient(i) * k,
    {
        proof {
            use_type_invariant(self);
        }
        let constant = match self.constant.checked_mul(k) {
            Some(c) => c,
            None => {
                return Err(NatFormError::Overflow);
            },
        };
        let n = self.coeffs.len();
        let mut coeffs: Vec<u64> = Vec::new();
        let mut i: usize = 0;
        while i < n
            invariant
                n == self@.1.len(),
                n <= MAX_NAT_PARAMS,
                i <= n,
                coeffs@.len() == i,
                forall|j: int| 0 <= j < i ==> #[trigger] coeffs@[j] == self.coefficient(j) * k,
            decreases n - i,
        {
            match self.coeffs[i].checked_mul(k) {
                Some(z) => coeffs.push(z),
                None => {
                    assert(self.coefficient(i as int) * k > u64::MAX);
                    return Err(NatFormError::Overflow);
                },
            }
            i += 1;
        }
        let ghost c = coeffs@;
        let f = Self::from_parts(constant, coeffs);
        proof {
            assert forall|j: int| 0 <= j implies #[trigger] f.coefficient(j) == self.coefficient(j)
                * k by {
                assert(f.coefficient(j) == coeff_at(c, j));
                if j >= n {
                    assert(self.coefficient(j) * k == 0) by (nonlinear_arith)
                        requires
                            self.coefficient(j) == 0,
                    ;
                }
            }
            assert forall|j: int| 0 <= j implies #[trigger] self.coefficient(j) * k <= u64::MAX by {
                if j < n {
                    assert(c[j] == self.coefficient(j) * k);
                } else {
                    assert(self.coefficient(j) * k == 0) by (nonlinear_arith)
                        requires
                            self.coefficient(j) == 0,
                    ;
                }
            }
        }
        Ok(f)
    }

    /// Product of two forms; linear only when one side is constant.
    pub fn mul(&self, other: &NatLinearForm) -> (r: Result<NatLinearForm, NatFormError>)
        ensures
            !self.spec_is_constant() && !other.spec_is_constant() ==> r == Err::<
                NatLinearForm,
                NatFormError,
            >(NatFormError::NonLinear),
            r matches Ok(f) ==> coeffs_trimmed(f@.1),
            self.spec_is_constant() ==> (r is Ok <==> other.scale_fits(self@.0)),
            self.spec_is_constant() ==> (r matches Ok(f) ==> f@.0 == other@.0 * self@.0
                && forall|i: int| 0 <= i ==> #[trigger] f.coefficient(i) == other.coefficient(i)
                * self@.0),
            !self.spec_is_constant() && other.spec_is_constant() ==> (r is Ok
                <==> self.scale_fits(other@.0)),
            !self.spec_is_constant() && other.spec_is_constant() ==> (r matches Ok(f) ==> f@.0
                == self@.0 * other@.0 && forall|i: int|
                0 <= i ==> #[trigger] f.coefficient(i) == self.coefficient(i) * other@.0),
    {
        if self.coeffs.len() == 0 {
            other.scale(self.constant)
        } else if other.coeffs.len() == 0 {
            self.scale(other.constant)
        } else {
            Err(NatFormError::NonLinear)
        }
    }
}

} // verus!
