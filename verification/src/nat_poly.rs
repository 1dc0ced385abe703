//! Polynomial Nat forms: sums of monomials, each a coefficient times a
//! product of Nat parameters, and their evaluation under lexical bindings.
//!
//! A parameter is named by the number its lexical scope gives it; `scope`
//! maps that number to the identity of the owning generic parameter and
//! `bindings` maps the identity to its value.  Evaluation stays inside
//! `u64`: monomials are evaluated factor by factor and summed in order, and
//! the first missing name, missing binding or overflow decides the error.

use crate::bound_nat::BoundNatError;
use crate::nat_form::NatParam;
use std::collections::HashMap;
use vstd::prelude::*;

verus! {

broadcast use vstd::std_specs::hash::group_hash_axioms;

/// A coefficient times the product of the listed parameters (a parameter
/// listed twice is squared).
#[derive(Debug, PartialEq, Eq)]
pub struct NatMonomial {
    pub coefficient: u64,
    pub params: Vec<u32>,
}

/// A sum of monomials.
#[derive(Debug, PartialEq, Eq)]
pub struct NatPolyForm {
    pub terms: Vec<NatMonomial>,
}

/// The product of two forms has a coefficient beyond `u64`.
#[derive(Clone, Copy, Debug, PartialEq, Eq, Structural)]
pub struct NatPolyOverflow;

pub open spec fn mono_view(m: NatMonomial) -> (nat, Seq<u32>) {
    (m.coefficient as nat, m.params@)
}

impl View for NatPolyForm {
    type V = Seq<(nat, Seq<u32>)>;

    open spec fn view(&self) -> Seq<(nat, Seq<u32>)> {
        self.terms@.map_values(|m: NatMonomial| mono_view(m))
    }
}

/// Each monomial of `b` multiplied by `m`.
pub open spec fn scale_v(m: (nat, Seq<u32>), b: Seq<(nat, Seq<u32>)>) -> Seq<(nat, Seq<u32>)> {
    b.map_values(|t: (nat, Seq<u32>)| ((m.0 * t.0) as nat, m.1 + t.1))
}

/// The product of two forms, monomial by monomial, in order.
pub open spec fn mul_v(a: Seq<(nat, Seq<u32>)>, b: Seq<(nat, Seq<u32>)>) -> Seq<(nat, Seq<u32>)>
    decreases a.len(),
{
    if a.len() == 0 {
        Seq::empty()
    } else {
        mul_v(a.drop_last(), b) + scale_v(a.last(), b)
    }
}

/// Every coefficient of the product fits in `u64`.
pub open spec fn mul_fits(a: Seq<(nat, Seq<u32>)>, b: Seq<(nat, Seq<u32>)>) -> bool {
    forall|i: int, j: int| 0 <= i < a.len() && 0 <= j < b.len() ==> #[trigger] (a[i].0 * b[j].0) <= u64::MAX
}

/// The value of a monomial's coefficient times its first `k` factors.
pub open spec fn mono_eval_v(m: (nat, Seq<u32>), scope: Map<u32, u64>, bindings: Map<u64, u64>, k: int) -> Result<
    nat,
    BoundNatError,
>
    decreases k,
{
    if k <= 0 || k > m.1.len() {
        Ok(m.0)
    } else {
        match mono_eval_v(m, scope, bindings, k - 1) {
            Err(e) => Err(e),
            Ok(p) => {
                let q = m.1[k - 1];
                if !scope.contains_key(q) {
                    Err(BoundNatError::MissingScope(NatParam(q)))
                } else if !bindings.contains_key(scope[q]) {
                    Err(BoundNatError::MissingBinding(scope[q]))
                } else if p * bindings[scope[q]] > u64::MAX {
                    Err(BoundNatError::Overflow)
                } else {
                    Ok((p * bindings[scope[q]]) as nat)
                }
            },
        }
    }
}

/// The sum of the first `n` monomials of a form.
pub open spec fn poly_eval_v(f: Seq<(nat, Seq<u32>)>, scope: Map<u32, u64>, bindings: Map<u64, u64>, n: int) -> Result<
    nat,
    BoundNatError,
>
    decreases n,
{
    if n <= 0 || n > f.len() {
        Ok(0)
    } else {
        match poly_eval_v(f, scope, bindings, n - 1) {
            Err(e) => Err(e),
            Ok(s) => match mono_eval_v(f[n - 1], scope, bindings, f[n - 1].1.len() as int) {
                Err(e) => Err(e),
                Ok(t) => if s + t > u64::MAX {
                    Err(BoundNatError::Overflow)
                } else {
                    Ok(s + t)
                },
            },
        }
    }
}

fn copy_params(a: &Vec<u32>, b: &Vec<u32>) -> (r: Vec<u32>)
    ensures
        r@ == a@ + b@,
{
    let mut r: Vec<u32> = Vec::new();
    let mut i: usize = 0;
    while i < a.len()
        invariant
            i <= a@.len(),
            r@ == a@.take(i as int),
        decreases a@.len() - i,
    {
        r.push(a[i]);
        i += 1;
        proof {
            assert(r@ =~= a@.take(i as int));
        }
    }
    let mut j: usize = 0;
    proof {
        assert(a@.take(a@.len() as int) =~= a@);
    }
    while j < b.len()
        invariant
            j <= b@.len(),
            r@ == a@ + b@.take(j as int),
        decreases b@.len() - j,
    {
        r.push(b[j]);
        j += 1;
        proof {
            assert(r@ =~= a@ + b@.take(j as int));
        }
    }
    proof {
        assert(b@.take(b@.len() as int) =~= b@);
    }
    r
}

impl NatPolyForm {
    /// The constant `value`.
    pub fn constant(value: u64) -> (f: NatPolyForm)
        ensures
            f@ == seq![(value as nat, Seq::<u32>::empty())],
    {
        let f = NatPolyForm { terms: vec![NatMonomial { coefficient: value, params: Vec::new() }] };
        proof {
            assert(f@ =~= seq![(value as nat, Seq::<u32>::empty())]);
        }
        f
    }

    /// The parameter `param` alone.
    pub fn from_var(param: u32) -> (f: NatPolyForm)
        ensures
            f@ == seq![(1nat, seq![param])],
    {
        let f = NatPolyForm { terms: vec![NatMonomial { coefficient: 1, params: vec![param] }] };
        proof {
            assert(f.terms@[0].params@ =~= seq![param]);
            assert(f@ =~= seq![(1nat, seq![param])]);
        }
        f
    }

    /// The sum of two forms: the monomials of `self`, then those of `other`.
    pub fn add(&self, other: &NatPolyForm) -> (f: NatPolyForm)
        ensures
            f@ == self@ + other@,
    {
        let mut terms: Vec<NatMonomial> = Vec::new();
        let mut i: usize = 0;
        let empty: Vec<u32> = Vec::new();
        while i < self.terms.len()
            invariant
                i <= self.terms@.len(),
                empty@.len() == 0,
                terms@.map_values(|m: NatMonomial| mono_view(m)) == self@.take(i as int),
            decreases self.terms@.len() - i,
        {
            let params = copy_params(&self.terms[i].params, &empty);
            let m = NatMonomial { coefficient: self.terms[i].coefficient, params };
            proof {
                assert(m.params@ =~= self.terms@[i as int].params@);
            }
            let ghost mv = mono_view(m);
            let ghost prev = terms@;
            terms.push(m);
            i += 1;
            proof {
                assert(terms@.map_values(|m: NatMonomial| mono_view(m)) =~= prev.map_values(
                    |m: NatMonomial| mono_view(m),
                ).push(mv));
                assert(self@.take(i as int) =~= self@.take(i - 1).push(self@[i - 1]));
            }
        }
        let mut j: usize = 0;
        proof {
            assert(self@.take(self@.len() as int) =~= self@);
        }
        while j < other.terms.len()
            invariant
                i == self.terms@.len(),
                j <= other.terms@.len(),
                empty@.len() == 0,
                terms@.map_values(|m: NatMonomial| mono_view(m)) == self@ + other@.take(j as int),
            decreases other.terms@.len() - j,
        {
            let params = copy_params(&other.terms[j].params, &empty);
            let m = NatMonomial { coefficient: other.terms[j].coefficient, params };
            proof {
                assert(m.params@ =~= other.terms@[j as int].params@);
            }
            let ghost mv = mono_view(m);
            let ghost prev = terms@;
            terms.push(m);
            j += 1;
            proof {
                assert(terms@.map_values(|m: NatMonomial| mono_view(m)) =~= prev.map_values(
                    |m: NatMonomial| mono_view(m),
                ).push(mv));
                assert(other@.take(j as int) =~= other@.take(j - 1).push(other@[j - 1]));
                assert(self@ + other@.take(j as int) =~= (self@ + other@.take(j - 1)).push(other@[j - 1]));
            }
        }
        proof {
            assert(other@.take(other@.len() as int) =~= other@);
        }
        NatPolyForm { terms }
    }

    /// The product of two forms, or an error when a coefficient of the
    /// product leaves `u64`.
    pub fn mul(&self, other: &NatPolyForm) -> (r: Result<NatPolyForm, NatPolyOverflow>)
        ensures
            r is Ok <==> mul_fits(self@, other@),
            r matches Ok(f) ==> f@ == mul_v(self@, other@),
    {
        let ghost a = self@;
        let ghost b = other@;
        let mut terms: Vec<NatMonomial> = Vec::new();
        let mut i: usize = 0;
        while i < self.terms.len()
            invariant
                a == self@,
                b == other@,
                i <= a.len(),
                terms@.map_values(|m: NatMonomial| mono_view(m)) == mul_v(a.take(i as int), b),
                forall|i2: int, j2: int| 0 <= i2 < i && 0 <= j2 < b.len() ==> #[trigger] (a[i2].0 * b[j2].0) <= u64::MAX,
            decreases a.len() - i,
        {
            let ghost before = terms@.map_values(|m: NatMonomial| mono_view(m));
            let mut j: usize = 0;
            while j < other.terms.len()
                invariant
                    a == self@,
                    b == other@,
                    i < a.len(),
                    j <= b.len(),
                    terms@.map_values(|m: NatMonomial| mono_view(m)) == before + scale_v(a[i as int], b.take(j as int)),
                    forall|j2: int| 0 <= j2 < j ==> #[trigger] (a[i as int].0 * b[j2].0) <= u64::MAX,
                decreases b.len() - j,
            {
                let x = &self.terms[i];
                let y = &other.terms[j];
                let c = match x.coefficient.checked_mul(y.coefficient) {
                    Some(c) => c,
                    None => {
                        proof {
                            assert(a[i as int].0 * b[j as int].0 > u64::MAX);
                        }
                        return Err(NatPolyOverflow);
                    },
                };
                let params = copy_params(&x.params, &y.params);
                let m = NatMonomial { coefficient: c, params };
                let ghost mv = mono_view(m);
                let ghost prev = terms@;
                terms.push(m);
                j += 1;
                proof {
                    assert(mv == ((a[i as int].0 * b[j - 1].0) as nat, a[i as int].1 + b[j - 1].1));
                    assert(terms@.map_values(|m: NatMonomial| mono_view(m)) =~= prev.map_values(
                        |m: NatMonomial| mono_view(m),
                    ).push(mv));
                    assert(scale_v(a[i as int], b.take(j as int)) =~= scale_v(a[i as int], b.take(j - 1)).push(mv));
                    assert(terms@.map_values(|m: NatMonomial| mono_view(m)) =~= before + scale_v(
                        a[i as int],
                        b.take(j as int),
                    ));
                }
            }
            proof {
                assert(b.take(b.len() as int) =~= b);
                assert(a.take(i + 1).drop_last() =~= a.take(i as int));
                assert(a.take(i + 1).last() == a[i as int]);
            }
            i += 1;
        }
        proof {
            assert(a.take(a.len() as int) =~= a);
        }
        Ok(NatPolyForm { terms })
    }
}

proof fn lemma_mono_err(m: (nat, Seq<u32>), scope: Map<u32, u64>, bindings: Map<u64, u64>, k: int, n: int)
    requires
        0 <= k <= n <= m.1.len(),
        mono_eval_v(m, scope, bindings, k) is Err,
    ensures
        mono_eval_v(m, scope, bindings, n) == mono_eval_v(m, scope, bindings, k),
    decreases n - k,
{
    if k < n {
        lemma_mono_err(m, scope, bindings, k, n - 1);
    }
}

proof fn lemma_poly_err(f: Seq<(nat, Seq<u32>)>, scope: Map<u32, u64>, bindings: Map<u64, u64>, k: int, n: int)
    requires
        0 <= k <= n <= f.len(),
        poly_eval_v(f, scope, bindings, k) is Err,
    ensures
        poly_eval_v(f, scope, bindings, n) == poly_eval_v(f, scope, bindings, k),
    decreases n - k,
{
    if k < n {
        lemma_poly_err(f, scope, bindings, k, n - 1);
    }
}

fn eval_monomial(m: &NatMonomial, scope: &HashMap<u32, u64>, bindings: &HashMap<u64, u64>) -> (r: Result<
    u64,
    BoundNatError,
>)
    ensures
        match r {
            Ok(v) => mono_eval_v(mono_view(*m), scope@, bindings@, m.params@.len() as int) == Ok::<
                nat,
                BoundNatError,
            >(v as nat),
            Err(e) => mono_eval_v(mono_view(*m), scope@, bindings@, m.params@.len() as int) == Err::<
                nat,
                BoundNatError,
            >(e),
        },
{
    let ghost mv = mono_view(*m);
    let mut acc: u64 = m.coefficient;
    let mut k: usize = 0;
    while k < m.params.len()
        invariant
            mv == mono_view(*m),
            k <= m.params@.len(),
            mono_eval_v(mv, scope@, bindings@, k as int) == Ok::<nat, BoundNatError>(acc as nat),
        decreases m.params@.len() - k,
    {
        let q = m.params[k];
        let id = match scope.get(&q) {
            Some(id) => *id,
            None => {
                proof {
                    lemma_mono_err(mv, scope@, bindings@, k + 1, m.params@.len() as int);
                }
                return Err(BoundNatError::MissingScope(NatParam(q)));
            },
        };
        let value = match bindings.get(&id) {
            Some(v) => *v,
            None => {
                proof {
                    lemma_mono_err(mv, scope@, bindings@, k + 1, m.params@.len() as int);
                }
                return Err(BoundNatError::MissingBinding(id));
            },
        };
        acc = match acc.checked_mul(value) {
            Some(p) => p,
            None => {
                proof {
                    lemma_mono_err(mv, scope@, bindings@, k + 1, m.params@.len() as int);
                }
                return Err(BoundNatError::Overflow);
            },
        };
        k += 1;
    }
    Ok(acc)
}

/// Evaluate a retained Nat form under lexical scope and concrete bindings.
pub fn evaluate_bound_nat(form: &NatPolyForm, scope: &HashMap<u32, u64>, bindings: &HashMap<u64, u64>) -> (r: Result<
    u64,
    BoundNatError,
>)
    ensures
        match r {
            Ok(v) => poly_eval_v(form@, scope@, bindings@, form@.len() as int) == Ok::<nat, BoundNatError>(v as nat),
            Err(e) => poly_eval_v(form@, scope@, bindings@, form@.len() as int) == Err::<nat, BoundNatError>(e),
        },
{
    let ghost f = form@;
    let mut acc: u64 = 0;
    let mut n: usize = 0;
    while n < form.terms.len()
        invariant
            f == form@,
            n <= f.len(),
            poly_eval_v(f, scope@, bindings@, n as int) == Ok::<nat, BoundNatError>(acc as nat),
        decreases f.len() - n,
    {
        proof {
            assert(f[n as int] == mono_view(form.terms@[n as int]));
        }
        let t = match eval_monomial(&form.terms[n], scope, bindings) {
            Ok(t) => t,
            Err(e) => {
                proof {
                    lemma_poly_err(f, scope@, bindings@, n + 1, f.len() as int);
                }
                return Err(e);
            },
        };
        acc = match acc.checked_add(t) {
            Some(s) => s,
            None => {
                proof {
                    lemma_poly_err(f, scope@, bindings@, n + 1, f.len() as int);
                }
                return Err(BoundNatError::Overflow);
            },
        };
        n += 1;
    }
    Ok(acc)
}

} // verus!
