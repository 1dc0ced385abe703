//! Specializing retained Nat obligations under concrete generic bindings.
//!
//! A bound expression is checked once, generically; its Nat parameters are
//! named by position in the lexical scope of the declaration that owns them.
//! Discharging the bound for one concrete application maps each position to
//! the owning generic parameter (`scope`) and that parameter to its value
//! (`bindings`), then evaluates the retained forms.

use crate::declared::{darg_view, dargs_view, lemma_dargs_view, DeclaredGenericArg, DeclaredType};
use crate::index::{IndexCardinality, IndexRefV, IndexTypeRef, MAX_INDEX_CARDINALITY};
use crate::nat_form::{NatLinearForm, NatParam, MAX_NAT_PARAMS};
use crate::types::{ArgV, TypeV};
use std::collections::HashMap;
use vstd::prelude::*;

verus! {

broadcast use {vstd::std_specs::vec::axiom_vec_index_decreases, vstd::std_specs::hash::group_hash_axioms};

/// Why a retained Nat form cannot be evaluated under the given bindings.
#[derive(Clone, Copy, Debug, PartialEq, Eq, Structural)]
pub enum BoundNatError {
    /// The value leaves the `u64` range.
    Overflow,
    /// The form mentions a parameter position that has no lexical owner.
    MissingScope(NatParam),
    /// The owning generic parameter has no concrete binding.
    MissingBinding(u64),
}

/// Why a type cannot be specialized under the given bindings.
#[derive(Clone, Copy, Debug, PartialEq, Eq, Structural)]
pub enum NatBindingError {
    Bound(BoundNatError),
    /// A finite index evaluated to a size that is not a valid cardinality.
    InvalidIndexSize(u64),
}

/// Evaluation of the constant and the first `n` parameter terms of a form, in
/// parameter order; the first failing term decides the error.
pub open spec fn eval_terms(
    f: (nat, Seq<u64>),
    scope: Map<u32, u64>,
    bindings: Map<u64, u64>,
    n: int,
) -> Result<nat, BoundNatError>
    decreases n,
{
    if n <= 0 {
        Ok(f.0)
    } else {
        match eval_terms(f, scope, bindings, n - 1) {
            Err(e) => Err(e),
            Ok(s) => {
                let c = f.1[n - 1];
                let p = (n - 1) as u32;
                if c == 0 {
                    Ok(s)
                } else if !scope.contains_key(p) {
                    Err(BoundNatError::MissingScope(NatParam(p)))
                } else if !bindings.contains_key(scope[p]) {
                    Err(BoundNatError::MissingBinding(scope[p]))
                } else if s + c * bindings[scope[p]] > u64::MAX {
                    Err(BoundNatError::Overflow)
                } else {
                    Ok((s + c * bindings[scope[p]]) as nat)
                }
            },
        }
    }
}

/// Value of a form under `scope` and `bindings`.
pub open spec fn eval_form(f: (nat, Seq<u64>), scope: Map<u32, u64>, bindings: Map<u64, u64>) -> Result<
    nat,
    BoundNatError,
> {
    eval_terms(f, scope, bindings, f.1.len() as int)
}

proof fn lemma_eval_err_sticks(
    f: (nat, Seq<u64>),
    scope: Map<u32, u64>,
    bindings: Map<u64, u64>,
    k: int,
    m: int,
)
    requires
        0 < k <= m,
        eval_terms(f, scope, bindings, k) is Err,
    ensures
        eval_terms(f, scope, bindings, m) == eval_terms(f, scope, bindings, k),
    decreases m - k,
{
    if k < m {
        lemma_eval_err_sticks(f, scope, bindings, k, m - 1);
    }
}

/// Evaluate a retained linear Nat form: each parameter position with a nonzero
/// coefficient is looked up in `scope`, its owner in `bindings`, and the
/// weighted sum is computed without leaving `u64`.
pub fn evaluate_bound_linear(
    form: &NatLinearForm,
    scope: &HashMap<u32, u64>,
    bindings: &HashMap<u64, u64>,
) -> (r: Result<u64, BoundNatError>)
    ensures
        match r {
            Ok(v) => eval_form(form@, scope@, bindings@) == Ok::<nat, BoundNatError>(v as nat),
            Err(e) => eval_form(form@, scope@, bindings@) == Err::<nat, BoundNatError>(e),
        },
{
    let n = form.param_count();
    let mut acc: u64 = form.constant();
    let mut i: usize = 0;
    while i < n
        invariant
            n == form@.1.len(),
            n <= MAX_NAT_PARAMS,
            i <= n,
            eval_terms(form@, scope@, bindings@, i as int) == Ok::<nat, BoundNatError>(acc as nat),
        decreases n - i,
    {
        let c = form.coefficient_at(i);
        if c != 0 {
            let p = i as u32;
            let id = match scope.get(&p) {
                Some(id) => *id,
                None => {
                    proof {
                        lemma_eval_err_sticks(form@, scope@, bindings@, i + 1, n as int);
                    }
                    return Err(BoundNatError::MissingScope(NatParam(p)));
                },
            };
            let value = match bindings.get(&id) {
                Some(v) => *v,
                None => {
                    proof {
                        lemma_eval_err_sticks(form@, scope@, bindings@, i + 1, n as int);
                    }
                    return Err(BoundNatError::MissingBinding(id));
                },
            };
            let term = match c.checked_mul(value) {
                Some(t) => t,
                None => {
                    proof {
                        assert(acc + c * value > u64::MAX);
                        lemma_eval_err_sticks(form@, scope@, bindings@, i + 1, n as int);
                    }
                    return Err(BoundNatError::Overflow);
                },
            };
            acc = match acc.checked_add(term) {
                Some(s) => s,
                None => {
                    proof {
                        lemma_eval_err_sticks(form@, scope@, bindings@, i + 1, n as int);
                    }
                    return Err(BoundNatError::Overflow);
                },
            };
        }
        i += 1;
    }
    Ok(acc)
}

/// An index reference after binding: a finite index becomes the concrete
/// `range(n)` of its value, which must be a valid cardinality.
pub open spec fn bind_index_v(i: IndexRefV, scope: Map<u32, u64>, bindings: Map<u64, u64>) -> Result<
    IndexRefV,
    NatBindingError,
> {
    match i {
        IndexRefV::Declared(_) => Ok(i),
        IndexRefV::NatRange(f) => match eval_form(f, scope, bindings) {
            Err(e) => Err(NatBindingError::Bound(e)),
            Ok(v) => if 1 <= v <= MAX_INDEX_CARDINALITY {
                Ok(IndexRefV::NatRange((v, Seq::<u64>::empty())))
            } else {
                Err(NatBindingError::InvalidIndexSize(v as u64))
            },
        },
    }
}

/// A type after binding its Nat parameters; the first failure in source
/// order (element before index, arguments left to right) decides the error.
pub open spec fn bind_type_v(t: TypeV, scope: Map<u32, u64>, bindings: Map<u64, u64>) -> Result<
    TypeV,
    NatBindingError,
>
    decreases t, 0int,
{
    match t {
        TypeV::IndexArg(i) => match bind_index_v(i, scope, bindings) {
            Ok(j) => Ok(TypeV::IndexArg(j)),
            Err(x) => Err(x),
        },
        TypeV::Key(i) => match bind_index_v(i, scope, bindings) {
            Ok(j) => Ok(TypeV::Key(j)),
            Err(x) => Err(x),
        },
        TypeV::Indexed(e, i) => match bind_type_v(*e, scope, bindings) {
            Err(x) => Err(x),
            Ok(e2) => match bind_index_v(i, scope, bindings) {
                Err(x) => Err(x),
                Ok(j) => Ok(TypeV::Indexed(Box::new(e2), j)),
            },
        },
        TypeV::Struct(s, args) => match bind_args_v(args, scope, bindings, args.len() as int) {
            Err(x) => Err(x),
            Ok(a2) => Ok(TypeV::Struct(s, a2)),
        },
        _ => Ok(t),
    }
}

pub open spec fn bind_args_v(args: Seq<ArgV>, scope: Map<u32, u64>, bindings: Map<u64, u64>, n: int) -> Result<
    Seq<ArgV>,
    NatBindingError,
>
    decreases args, n,
{
    if n <= 0 || n > args.len() {
        Ok(Seq::empty())
    } else {
        match bind_args_v(args, scope, bindings, n - 1) {
            Err(x) => Err(x),
            Ok(p) => match bind_arg_v(args[n - 1], scope, bindings) {
                Err(x) => Err(x),
                Ok(a) => Ok(p.push(a)),
            },
        }
    }
}

pub open spec fn bind_arg_v(a: ArgV, scope: Map<u32, u64>, bindings: Map<u64, u64>) -> Result<
    ArgV,
    NatBindingError,
>
    decreases a, 0int,
{
    match a {
        ArgV::Dim(_) => Ok(a),
        ArgV::Index(i) => match bind_index_v(i, scope, bindings) {
            Ok(j) => Ok(ArgV::Index(j)),
            Err(x) => Err(x),
        },
        ArgV::Nat(f) => match eval_form(f, scope, bindings) {
            Ok(v) => Ok(ArgV::Nat((v, Seq::<u64>::empty()))),
            Err(e) => Err(NatBindingError::Bound(e)),
        },
        ArgV::Type(t) => match bind_type_v(*t, scope, bindings) {
            Ok(u) => Ok(ArgV::Type(Box::new(u))),
            Err(x) => Err(x),
        },
    }
}

proof fn lemma_bind_args_err_sticks(
    args: Seq<ArgV>,
    scope: Map<u32, u64>,
    bindings: Map<u64, u64>,
    k: int,
    m: int,
)
    requires
        0 < k <= m <= args.len(),
        bind_args_v(args, scope, bindings, k) is Err,
    ensures
        bind_args_v(args, scope, bindings, m) == bind_args_v(args, scope, bindings, k),
    decreases m - k,
{
    if k < m {
        lemma_bind_args_err_sticks(args, scope, bindings, k, m - 1);
    }
}

/// Bind the Nat parameters of one index reference.
pub fn bind_index_nats(
    index: &IndexTypeRef,
    scope: &HashMap<u32, u64>,
    bindings: &HashMap<u64, u64>,
) -> (r: Result<IndexTypeRef, NatBindingError>)
    ensures
        match r {
            Ok(j) => bind_index_v(index@, scope@, bindings@) == Ok::<IndexRefV, NatBindingError>(j@),
            Err(e) => bind_index_v(index@, scope@, bindings@) == Err::<IndexRefV, NatBindingError>(e),
        },
{
    match index.nat_range_form() {
        None => Ok(index.clone()),
        Some(form) => {
            let value = match evaluate_bound_linear(&form, scope, bindings) {
                Ok(v) => v,
                Err(e) => {
                    return Err(NatBindingError::Bound(e));
                },
            };
            match IndexCardinality::try_from_u64(value) {
                Some(size) => Ok(IndexTypeRef::from_cardinality(size)),
                None => Err(NatBindingError::InvalidIndexSize(value)),
            }
        },
    }
}

fn bind_args_nats(
    v: &Vec<DeclaredGenericArg>,
    scope: &HashMap<u32, u64>,
    bindings: &HashMap<u64, u64>,
) -> (r: Result<Vec<DeclaredGenericArg>, NatBindingError>)
    ensures
        dargs_view(*v, v@.len() as int).len() == v@.len(),
        match r {
            Ok(w) => bind_args_v(dargs_view(*v, v@.len() as int), scope@, bindings@, v@.len() as int)
                == Ok::<Seq<ArgV>, NatBindingError>(dargs_view(w, w@.len() as int)),
            Err(e) => bind_args_v(dargs_view(*v, v@.len() as int), scope@, bindings@, v@.len() as int)
                == Err::<Seq<ArgV>, NatBindingError>(e),
        },
    decreases v, 1int,
{
    proof {
        lemma_dargs_view(*v, v@.len() as int);
    }
    let ghost av = dargs_view(*v, v@.len() as int);
    let ghost mut p: Seq<ArgV> = Seq::empty();
    let mut w: Vec<DeclaredGenericArg> = Vec::new();
    let mut i: usize = 0;
    while i < v.len()
        invariant
            av == dargs_view(*v, v@.len() as int),
            av.len() == v@.len(),
            forall|j: int| 0 <= j < v@.len() ==> #[trigger] av[j] == darg_view(v@[j]),
            i <= v@.len(),
            w@.len() == i,
            p.len() == i,
            forall|j: int| 0 <= j < i ==> #[trigger] p[j] == darg_view(w@[j]),
            bind_args_v(av, scope@, bindings@, i as int) == Ok::<Seq<ArgV>, NatBindingError>(p),
        decreases v@.len() - i,
    {
        proof {
            assert(decreases_to!(*v => v@[i as int]));
        }
        match bind_arg_nats(&v[i], scope, bindings) {
            Ok(a) => {
                proof {
                    p = p.push(a@);
                }
                w.push(a);
            },
            Err(e) => {
                proof {
                    lemma_bind_args_err_sticks(av, scope@, bindings@, i + 1, v@.len() as int);
                }
                return Err(e);
            },
        }
        i += 1;
    }
    proof {
        lemma_dargs_view(w, w@.len() as int);
        assert(dargs_view(w, w@.len() as int) =~= p);
    }
    Ok(w)
}

fn bind_arg_nats(
    a: &DeclaredGenericArg,
    scope: &HashMap<u32, u64>,
    bindings: &HashMap<u64, u64>,
) -> (r: Result<DeclaredGenericArg, NatBindingError>)
    ensures
        match r {
            Ok(b) => bind_arg_v(a@, scope@, bindings@) == Ok::<ArgV, NatBindingError>(b@),
            Err(e) => bind_arg_v(a@, scope@, bindings@) == Err::<ArgV, NatBindingError>(e),
        },
    decreases a, 0int,
{
    match a {
        DeclaredGenericArg::Dim(d) => Ok(DeclaredGenericArg::Dim(d.clone())),
        DeclaredGenericArg::Index(i) => match bind_index_nats(i, scope, bindings) {
            Ok(j) => Ok(DeclaredGenericArg::Index(j)),
            Err(e) => Err(e),
        },
        DeclaredGenericArg::Nat(f) => match evaluate_bound_linear(f, scope, bindings) {
            Ok(v) => {
                let g = NatLinearForm::from_constant(v);
                proof {
                    assert(g@.1 =~= Seq::<u64>::empty());
                }
                Ok(DeclaredGenericArg::Nat(g))
            },
            Err(e) => Err(NatBindingError::Bound(e)),
        },
        DeclaredGenericArg::Type(t) => match bind_type_nats(t, scope, bindings) {
            Ok(u) => Ok(DeclaredGenericArg::Type(u)),
            Err(e) => Err(e),
        },
    }
}

/// Bind the Nat parameters of a declared type: finite indexes become concrete
/// `range(n)` indexes and Nat arguments become constants.
pub fn bind_type_nats(
    ty: &DeclaredType,
    scope: &HashMap<u32, u64>,
    bindings: &HashMap<u64, u64>,
) -> (r: Result<DeclaredType, NatBindingError>)
    ensures
        match r {
            Ok(u) => bind_type_v(ty@, scope@, bindings@) == Ok::<TypeV, NatBindingError>(u@),
            Err(e) => bind_type_v(ty@, scope@, bindings@) == Err::<TypeV, NatBindingError>(e),
        },
    decreases ty, 0int,
{
    match ty {
        DeclaredType::IndexArg(i) => match bind_index_nats(i, scope, bindings) {
            Ok(j) => Ok(DeclaredType::IndexArg(j)),
            Err(e) => Err(e),
        },
        DeclaredType::Key(i) => match bind_index_nats(i, scope, bindings) {
            Ok(j) => Ok(DeclaredType::Key(j)),
            Err(e) => Err(e),
        },
        DeclaredType::Indexed { element, index } => {
            let e2 = match bind_type_nats(element, scope, bindings) {
                Ok(u) => u,
                Err(e) => {
                    return Err(e);
                },
            };
            match bind_index_nats(index, scope, bindings) {
                Ok(j) => Ok(DeclaredType::Indexed { element: Box::new(e2), index: j }),
                Err(e) => Err(e),
            }
        },
        DeclaredType::Struct(s, args) => match bind_args_nats(args, scope, bindings) {
            Ok(w) => Ok(DeclaredType::Struct(*s, w)),
            Err(e) => Err(e),
        },
        _ => Ok(ty.clone()),
    }
}

} // verus!
