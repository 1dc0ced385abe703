//! Generic arguments of a constructor call.
//!
//! The arguments written at the call bind the leading parameters in order;
//! each must be a type argument for a parameter that is not a Nat.  The
//! parameters left out take their defaults, which may repeat the argument of
//! an earlier parameter.  The count of written arguments must lie between
//! the number of leading parameters without a default and the number of
//! parameters.

use crate::complex::types_view;
use crate::model_schema::TypeGenericConstraint;
use crate::rules::Span;
use crate::types::{InferredType, TypeV};
use vstd::prelude::*;

verus! {

/// The default of a generic parameter.
#[derive(Debug)]
pub enum GenericDefault {
    /// A type that mentions no other parameter.
    Concrete(InferredType),
    /// The argument bound to an earlier parameter, by position.
    Param(usize),
}

/// A generic parameter of the constructed type.
#[derive(Debug)]
pub struct CtorGenericParam {
    pub constraint: TypeGenericConstraint,
    pub default: Option<GenericDefault>,
}

/// A generic argument written at a constructor call.
#[derive(Clone, Debug, PartialEq, Eq)]
pub enum CtorGenericArg {
    /// A type argument and the type it denotes.
    Type { ty: InferredType, span: Span },
    /// A generic type parameter of the enclosing scope, not bound at the call.
    UnboundParam { span: Span },
    /// A Nat argument.
    Nat { span: Span },
}

/// Why the generic arguments of a constructor call are rejected.
#[derive(Debug, PartialEq, Eq)]
pub enum CtorGenericError {
    /// Fewer arguments than leading parameters without a default, or more
    /// arguments than parameters.
    Arity { required: usize, total: usize, got: usize, span: Span },
    /// A Nat argument for a Nat parameter: it cannot reach a value type.
    NatInValueType { span: Span },
    /// A type argument for a Nat parameter.
    ExpectedNat { span: Span },
    /// A Nat argument for a parameter that takes a type.
    ExpectedType { span: Span },
    /// A type parameter of the enclosing scope used as an argument.
    UnboundParam { span: Span },
    /// A parameter left out that has no default.
    MissingDefault { span: Span },
    /// A default that repeats a parameter not bound before it.
    UnboundDefault { span: Span },
}

/// The number of leading parameters without a default.
pub open spec fn required_v(params: Seq<CtorGenericParam>) -> nat
    decreases params.len(),
{
    if params.len() == 0 || params[0].default is Some {
        0
    } else {
        1 + required_v(params.drop_first())
    }
}

/// The type bound by one written argument to a parameter of sort `p`.
pub open spec fn explicit_one_v(p: TypeGenericConstraint, a: CtorGenericArg) -> Result<TypeV, CtorGenericError> {
    match a {
        CtorGenericArg::Nat { span } => if p is Nat {
            Err(CtorGenericError::NatInValueType { span })
        } else {
            Err(CtorGenericError::ExpectedType { span })
        },
        CtorGenericArg::Type { ty, span } => if p is Nat {
            Err(CtorGenericError::ExpectedNat { span })
        } else {
            Ok(ty@)
        },
        CtorGenericArg::UnboundParam { span } => if p is Nat {
            Err(CtorGenericError::ExpectedNat { span })
        } else {
            Err(CtorGenericError::UnboundParam { span })
        },
    }
}

/// The types bound by the first `n` written arguments; the first rejection decides.
pub open spec fn explicit_v(params: Seq<CtorGenericParam>, args: Seq<CtorGenericArg>, n: int) -> Result<
    Seq<TypeV>,
    CtorGenericError,
>
    decreases n,
{
    if n <= 0 || n > args.len() || n > params.len() {
        Ok(Seq::empty())
    } else {
        match explicit_v(params, args, n - 1) {
            Err(e) => Err(e),
            Ok(acc) => match explicit_one_v(params[n - 1].constraint, args[n - 1]) {
                Err(e) => Err(e),
                Ok(t) => Ok(acc.push(t)),
            },
        }
    }
}

/// `acc` extended by the defaults of the parameters from `start` up to `n`.
pub open spec fn defaults_v(params: Seq<CtorGenericParam>, acc: Seq<TypeV>, start: int, n: int, span: Span) -> Result<
    Seq<TypeV>,
    CtorGenericError,
>
    decreases n - start,
{
    if n <= start || n > params.len() {
        Ok(acc)
    } else {
        match defaults_v(params, acc, start, n - 1, span) {
            Err(e) => Err(e),
            Ok(a) => match params[n - 1].default {
                None => Err(CtorGenericError::MissingDefault { span }),
                Some(GenericDefault::Concrete(t)) => Ok(a.push(t@)),
                Some(GenericDefault::Param(j)) => if j < a.len() {
                    Ok(a.push(a[j as int]))
                } else {
                    Err(CtorGenericError::UnboundDefault { span })
                },
            },
        }
    }
}

/// The generic arguments a constructor call binds, one per parameter.
pub open spec fn resolve_v(params: Seq<CtorGenericParam>, args: Seq<CtorGenericArg>, span: Span) -> Result<
    Seq<TypeV>,
    CtorGenericError,
> {
    let required = required_v(params);
    if args.len() < required || args.len() > params.len() {
        Err(
            CtorGenericError::Arity {
                required: required as usize,
                total: params.len() as usize,
                got: args.len() as usize,
                span,
            },
        )
    } else {
        match explicit_v(params, args, args.len() as int) {
            Err(e) => Err(e),
            Ok(acc) => defaults_v(params, acc, args.len() as int, params.len() as int, span),
        }
    }
}

proof fn lemma_required_bound(params: Seq<CtorGenericParam>)
    ensures
        required_v(params) <= params.len(),
    decreases params.len(),
{
    if params.len() > 0 && params[0].default is None {
        lemma_required_bound(params.drop_first());
    }
}

fn required_count(params: &Vec<CtorGenericParam>) -> (r: usize)
    ensures
        r == required_v(params@),
{
    let mut i: usize = 0;
    proof {
        assert(params@.subrange(0, params@.len() as int) =~= params@);
    }
    while i < params.len()
        invariant
            i <= params@.len(),
            required_v(params@) == i + required_v(params@.subrange(i as int, params@.len() as int)),
        decreases params@.len() - i,
    {
        if params[i].default.is_some() {
            return i;
        }
        proof {
            let rest = params@.subrange(i as int, params@.len() as int);
            assert(rest.drop_first() =~= params@.subrange(i + 1, params@.len() as int));
        }
        i += 1;
    }
    i
}

fn explicit_one(p: TypeGenericConstraint, a: &CtorGenericArg) -> (r: Result<InferredType, CtorGenericError>)
    ensures
        match (r, explicit_one_v(p, *a)) {
            (Ok(t), Ok(v)) => t@ == v,
            (Err(e), Err(f)) => e == f,
            _ => false,
        },
{
    let is_nat = match p {
        TypeGenericConstraint::Nat => true,
        _ => false,
    };
    match a {
        CtorGenericArg::Nat { span } => if is_nat {
            Err(CtorGenericError::NatInValueType { span: *span })
        } else {
            Err(CtorGenericError::ExpectedType { span: *span })
        },
        CtorGenericArg::Type { ty, span } => if is_nat {
            Err(CtorGenericError::ExpectedNat { span: *span })
        } else {
            Ok(ty.clone())
        },
        CtorGenericArg::UnboundParam { span } => if is_nat {
            Err(CtorGenericError::ExpectedNat { span: *span })
        } else {
            Err(CtorGenericError::UnboundParam { span: *span })
        },
    }
}

proof fn lemma_explicit_err(params: Seq<CtorGenericParam>, args: Seq<CtorGenericArg>, k: int, m: int)
    requires
        0 <= k <= m <= args.len(),
        m <= params.len(),
        explicit_v(params, args, k) is Err,
    ensures
        explicit_v(params, args, m) == explicit_v(params, args, k),
    decreases m - k,
{
    if k < m {
        lemma_explicit_err(params, args, k, m - 1);
    }
}

proof fn lemma_defaults_err(params: Seq<CtorGenericParam>, acc: Seq<TypeV>, start: int, k: int, m: int, span: Span)
    requires
        start <= k <= m <= params.len(),
        defaults_v(params, acc, start, k, span) is Err,
    ensures
        defaults_v(params, acc, start, m, span) == defaults_v(params, acc, start, k, span),
    decreases m - k,
{
    if k < m {
        lemma_defaults_err(params, acc, start, k, m - 1, span);
    }
}

/// Binds a constructor's generic parameters: the written arguments first,
/// then the defaults of the parameters left out.
pub fn resolve_constructor_generic_args(
    params: &Vec<CtorGenericParam>,
    args: &Vec<CtorGenericArg>,
    span: Span,
) -> (r: Result<Vec<InferredType>, CtorGenericError>)
    ensures
        match (r, resolve_v(params@, args@, span)) {
            (Ok(v), Ok(s)) => types_view(v@) == s,
            (Err(e), Err(f)) => e == f,
            _ => false,
        },
{
    let required = required_count(params);
    proof {
        lemma_required_bound(params@);
    }
    if args.len() < required || args.len() > params.len() {
        return Err(CtorGenericError::Arity { required, total: params.len(), got: args.len(), span });
    }
    let mut out: Vec<InferredType> = Vec::new();
    let mut i: usize = 0;
    proof {
        assert(types_view(out@) =~= Seq::<TypeV>::empty());
    }
    while i < args.len()
        invariant
            i <= args@.len() <= params@.len(),
            required_v(params@) <= args@.len(),
            explicit_v(params@, args@, i as int) == Ok::<Seq<TypeV>, CtorGenericError>(types_view(out@)),
        decreases args@.len() - i,
    {
        match explicit_one(params[i].constraint, &args[i]) {
            Ok(t) => {
                let ghost before = out@;
                out.push(t);
                proof {
                    assert(types_view(out@) =~= types_view(before).push(t@));
                }
            },
            Err(e) => {
                proof {
                    lemma_explicit_err(params@, args@, i as int + 1, args@.len() as int);
                }
                return Err(e);
            },
        }
        i += 1;
    }
    let ghost acc = types_view(out@);
    let n_args = args.len();
    while i < params.len()
        invariant
            n_args == args@.len(),
            n_args <= i <= params@.len(),
            required_v(params@) <= n_args,
            explicit_v(params@, args@, n_args as int) == Ok::<Seq<TypeV>, CtorGenericError>(acc),
            defaults_v(params@, acc, n_args as int, i as int, span) == Ok::<Seq<TypeV>, CtorGenericError>(
                types_view(out@),
            ),
        decreases params@.len() - i,
    {
        let t = match &params[i].default {
            None => {
                proof {
                    lemma_defaults_err(params@, acc, n_args as int, i + 1, params@.len() as int, span);
                }
                return Err(CtorGenericError::MissingDefault { span });
            },
            Some(GenericDefault::Concrete(t)) => t.clone(),
            Some(GenericDefault::Param(j)) => {
                if *j >= out.len() {
                    proof {
                        lemma_defaults_err(params@, acc, n_args as int, i + 1, params@.len() as int, span);
                    }
                    return Err(CtorGenericError::UnboundDefault { span });
                }
                out[*j].clone()
            },
        };
        let ghost before = out@;
        out.push(t);
        proof {
            assert(types_view(out@) =~= types_view(before).push(t@));
        }
        i += 1;
    }
    Ok(out)
}

} // verus!
