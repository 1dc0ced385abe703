//! Dimension signatures of functions and their interpretation at a call.
//!
//! A signature gives each parameter and the result a dimension monomial: a
//! constant dimension times powers of dimension variables. A call is checked
//! parameter by parameter: a parameter whose monomial is a bare variable binds
//! that variable at its first occurrence and must agree with the binding at
//! later ones; any other monomial is evaluated under the bindings so far and
//! must equal the argument's dimension. The result is the result monomial
//! evaluated under all bindings.

use crate::dimension::{dim_mul_v, dim_pow_v, Dimension};
use crate::index::Symbol;
use crate::rational::Rational;
use crate::rules::Span;
use std::collections::HashMap;
use vstd::prelude::*;

verus! {

broadcast use vstd::std_specs::hash::group_hash_axioms;

/// A dimension variable of a signature.
#[derive(Clone, Copy, Debug, PartialEq, Eq, Structural, Hash)]
pub struct DimVar(pub u32);

/// A constant dimension times powers of dimension variables.
#[derive(Debug)]
pub struct DimMonomial {
    pub constant: Dimension,
    pub factors: Vec<(DimVar, Rational)>,
}

/// Value-level view of a monomial: the constant's exponents and the
/// `(variable, power)` factors in order.
pub type MonomialV = (Seq<(int, int)>, Seq<(u32, (int, int))>);

impl View for DimMonomial {
    type V = MonomialV;

    open spec fn view(&self) -> MonomialV {
        (self.constant@, self.factors@.map_values(|f: (DimVar, Rational)| (f.0.0, f.1@)))
    }
}

/// The kind of value a parameter or result carries.
#[derive(Debug)]
pub enum ValueKind {
    Quantity(DimMonomial),
    Bool,
    Int,
}

pub enum KindV {
    Quantity(MonomialV),
    Bool,
    Int,
}

impl View for ValueKind {
    type V = KindV;

    open spec fn view(&self) -> KindV {
        match self {
            ValueKind::Quantity(m) => KindV::Quantity(m@),
            ValueKind::Bool => KindV::Bool,
            ValueKind::Int => KindV::Int,
        }
    }
}

/// One parameter of a signature.
#[derive(Debug)]
pub struct SignatureParam {
    pub name: Symbol,
    pub kind: ValueKind,
}

/// The dimension signature of a function.
#[derive(Debug)]
pub struct FunctionSignature {
    pub params: Vec<SignatureParam>,
    pub result: ValueKind,
}

impl FunctionSignature {
    /// The kinds of the parameters, in order.
    pub open spec fn param_kinds(self) -> Seq<KindV> {
        self.params@.map_values(|p: SignatureParam| p.kind@)
    }

    /// One parameter of a fixed dimension, and a result of a fixed dimension.
    pub fn fixed_to_fixed(name: Symbol, param: Dimension, result: Dimension) -> (s: FunctionSignature)
        ensures
            s.param_kinds() == seq![KindV::Quantity((param@, Seq::<(u32, (int, int))>::empty()))],
            s.result@ == KindV::Quantity((result@, Seq::<(u32, (int, int))>::empty())),
    {
        let p = DimMonomial { constant: param, factors: Vec::new() };
        let r = DimMonomial { constant: result, factors: Vec::new() };
        assert(p@.1 =~= Seq::<(u32, (int, int))>::empty());
        assert(r@.1 =~= Seq::<(u32, (int, int))>::empty());
        let mut params: Vec<SignatureParam> = Vec::new();
        params.push(SignatureParam { name, kind: ValueKind::Quantity(p) });
        let s = FunctionSignature { params, result: ValueKind::Quantity(r) };
        assert(s.param_kinds() =~= seq![KindV::Quantity((param@, Seq::<(u32, (int, int))>::empty()))]);
        s
    }

    /// The number of parameters.
    pub fn arity(&self) -> (n: usize)
        ensures
            n == self.param_kinds().len(),
    {
        self.params.len()
    }
}

impl DimMonomial {
    /// The monomial that is one variable to the first power.
    pub fn var(var: DimVar) -> (m: DimMonomial)
        ensures
            m@ == (Seq::<(int, int)>::empty(), seq![(var.0, (1int, 1int))]),
    {
        let mut factors: Vec<(DimVar, Rational)> = Vec::new();
        factors.push((var, Rational::one()));
        let m = DimMonomial { constant: Dimension::dimensionless(), factors };
        assert(m@.1 =~= seq![(var.0, (1int, 1int))]);
        m
    }

    /// The variable, when the monomial is exactly one variable to the first power.
    pub fn as_bare_var(&self) -> (r: Option<DimVar>)
        ensures
            match (r, bare_var_v(self@)) {
                (Some(v), Some(w)) => v.0 == w,
                (None, None) => true,
                _ => false,
            },
    {
        if self.constant.is_dimensionless() && self.factors.len() == 1 {
            let (var, power) = self.factors[0];
            if power.numerator() == 1 && power.denominator() == 1 {
                return Some(var);
            }
        }
        None
    }

    /// Evaluate the monomial under dimension bindings, factor by factor.
    pub fn eval(&self, bindings: &HashMap<u32, Dimension>) -> (r: Result<Dimension, MonomialEvalError>)
        ensures
            match (r, eval_v(self@, dims_view(bindings@))) {
                (Ok(d), Ok(v)) => d@ == v,
                (Err(e), Err(f)) => e == f,
                _ => false,
            },
    {
        let ghost mv = self@;
        let ghost bv = dims_view(bindings@);
        let mut acc = self.constant.clone();
        let mut i: usize = 0;
        while i < self.factors.len()
            invariant
                mv == self@,
                bv == dims_view(bindings@),
                i <= self.factors@.len(),
                eval_factors_v(mv.0, mv.1, bv, i as int) == Ok::<Seq<(int, int)>, MonomialEvalError>(acc@),
            decreases self.factors@.len() - i,
        {
            let (var, power) = self.factors[i];
            proof {
                assert(mv.1[i as int] == (var.0, power@));
            }
            let bound = match bindings.get(&var.0) {
                Some(d) => d,
                None => {
                    proof {
                        lemma_eval_err_sticks(mv.0, mv.1, bv, i as int + 1, mv.1.len() as int);
                    }
                    return Err(MonomialEvalError::UnboundVar { var });
                },
            };
            let powered = match bound.pow(power) {
                Ok(p) => p,
                Err(_) => {
                    proof {
                        lemma_eval_err_sticks(mv.0, mv.1, bv, i as int + 1, mv.1.len() as int);
                    }
                    return Err(MonomialEvalError::Overflow);
                },
            };
            acc = match acc.checked_mul(&powered) {
                Ok(p) => p,
                Err(_) => {
                    proof {
                        lemma_eval_err_sticks(mv.0, mv.1, bv, i as int + 1, mv.1.len() as int);
                    }
                    return Err(MonomialEvalError::Overflow);
                },
            };
            i += 1;
        }
        Ok(acc)
    }
}

/// The dimensions bound to variables, by their views.
pub open spec fn dims_view(m: Map<u32, Dimension>) -> Map<u32, Seq<(int, int)>> {
    m.map_values(|d: Dimension| d@)
}

/// The variable of a monomial that is exactly one variable to the first power.
pub open spec fn bare_var_v(m: MonomialV) -> Option<u32> {
    if m.0.len() == 0 && m.1.len() == 1 && m.1[0].1 == (1int, 1int) {
        Some(m.1[0].0)
    } else {
        None
    }
}

/// Why a monomial cannot be evaluated.
#[derive(Clone, Copy, Debug, PartialEq, Eq, Structural)]
pub enum MonomialEvalError {
    UnboundVar { var: DimVar },
    Overflow,
}

/// The constant times the first `n` factors, each a bound variable raised to
/// its power; the first failing factor decides the error.
pub open spec fn eval_factors_v(
    constant: Seq<(int, int)>,
    factors: Seq<(u32, (int, int))>,
    bindings: Map<u32, Seq<(int, int)>>,
    n: int,
) -> Result<Seq<(int, int)>, MonomialEvalError>
    decreases n,
{
    if n <= 0 {
        Ok(constant)
    } else {
        match eval_factors_v(constant, factors, bindings, n - 1) {
            Err(e) => Err(e),
            Ok(acc) => {
                let (var, power) = factors[n - 1];
                if !bindings.contains_key(var) {
                    Err(MonomialEvalError::UnboundVar { var: DimVar(var) })
                } else {
                    match dim_pow_v(bindings[var], power) {
                        None => Err(MonomialEvalError::Overflow),
                        Some(p) => match dim_mul_v(acc, p) {
                            None => Err(MonomialEvalError::Overflow),
                            Some(d) => Ok(d),
                        },
                    }
                }
            },
        }
    }
}

pub open spec fn eval_v(m: MonomialV, bindings: Map<u32, Seq<(int, int)>>) -> Result<
    Seq<(int, int)>,
    MonomialEvalError,
> {
    eval_factors_v(m.0, m.1, bindings, m.1.len() as int)
}

proof fn lemma_eval_err_sticks(
    constant: Seq<(int, int)>,
    factors: Seq<(u32, (int, int))>,
    bindings: Map<u32, Seq<(int, int)>>,
    k: int,
    m: int,
)
    requires
        0 < k <= m,
        eval_factors_v(constant, factors, bindings, k) is Err,
    ensures
        eval_factors_v(constant, factors, bindings, m) == eval_factors_v(constant, factors, bindings, k),
    decreases m - k,
{
    if k < m {
        lemma_eval_err_sticks(constant, factors, bindings, k, m - 1);
    }
}


/// Why a call does not fit a signature.
#[derive(Debug, PartialEq, Eq)]
pub enum SignatureError {
    WrongArity { expected: usize, got: usize, span: Span },
    /// A parameter that is not a quantity, met on the quantity path.
    NonQuantityParameter { position: usize },
    /// A result that is not a quantity, met on the quantity path.
    NonQuantityResult,
    /// The argument at `position` has dimension `found` where `expected` is
    /// required; for a bare-variable parameter, `binding` is the parameter
    /// that bound the variable.
    DimensionMismatch { position: usize, expected: Dimension, found: Dimension, binding: Option<usize> },
    /// A bound variable that no bare-variable parameter of the signature binds.
    LostBindingParameter { var: DimVar },
    /// A monomial refers to a variable that no earlier parameter bound.
    UnboundVar { var: DimVar },
    DimensionOverflow { span: Span },
}

pub enum SigErrV {
    WrongArity { expected: usize, got: usize, span: Span },
    NonQuantityParameter { position: usize },
    NonQuantityResult,
    DimensionMismatch {
        position: usize,
        expected: Seq<(int, int)>,
        found: Seq<(int, int)>,
        binding: Option<usize>,
    },
    LostBindingParameter { var: DimVar },
    UnboundVar { var: DimVar },
    DimensionOverflow { span: Span },
}

impl View for SignatureError {
    type V = SigErrV;

    open spec fn view(&self) -> SigErrV {
        match self {
            SignatureError::WrongArity { expected, got, span } => SigErrV::WrongArity {
                expected: *expected,
                got: *got,
                span: *span,
            },
            SignatureError::NonQuantityParameter { position } => SigErrV::NonQuantityParameter {
                position: *position,
            },
            SignatureError::NonQuantityResult => SigErrV::NonQuantityResult,
            SignatureError::DimensionMismatch { position, expected, found, binding } => {
                SigErrV::DimensionMismatch {
                    position: *position,
                    expected: expected@,
                    found: found@,
                    binding: *binding,
                }
            },
            SignatureError::LostBindingParameter { var } => SigErrV::LostBindingParameter { var: *var },
            SignatureError::UnboundVar { var } => SigErrV::UnboundVar { var: *var },
            SignatureError::DimensionOverflow { span } => SigErrV::DimensionOverflow { span: *span },
        }
    }
}

/// Parameter kind `k` is the bare variable `v`.
pub open spec fn binds_v(k: KindV, v: u32) -> bool {
    match k {
        KindV::Quantity(m) => bare_var_v(m) == Some(v),
        _ => false,
    }
}

/// The first parameter from position `i` on that binds `v` as a bare variable.
pub open spec fn first_binding_from(kinds: Seq<KindV>, v: u32, i: int) -> Option<usize>
    decreases kinds.len() - i,
{
    if i < 0 || i >= kinds.len() {
        None
    } else if binds_v(kinds[i], v) {
        Some(i as usize)
    } else {
        first_binding_from(kinds, v, i + 1)
    }
}

/// The first parameter that binds `var` as a bare variable.
pub fn first_binding_param(sig: &FunctionSignature, var: DimVar) -> (r: Option<usize>)
    ensures
        r == first_binding_from(sig.param_kinds(), var.0, 0),
{
    let ghost kinds = sig.param_kinds();
    let mut i: usize = 0;
    while i < sig.params.len()
        invariant
            kinds == sig.param_kinds(),
            kinds.len() == sig.params@.len(),
            i <= sig.params@.len(),
            first_binding_from(kinds, var.0, 0) == first_binding_from(kinds, var.0, i as int),
        decreases sig.params@.len() - i,
    {
        proof {
            assert(kinds[i as int] == sig.params@[i as int].kind@);
        }
        match &sig.params[i].kind {
            ValueKind::Quantity(m) => match m.as_bare_var() {
                Some(v) => {
                    if v.0 == var.0 {
                        return Some(i);
                    }
                },
                None => {},
            },
            _ => {},
        }
        i += 1;
    }
    None
}

/// Checking one quantity argument against its parameter's monomial under the
/// bindings so far; gives the bindings after the parameter.
pub open spec fn check_param_v(
    kinds: Seq<KindV>,
    position: usize,
    m: MonomialV,
    arg: Seq<(int, int)>,
    arg_span: Span,
    b: Map<u32, Seq<(int, int)>>,
) -> Result<Map<u32, Seq<(int, int)>>, SigErrV> {
    match bare_var_v(m) {
        Some(v) => if b.contains_key(v) {
            if arg != b[v] {
                match first_binding_from(kinds, v, 0) {
                    None => Err(SigErrV::LostBindingParameter { var: DimVar(v) }),
                    Some(p) => Err(
                        SigErrV::DimensionMismatch {
                            position,
                            expected: b[v],
                            found: arg,
                            binding: Some(p),
                        },
                    ),
                }
            } else {
                Ok(b)
            }
        } else {
            Ok(b.insert(v, arg))
        },
        None => match eval_v(m, b) {
            Err(MonomialEvalError::UnboundVar { var }) => Err(SigErrV::UnboundVar { var }),
            Err(MonomialEvalError::Overflow) => Err(SigErrV::DimensionOverflow { span: arg_span }),
            Ok(expected) => if arg != expected {
                Err(SigErrV::DimensionMismatch { position, expected, found: arg, binding: None })
            } else {
                Ok(b)
            },
        },
    }
}

/// Check one quantity argument against its parameter's monomial, binding or
/// comparing dimension variables as the monomial requires.
pub fn check_quantity_param(
    sig: &FunctionSignature,
    position: usize,
    monomial: &DimMonomial,
    arg_dim: &Dimension,
    bindings: &mut HashMap<u32, Dimension>,
    arg_span: Span,
) -> (r: Result<(), SignatureError>)
    ensures
        match r {
            Ok(()) => check_param_v(
                sig.param_kinds(),
                position,
                monomial@,
                arg_dim@,
                arg_span,
                dims_view(old(bindings)@),
            ) == Ok::<Map<u32, Seq<(int, int)>>, SigErrV>(dims_view(final(bindings)@)),
            Err(e) => check_param_v(
                sig.param_kinds(),
                position,
                monomial@,
                arg_dim@,
                arg_span,
                dims_view(old(bindings)@),
            ) == Err::<Map<u32, Seq<(int, int)>>, SigErrV>(e@) && final(bindings)@ == old(bindings)@,
        },
{
    match monomial.as_bare_var() {
        Some(var) => {
            match bindings.get(&var.0) {
                Some(bound) => {
                    if !arg_dim.equals(bound) {
                        let expected = bound.clone();
                        return match first_binding_param(sig, var) {
                            None => Err(SignatureError::LostBindingParameter { var }),
                            Some(p) => Err(
                                SignatureError::DimensionMismatch {
                                    position,
                                    expected,
                                    found: arg_dim.clone(),
                                    binding: Some(p),
                                },
                            ),
                        };
                    }
                    Ok(())
                },
                None => {
                    let ghost before = bindings@;
                    bindings.insert(var.0, arg_dim.clone());
                    proof {
                        assert(dims_view(bindings@) =~= dims_view(before).insert(var.0, arg_dim@));
                    }
                    Ok(())
                },
            }
        },
        None => match monomial.eval(bindings) {
            Err(MonomialEvalError::UnboundVar { var }) => Err(SignatureError::UnboundVar { var }),
            Err(MonomialEvalError::Overflow) => Err(SignatureError::DimensionOverflow { span: arg_span }),
            Ok(expected) => {
                if !arg_dim.equals(&expected) {
                    Err(
                        SignatureError::DimensionMismatch {
                            position,
                            expected,
                            found: arg_dim.clone(),
                            binding: None,
                        },
                    )
                } else {
                    Ok(())
                }
            },
        },
    }
}


/// Argument dimensions and spans, by their views.
pub open spec fn args_view(args: Seq<(Dimension, Span)>) -> Seq<(Seq<(int, int)>, Span)> {
    args.map_values(|a: (Dimension, Span)| (a.0@, a.1))
}

/// The bindings after checking the first `k` arguments, or the first failure.
pub open spec fn walk_v(kinds: Seq<KindV>, args: Seq<(Seq<(int, int)>, Span)>, k: int) -> Result<
    Map<u32, Seq<(int, int)>>,
    SigErrV,
>
    decreases k,
{
    if k <= 0 {
        Ok(Map::empty())
    } else {
        match walk_v(kinds, args, k - 1) {
            Err(e) => Err(e),
            Ok(b) => match kinds[k - 1] {
                KindV::Quantity(m) => check_param_v(kinds, (k - 1) as usize, m, args[k - 1].0, args[k - 1].1, b),
                _ => Err(SigErrV::NonQuantityParameter { position: (k - 1) as usize }),
            },
        }
    }
}

/// Where an arity error points: the first surplus argument, else the last
/// argument, else the call.
pub open spec fn arity_span_v(arity: nat, args: Seq<(Seq<(int, int)>, Span)>, call_span: Span) -> Span {
    if args.len() > arity {
        args[arity as int].1
    } else if args.len() > 0 {
        args.last().1
    } else {
        call_span
    }
}

/// The result dimension of a call, or why the call does not fit.
pub open spec fn infer_fn_dim_v(
    kinds: Seq<KindV>,
    result: KindV,
    args: Seq<(Seq<(int, int)>, Span)>,
    call_span: Span,
) -> Result<Seq<(int, int)>, SigErrV> {
    if args.len() != kinds.len() {
        Err(
            SigErrV::WrongArity {
                expected: kinds.len() as usize,
                got: args.len() as usize,
                span: arity_span_v(kinds.len(), args, call_span),
            },
        )
    } else {
        match walk_v(kinds, args, kinds.len() as int) {
            Err(e) => Err(e),
            Ok(b) => match result {
                KindV::Quantity(m) => match eval_v(m, b) {
                    Ok(d) => Ok(d),
                    Err(MonomialEvalError::UnboundVar { var }) => Err(SigErrV::UnboundVar { var }),
                    Err(MonomialEvalError::Overflow) => Err(SigErrV::DimensionOverflow { span: call_span }),
                },
                _ => Err(SigErrV::NonQuantityResult),
            },
        }
    }
}

proof fn lemma_walk_err_sticks(kinds: Seq<KindV>, args: Seq<(Seq<(int, int)>, Span)>, k: int, m: int)
    requires
        0 < k <= m,
        walk_v(kinds, args, k) is Err,
    ensures
        walk_v(kinds, args, m) == walk_v(kinds, args, k),
    decreases m - k,
{
    if k < m {
        lemma_walk_err_sticks(kinds, args, k, m - 1);
    }
}

/// Check quantity arguments against a signature and compute the result
/// dimension.
pub fn infer_fn_dim(sig: &FunctionSignature, args: &Vec<(Dimension, Span)>, call_span: Span) -> (r: Result<
    Dimension,
    SignatureError,
>)
    ensures
        match (r, infer_fn_dim_v(sig.param_kinds(), sig.result@, args_view(args@), call_span)) {
            (Ok(d), Ok(v)) => d@ == v,
            (Err(e), Err(f)) => e@ == f,
            _ => false,
        },
{
    let ghost kinds = sig.param_kinds();
    let ghost av = args_view(args@);
    let n = sig.arity();
    if args.len() != n {
        let span = if args.len() > n {
            args[n].1
        } else if args.len() > 0 {
            args[args.len() - 1].1
        } else {
            call_span
        };
        return Err(SignatureError::WrongArity { expected: n, got: args.len(), span });
    }
    let mut bindings: HashMap<u32, Dimension> = HashMap::new();
    proof {
        assert(dims_view(bindings@) =~= Map::<u32, Seq<(int, int)>>::empty());
    }
    let mut i: usize = 0;
    while i < n
        invariant
            kinds == sig.param_kinds(),
            av == args_view(args@),
            n == kinds.len(),
            n == args@.len(),
            n == sig.params@.len(),
            i <= n,
            walk_v(kinds, av, i as int) == Ok::<Map<u32, Seq<(int, int)>>, SigErrV>(dims_view(bindings@)),
        decreases n - i,
    {
        proof {
            assert(kinds[i as int] == sig.params@[i as int].kind@);
            assert(av[i as int] == (args@[i as int].0@, args@[i as int].1));
        }
        match &sig.params[i].kind {
            ValueKind::Quantity(m) => {
                match check_quantity_param(sig, i, m, &args[i].0, &mut bindings, args[i].1) {
                    Ok(()) => {},
                    Err(e) => {
                        proof {
                            lemma_walk_err_sticks(kinds, av, i as int + 1, n as int);
                        }
                        return Err(e);
                    },
                }
            },
            _ => {
                proof {
                    lemma_walk_err_sticks(kinds, av, i as int + 1, n as int);
                }
                return Err(SignatureError::NonQuantityParameter { position: i });
            },
        }
        i += 1;
    }
    match &sig.result {
        ValueKind::Quantity(m) => match m.eval(&bindings) {
            Ok(d) => Ok(d),
            Err(MonomialEvalError::UnboundVar { var }) => Err(SignatureError::UnboundVar { var }),
            Err(MonomialEvalError::Overflow) => Err(SignatureError::DimensionOverflow { span: call_span }),
        },
        _ => Err(SignatureError::NonQuantityResult),
    }
}

} // verus!
