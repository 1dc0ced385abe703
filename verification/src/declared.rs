//! Declared (annotation) types and their relation to inferred types.

use crate::dimension::Dimension;
use crate::index::{IndexTypeRef, StructTypeRef};
use crate::nat_form::NatLinearForm;
use crate::types::{
    args_view, arg_view, is_int_like_v, lemma_args_view, quantity_dim_v, ArgV, InferredGenericArg,
    InferredIndex, InferredStructType, InferredType, TimeScale, TypeV,
};
use vstd::prelude::*;

verus! {

broadcast use vstd::std_specs::vec::axiom_vec_index_decreases;

/// A generic argument of a declared struct type.
#[derive(Debug, PartialEq, Eq)]
pub enum DeclaredGenericArg {
    Dim(Dimension),
    Index(IndexTypeRef),
    Nat(NatLinearForm),
    Type(DeclaredType),
}

/// A type written in a declaration annotation.
#[derive(Debug, PartialEq, Eq)]
pub enum DeclaredType {
    Quantity(Dimension),
    Complex(Dimension),
    Bool,
    Int,
    Datetime(TimeScale),
    Key(IndexTypeRef),
    IndexArg(IndexTypeRef),
    Struct(StructTypeRef, Vec<DeclaredGenericArg>),
    Indexed { element: Box<DeclaredType>, index: IndexTypeRef },
}

/// A declared type is viewed as the inferred type it denotes.
pub open spec fn decl_view(d: DeclaredType) -> TypeV
    decreases d, 0int,
{
    match d {
        DeclaredType::Quantity(x) => TypeV::Quantity(x@),
        DeclaredType::Complex(x) => TypeV::Complex(x@),
        DeclaredType::Bool => TypeV::Bool,
        DeclaredType::Int => TypeV::Int,
        DeclaredType::Datetime(s) => TypeV::Datetime(s),
        DeclaredType::Key(i) => TypeV::Key(i@),
        DeclaredType::IndexArg(i) => TypeV::IndexArg(i@),
        DeclaredType::Struct(s, args) => TypeV::Struct(s, dargs_view(args, args@.len() as int)),
        DeclaredType::Indexed { element, index } => TypeV::Indexed(
            Box::new(decl_view(*element)),
            index@,
        ),
    }
}

pub open spec fn dargs_view(args: Vec<DeclaredGenericArg>, n: int) -> Seq<ArgV>
    decreases args, n,
{
    if n <= 0 || n > args@.len() {
        Seq::empty()
    } else {
        dargs_view(args, n - 1).push(darg_view(args@[n - 1]))
    }
}

pub open spec fn darg_view(a: DeclaredGenericArg) -> ArgV
    decreases a, 0int,
{
    match a {
        DeclaredGenericArg::Dim(d) => ArgV::Dim(d@),
        DeclaredGenericArg::Index(i) => ArgV::Index(i@),
        DeclaredGenericArg::Nat(f) => ArgV::Nat(f@),
        DeclaredGenericArg::Type(t) => ArgV::Type(Box::new(decl_view(t))),
    }
}

impl View for DeclaredType {
    type V = TypeV;

    open spec fn view(&self) -> TypeV {
        decl_view(*self)
    }
}

impl View for DeclaredGenericArg {
    type V = ArgV;

    open spec fn view(&self) -> ArgV {
        darg_view(*self)
    }
}

pub proof fn lemma_dargs_view(args: Vec<DeclaredGenericArg>, n: int)
    requires
        0 <= n <= args@.len(),
    ensures
        dargs_view(args, n).len() == n,
        forall|i: int| 0 <= i < n ==> #[trigger] dargs_view(args, n)[i] == darg_view(args@[i]),
    decreases n,
{
    if n > 0 {
        lemma_dargs_view(args, n - 1);
    }
}

/// What a declared annotation keeps of an inferred type: `Fin` bounds become
/// `Int`, named-index loop cases become index arguments and coordinate labels
/// become their quantity.
pub open spec fn erase(t: TypeV) -> TypeV
    decreases t, 0int,
{
    match t {
        TypeV::Fin(_) => TypeV::Int,
        TypeV::NamedIndexCase(i) => TypeV::IndexArg(i),
        TypeV::CoordinateIndexLabel(d, _) => TypeV::Quantity(d),
        TypeV::Struct(s, args) => TypeV::Struct(s, erase_args(args, args.len() as int)),
        TypeV::Indexed(e, i) => TypeV::Indexed(Box::new(erase(*e)), i),
        _ => t,
    }
}

pub open spec fn erase_args(args: Seq<ArgV>, n: int) -> Seq<ArgV>
    decreases args, n,
{
    if n <= 0 || n > args.len() {
        Seq::empty()
    } else {
        erase_args(args, n - 1).push(erase_arg(args[n - 1]))
    }
}

pub open spec fn erase_arg(a: ArgV) -> ArgV
    decreases a, 0int,
{
    match a {
        ArgV::Type(t) => ArgV::Type(Box::new(erase(*t))),
        _ => a,
    }
}

pub proof fn lemma_erase_args(args: Seq<ArgV>, n: int)
    requires
        0 <= n <= args.len(),
    ensures
        erase_args(args, n).len() == n,
        forall|i: int| 0 <= i < n ==> #[trigger] erase_args(args, n)[i] == erase_arg(args[i]),
    decreases n,
{
    if n > 0 {
        lemma_erase_args(args, n - 1);
    }
}

/// Declared types are unchanged by erasure.
pub proof fn lemma_erase_declared(d: DeclaredType)
    ensures
        erase(d@) == d@,
    decreases d, 1int,
{
    match d {
        DeclaredType::Struct(s, args) => {
            let v = dargs_view(args, args@.len() as int);
            lemma_dargs_view(args, args@.len() as int);
            lemma_erase_args(v, v.len() as int);
            assert forall|i: int| 0 <= i < v.len() implies #[trigger] erase_args(v, v.len() as int)[i]
                == v[i] by {
                lemma_erase_darg(args@[i]);
            }
            assert(erase_args(v, v.len() as int) =~= v);
        },
        DeclaredType::Indexed { element, index } => {
            lemma_erase_declared(*element);
        },
        _ => {},
    }
}

proof fn lemma_erase_darg(a: DeclaredGenericArg)
    ensures
        erase_arg(a@) == a@,
    decreases a, 0int,
{
    match a {
        DeclaredGenericArg::Type(t) => {
            lemma_erase_declared(t);
        },
        _ => {},
    }
}

/// Erasing twice is erasing once.
pub proof fn lemma_erase_idempotent(t: TypeV)
    ensures
        erase(erase(t)) == erase(t),
    decreases t, 1int,
{
    match t {
        TypeV::Struct(s, args) => {
            let e = erase_args(args, args.len() as int);
            lemma_erase_args(args, args.len() as int);
            lemma_erase_args(e, e.len() as int);
            assert forall|i: int| 0 <= i < e.len() implies #[trigger] erase_args(e, e.len() as int)[i]
                == e[i] by {
                lemma_erase_arg_idempotent(args[i]);
            }
            assert(erase_args(e, e.len() as int) =~= e);
        },
        TypeV::Indexed(e, i) => {
            lemma_erase_idempotent(*e);
        },
        _ => {},
    }
}

proof fn lemma_erase_arg_idempotent(a: ArgV)
    ensures
        erase_arg(erase_arg(a)) == erase_arg(a),
    decreases a, 0int,
{
    match a {
        ArgV::Type(t) => {
            lemma_erase_idempotent(*t);
        },
        _ => {},
    }
}

/// `true` when the view is `Bool` or an indexed collection of `Bool`.
pub open spec fn is_bool_v(t: TypeV) -> bool
    decreases t,
{
    match t {
        TypeV::Bool => true,
        TypeV::Indexed(e, _) => is_bool_v(*e),
        _ => false,
    }
}

/// Whether a declared type (first, viewed) accepts an inferred type (second).
pub open spec fn types_match_v(d: TypeV, i: TypeV) -> bool
    decreases d, 0int,
{
    match (d, i) {
        (TypeV::Quantity(dd), _) => quantity_dim_v(i) == Some(dd),
        (TypeV::Bool, TypeV::Bool) => true,
        (TypeV::Int, _) => is_int_like_v(i),
        (TypeV::Datetime(a), TypeV::Datetime(b)) => a == b,
        (TypeV::IndexArg(a), TypeV::IndexArg(b)) => a == b,
        (TypeV::Struct(s1, a1), TypeV::Struct(s2, a2)) => s1 == s2 && a1.len() == a2.len()
            && args_match_v(a1, a2, a1.len() as int),
        (TypeV::Indexed(e1, x1), TypeV::Indexed(e2, x2)) => x1 == x2 && types_match_v(*e1, *e2),
        _ => false,
    }
}

/// The first `n` argument pairs match.
pub open spec fn args_match_v(a1: Seq<ArgV>, a2: Seq<ArgV>, n: int) -> bool
    decreases a1, n,
{
    if n <= 0 || n > a1.len() {
        true
    } else {
        args_match_v(a1, a2, n - 1) && arg_match_v(a1[n - 1], a2[n - 1])
    }
}

pub open spec fn arg_match_v(a: ArgV, b: ArgV) -> bool
    decreases a, 0int,
{
    match (a, b) {
        (ArgV::Dim(x), ArgV::Dim(y)) => x == y,
        (ArgV::Index(x), ArgV::Index(y)) => x == y,
        (ArgV::Nat(x), ArgV::Nat(y)) => x == y,
        (ArgV::Type(x), ArgV::Type(y)) => types_match_v(*x, *y),
        _ => false,
    }
}

pub proof fn lemma_args_match_v(a1: Seq<ArgV>, a2: Seq<ArgV>, n: int)
    requires
        0 <= n <= a1.len(),
    ensures
        args_match_v(a1, a2, n) == forall|i: int| 0 <= i < n ==> #[trigger] arg_match_v(a1[i], a2[i]),
    decreases n,
{
    if n > 0 {
        lemma_args_match_v(a1, a2, n - 1);
        assert(args_match_v(a1, a2, n) == (args_match_v(a1, a2, n - 1) && arg_match_v(
            a1[n - 1],
            a2[n - 1],
        )));
        if forall|i: int| 0 <= i < n ==> #[trigger] arg_match_v(a1[i], a2[i]) {
            assert forall|i: int| 0 <= i < n - 1 implies #[trigger] arg_match_v(a1[i], a2[i]) by {
            }
            assert(arg_match_v(a1[n - 1], a2[n - 1]));
        }
    }
}

fn clone_dargs(v: &Vec<DeclaredGenericArg>) -> (r: Vec<DeclaredGenericArg>)
    ensures
        r@.len() == v@.len(),
        dargs_view(r, r@.len() as int) == dargs_view(*v, v@.len() as int),
    decreases v, 1int,
{
    let mut r: Vec<DeclaredGenericArg> = Vec::new();
    let mut i: usize = 0;
    while i < v.len()
        invariant
            i <= v@.len(),
            r@.len() == i,
            forall|j: int| 0 <= j < i ==> #[trigger] darg_view(r@[j]) == darg_view(v@[j]),
        decreases v@.len() - i,
    {
        proof {
            assert(decreases_to!(*v => v@[i as int]));
        }
        let a = clone_darg(&v[i]);
        r.push(a);
        i += 1;
    }
    proof {
        lemma_dargs_view(r, r@.len() as int);
        lemma_dargs_view(*v, v@.len() as int);
        assert(dargs_view(r, r@.len() as int) =~= dargs_view(*v, v@.len() as int));
    }
    r
}

fn clone_darg(a: &DeclaredGenericArg) -> (r: DeclaredGenericArg)
    ensures
        r@ == a@,
    decreases a, 0int,
{
    match a {
        DeclaredGenericArg::Dim(d) => DeclaredGenericArg::Dim(d.clone()),
        DeclaredGenericArg::Index(i) => DeclaredGenericArg::Index(i.clone()),
        DeclaredGenericArg::Nat(f) => DeclaredGenericArg::Nat(f.clone()),
        DeclaredGenericArg::Type(t) => DeclaredGenericArg::Type(clone_declared(t)),
    }
}

fn clone_declared(t: &DeclaredType) -> (r: DeclaredType)
    ensures
        r@ == t@,
    decreases t, 0int,
{
    match t {
        DeclaredType::Quantity(d) => DeclaredType::Quantity(d.clone()),
        DeclaredType::Complex(d) => DeclaredType::Complex(d.clone()),
        DeclaredType::Bool => DeclaredType::Bool,
        DeclaredType::Int => DeclaredType::Int,
        DeclaredType::Datetime(s) => DeclaredType::Datetime(*s),
        DeclaredType::Key(i) => DeclaredType::Key(i.clone()),
        DeclaredType::IndexArg(i) => DeclaredType::IndexArg(i.clone()),
        DeclaredType::Struct(s, args) => DeclaredType::Struct(*s, clone_dargs(args)),
        DeclaredType::Indexed { element, index } => DeclaredType::Indexed {
            element: Box::new(clone_declared(element)),
            index: index.clone(),
        },
    }
}

impl Clone for DeclaredType {
    fn clone(&self) -> (r: Self)
        ensures
            r@ == self@,
    {
        clone_declared(self)
    }
}

impl Clone for DeclaredGenericArg {
    fn clone(&self) -> (r: Self)
        ensures
            r@ == self@,
    {
        clone_darg(self)
    }
}

fn inferred_args_from_declared(v: &Vec<DeclaredGenericArg>) -> (r: Vec<InferredGenericArg>)
    ensures
        r@.len() == v@.len(),
        args_view(r, r@.len() as int) == dargs_view(*v, v@.len() as int),
    decreases v, 1int,
{
    let mut r: Vec<InferredGenericArg> = Vec::new();
    let mut i: usize = 0;
    while i < v.len()
        invariant
            i <= v@.len(),
            r@.len() == i,
            forall|j: int| 0 <= j < i ==> #[trigger] arg_view(r@[j]) == darg_view(v@[j]),
        decreases v@.len() - i,
    {
        proof {
            assert(decreases_to!(*v => v@[i as int]));
        }
        let a = inferred_arg_from_declared(&v[i]);
        r.push(a);
        i += 1;
    }
    proof {
        lemma_args_view(r, r@.len() as int);
        lemma_dargs_view(*v, v@.len() as int);
        assert(args_view(r, r@.len() as int) =~= dargs_view(*v, v@.len() as int));
    }
    r
}

/// The inferred generic argument a declared one denotes.
pub fn inferred_arg_from_declared(a: &DeclaredGenericArg) -> (r: InferredGenericArg)
    ensures
        r@ == a@,
    decreases a, 0int,
{
    match a {
        DeclaredGenericArg::Dim(d) => InferredGenericArg::Dim(d.clone()),
        DeclaredGenericArg::Index(i) => InferredGenericArg::Index(InferredIndex::from_ref(i.clone())),
        DeclaredGenericArg::Nat(f) => InferredGenericArg::Nat(f.clone()),
        DeclaredGenericArg::Type(t) => InferredGenericArg::Type(inferred_from_declared(t)),
    }
}

/// The inferred type a declared type denotes.
pub fn inferred_from_declared(d: &DeclaredType) -> (r: InferredType)
    ensures
        r@ == d@,
    decreases d, 0int,
{
    match d {
        DeclaredType::Quantity(x) => InferredType::Quantity(x.clone()),
        DeclaredType::Complex(x) => InferredType::Complex(x.clone()),
        DeclaredType::Bool => InferredType::Bool,
        DeclaredType::Int => InferredType::Int,
        DeclaredType::Datetime(s) => InferredType::Datetime(*s),
        DeclaredType::Key(i) => InferredType::Key(InferredIndex::from_ref(i.clone())),
        DeclaredType::IndexArg(i) => InferredType::IndexArg(InferredIndex::from_ref(i.clone())),
        DeclaredType::Struct(s, args) => InferredType::Struct(
            InferredStructType::from_ref(*s),
            inferred_args_from_declared(args),
        ),
        DeclaredType::Indexed { element, index } => InferredType::Indexed {
            element: Box::new(inferred_from_declared(element)),
            index: InferredIndex::from_ref(index.clone()),
        },
    }
}

fn declared_args_from_inferred(v: &Vec<InferredGenericArg>) -> (r: Vec<DeclaredGenericArg>)
    ensures
        r@.len() == v@.len(),
        dargs_view(r, r@.len() as int) == erase_args(
            args_view(*v, v@.len() as int),
            v@.len() as int,
        ),
    decreases v, 1int,
{
    let mut r: Vec<DeclaredGenericArg> = Vec::new();
    let mut i: usize = 0;
    while i < v.len()
        invariant
            i <= v@.len(),
            r@.len() == i,
            forall|j: int| 0 <= j < i ==> #[trigger] darg_view(r@[j]) == erase_arg(arg_view(v@[j])),
        decreases v@.len() - i,
    {
        proof {
            assert(decreases_to!(*v => v@[i as int]));
        }
        let a = declared_arg_from_inferred(&v[i]);
        r.push(a);
        i += 1;
    }
    proof {
        let av = args_view(*v, v@.len() as int);
        lemma_args_view(*v, v@.len() as int);
        lemma_dargs_view(r, r@.len() as int);
        lemma_erase_args(av, v@.len() as int);
        assert(dargs_view(r, r@.len() as int) =~= erase_args(av, v@.len() as int));
    }
    r
}

/// The declared generic argument an inferred one erases to.
pub fn declared_arg_from_inferred(a: &InferredGenericArg) -> (r: DeclaredGenericArg)
    ensures
        r@ == erase_arg(a@),
    decreases a, 0int,
{
    match a {
        InferredGenericArg::Dim(d) => DeclaredGenericArg::Dim(d.clone()),
        InferredGenericArg::Index(i) => DeclaredGenericArg::Index(i.type_ref().clone()),
        InferredGenericArg::Nat(f) => DeclaredGenericArg::Nat(f.clone()),
        InferredGenericArg::Type(t) => DeclaredGenericArg::Type(declared_from_inferred(t)),
    }
}

/// The declared type an inferred type erases to.
pub fn declared_from_inferred(t: &InferredType) -> (r: DeclaredType)
    ensures
        r@ == erase(t@),
    decreases t, 0int,
{
    match t {
        InferredType::Quantity(d) => DeclaredType::Quantity(d.clone()),
        InferredType::CoordinateIndexLabel { dimension, .. } => DeclaredType::Quantity(
            dimension.clone(),
        ),
        InferredType::Complex(d) => DeclaredType::Complex(d.clone()),
        InferredType::Bool => DeclaredType::Bool,
        InferredType::Int => DeclaredType::Int,
        InferredType::Fin(_) => DeclaredType::Int,
        InferredType::Datetime(s) => DeclaredType::Datetime(*s),
        InferredType::NamedIndexCase(i) => DeclaredType::IndexArg(i.type_ref().clone()),
        InferredType::IndexArg(i) => DeclaredType::IndexArg(i.type_ref().clone()),
        InferredType::Key(i) => DeclaredType::Key(i.type_ref().clone()),
        InferredType::Struct(s, args) => {
            proof {
                lemma_args_view(*args, args@.len() as int);
            }
            DeclaredType::Struct(*s.type_ref(), declared_args_from_inferred(args))
        },
        InferredType::Indexed { element, index } => DeclaredType::Indexed {
            element: Box::new(declared_from_inferred(element)),
            index: index.type_ref().clone(),
        },
    }
}

/// `true` if the type is `Bool` or an indexed collection of `Bool`.
pub fn is_bool_type(ty: &InferredType) -> (b: bool)
    ensures
        b == is_bool_v(ty@),
    decreases ty,
{
    match ty {
        InferredType::Bool => true,
        InferredType::Indexed { element, .. } => is_bool_type(element),
        _ => false,
    }
}

/// Whether a declared type annotation accepts an inferred expression type.
///
/// Struct equality is by identity and generic-argument list only; `Int`
/// accepts `Fin(N)` and a quantity accepts a coordinate label of its dimension.
pub fn types_match(declared: &DeclaredType, inferred: &InferredType) -> (b: bool)
    ensures
        b == types_match_v(declared@, inferred@),
    decreases declared, 0int,
{
    match (declared, inferred) {
        (DeclaredType::Quantity(d), _) => match inferred.quantity_dimension() {
            Some(i) => d.equals(i),
            None => false,
        },
        (DeclaredType::Bool, InferredType::Bool) => true,
        (DeclaredType::Int, _) => inferred.is_int_like(),
        (DeclaredType::Datetime(d), InferredType::Datetime(i)) => *d == *i,
        (DeclaredType::IndexArg(d), InferredType::IndexArg(i)) => i.matches_ref(d),
        (DeclaredType::Struct(d, d_args), InferredType::Struct(i, i_args)) => {
            proof {
                lemma_dargs_view(*d_args, d_args@.len() as int);
                lemma_args_view(*i_args, i_args@.len() as int);
            }
            if !i.matches_ref(d) || d_args.len() != i_args.len() {
                return false;
            }
            let mut k: usize = 0;
            #[verifier::loop_isolation(false)]
            while k < d_args.len()
                invariant
                    d_args@.len() == i_args@.len(),
                    k <= d_args@.len(),
                    forall|j: int| 0 <= j < k ==> #[trigger] arg_match_v(
                        darg_view(d_args@[j]),
                        arg_view(i_args@[j]),
                    ),
                decreases d_args@.len() - k,
            {
                proof {
                    assert(decreases_to!(*declared => d_args@[k as int]));
                }
                if !declared_generic_arg_matches(&d_args[k], &i_args[k]) {
                    proof {
                        let a1 = dargs_view(*d_args, d_args@.len() as int);
                        let a2 = args_view(*i_args, i_args@.len() as int);
                        lemma_dargs_view(*d_args, d_args@.len() as int);
                        lemma_args_view(*i_args, i_args@.len() as int);
                        lemma_args_match_v(a1, a2, a1.len() as int);
                        assert(!arg_match_v(a1[k as int], a2[k as int]));
                    }
                    return false;
                }
                k += 1;
            }
            proof {
                let a1 = dargs_view(*d_args, d_args@.len() as int);
                let a2 = args_view(*i_args, i_args@.len() as int);
                lemma_dargs_view(*d_args, d_args@.len() as int);
                lemma_args_view(*i_args, i_args@.len() as int);
                lemma_args_match_v(a1, a2, a1.len() as int);
                assert forall|j: int| 0 <= j < a1.len() implies #[trigger] arg_match_v(a1[j], a2[j]) by {
                    assert(arg_match_v(darg_view(d_args@[j]), arg_view(i_args@[j])));
                }
            }
            true
        },
        (
            DeclaredType::Indexed { element: d_elem, index: d_idx },
            InferredType::Indexed { element: i_elem, index: i_idx },
        ) => i_idx.matches_ref(d_idx) && types_match(d_elem, i_elem),
        _ => false,
    }
}

/// Whether a declared generic argument accepts an inferred one.
pub fn declared_generic_arg_matches(declared: &DeclaredGenericArg, inferred: &InferredGenericArg) -> (b:
    bool)
    ensures
        b == arg_match_v(declared@, inferred@),
    decreases declared, 0int,
{
    match (declared, inferred) {
        (DeclaredGenericArg::Dim(d), InferredGenericArg::Dim(i)) => d.equals(i),
        (DeclaredGenericArg::Index(d), InferredGenericArg::Index(i)) => i.matches_ref(d),
        (DeclaredGenericArg::Nat(d), InferredGenericArg::Nat(i)) => d.equals(i),
        (DeclaredGenericArg::Type(d), InferredGenericArg::Type(i)) => types_match(d, i),
        _ => false,
    }
}

} // verus!
