//! Typing of index access `value[arg, ...]`.
//!
//! Each argument selects along the next axis of the indexed value, outermost
//! first, and must fit that axis: a label or a loop case must belong to the
//! axis itself, an integer selects only along a nat-range axis, and a
//! `Fin(N)` value selects along a nat-range axis of size at least `N`.  The
//! access has the type of what is left once every argument has selected.

use crate::dimension::Dimension;
use crate::index::{IndexRefV, IndexTypeRef, ResolvedName};
use crate::nat_form::coeff_at;
use crate::nat_form::NatLinearForm;
use crate::rules::Span;
use crate::types::{InferredIndex, InferredType, TypeV};
use vstd::prelude::*;

verus! {

/// What the definition of a declared axis says about its positions.
#[derive(Debug, PartialEq, Eq)]
pub enum AxisDef {
    /// A named index of labels.
    Named,
    /// A coordinate range over quantities of this dimension.
    Coordinate(Dimension),
    /// A nat-range index with this many positions.
    NatRange(u64),
}

/// One argument of an index access, with what checking found it to be.
#[derive(Debug)]
pub enum IndexAccessArg {
    /// A label `Index.Variant`; `index` is the label's index.
    Variant { index: InferredIndex, span: Span },
    /// A local variable and its type.
    Local { ty: InferredType, span: Span },
    /// Any other expression and its inferred type.
    Expr { ty: InferredType, span: Span },
}

/// Why an index access does not type.
#[derive(Debug, PartialEq, Eq)]
pub enum IndexAccessError {
    /// More arguments than the value has axes.
    NotIndexed { span: Span },
    /// The argument belongs to another axis than the one it selects along.
    IndexMismatch { expected: IndexTypeRef, found: IndexTypeRef, span: Span },
    /// An `Int` local selects along an axis that is not a nat range.
    IntLocalOnNonNatRange { span: Span },
    /// A `Fin` local selects along an axis that is not a nat range.
    FinLocalOnNonNatRange { span: Span },
    /// A local whose type cannot select.
    InvalidIndexVariable { span: Span },
    /// An integer expression selects along an axis that is not a nat range.
    IntegerExprOnNonNatRange { span: Span },
    /// A `Fin` expression whose bound exceeds the axis size.
    FinOutOfBounds { span: Span },
    /// An expression that is not an integer.
    NonIntegerIndex { span: Span },
}

/// Value-level view of an access error.
pub enum IndexAccessErrorV {
    NotIndexed { span: Span },
    IndexMismatch { expected: IndexRefV, found: IndexRefV, span: Span },
    IntLocalOnNonNatRange { span: Span },
    FinLocalOnNonNatRange { span: Span },
    InvalidIndexVariable { span: Span },
    IntegerExprOnNonNatRange { span: Span },
    FinOutOfBounds { span: Span },
    NonIntegerIndex { span: Span },
}

impl View for IndexAccessError {
    type V = IndexAccessErrorV;

    open spec fn view(&self) -> IndexAccessErrorV {
        match self {
            IndexAccessError::NotIndexed { span } => IndexAccessErrorV::NotIndexed { span: *span },
            IndexAccessError::IndexMismatch { expected, found, span } => IndexAccessErrorV::IndexMismatch {
                expected: expected@,
                found: found@,
                span: *span,
            },
            IndexAccessError::IntLocalOnNonNatRange { span } => IndexAccessErrorV::IntLocalOnNonNatRange {
                span: *span,
            },
            IndexAccessError::FinLocalOnNonNatRange { span } => IndexAccessErrorV::FinLocalOnNonNatRange {
                span: *span,
            },
            IndexAccessError::InvalidIndexVariable { span } => IndexAccessErrorV::InvalidIndexVariable {
                span: *span,
            },
            IndexAccessError::IntegerExprOnNonNatRange { span } => IndexAccessErrorV::IntegerExprOnNonNatRange {
                span: *span,
            },
            IndexAccessError::FinOutOfBounds { span } => IndexAccessErrorV::FinOutOfBounds { span: *span },
            IndexAccessError::NonIntegerIndex { span } => IndexAccessErrorV::NonIntegerIndex { span: *span },
        }
    }
}

/// The definition recorded for a declared axis: the first entry with its
/// name.  A nat-range identity has no definition.
pub open spec fn axis_def_v(defs: Seq<(ResolvedName, AxisDef)>, axis: IndexRefV) -> Option<AxisDef>
    decreases defs.len(),
{
    match axis {
        IndexRefV::NatRange(_) => None,
        IndexRefV::Declared(n) => if defs.len() == 0 {
            None
        } else if axis_def_v(defs.drop_last(), axis) is Some {
            axis_def_v(defs.drop_last(), axis)
        } else if defs.last().0 == n {
            Some(defs.last().1)
        } else {
            None
        },
    }
}

/// The size form of a nat-range axis: a declared nat range's size, or the
/// form of a nat-range identity.
pub open spec fn axis_form_v(defs: Seq<(ResolvedName, AxisDef)>, axis: IndexRefV) -> Option<(nat, Seq<u64>)> {
    match axis_def_v(defs, axis) {
        Some(AxisDef::NatRange(n)) => Some((n as nat, Seq::empty())),
        Some(_) => None,
        None => match axis {
            IndexRefV::NatRange(f) => Some(f),
            IndexRefV::Declared(_) => None,
        },
    }
}

/// `a` is at most `b` for every value of the parameters.
pub open spec fn form_leq(a: (nat, Seq<u64>), b: (nat, Seq<u64>)) -> bool {
    a.0 <= b.0 && forall|i: int| 0 <= i ==> #[trigger] coeff_at(a.1, i) <= coeff_at(b.1, i)
}

/// Value-level view of an access argument.
pub enum AccessArgV {
    Variant(IndexRefV, Span),
    Local(TypeV, Span),
    Expr(TypeV, Span),
}

pub open spec fn access_arg_view(arg: IndexAccessArg) -> AccessArgV {
    match arg {
        IndexAccessArg::Variant { index, span } => AccessArgV::Variant(index@, span),
        IndexAccessArg::Local { ty, span } => AccessArgV::Local(ty@, span),
        IndexAccessArg::Expr { ty, span } => AccessArgV::Expr(ty@, span),
    }
}

/// The check of one argument, viewed, against the axis it selects along.
pub open spec fn arg_check_tv(defs: Seq<(ResolvedName, AxisDef)>, axis: IndexRefV, arg: AccessArgV) -> Result<
    (),
    IndexAccessErrorV,
> {
    match arg {
        AccessArgV::Variant(index, span) => if index == axis {
            Ok(())
        } else {
            Err(IndexAccessErrorV::IndexMismatch { expected: axis, found: index, span })
        },
        AccessArgV::Local(ty, span) => match ty {
            TypeV::NamedIndexCase(i) => if i == axis {
                Ok(())
            } else {
                Err(IndexAccessErrorV::IndexMismatch { expected: axis, found: i, span })
            },
            TypeV::Key(i) => if i == axis {
                Ok(())
            } else {
                Err(IndexAccessErrorV::IndexMismatch { expected: axis, found: i, span })
            },
            TypeV::CoordinateIndexLabel(_, i) => if i == axis {
                Ok(())
            } else {
                Err(IndexAccessErrorV::IndexMismatch { expected: axis, found: i, span })
            },
            TypeV::Int => match axis_def_v(defs, axis) {
                Some(AxisDef::NatRange(_)) => Ok(()),
                Some(_) => Err(IndexAccessErrorV::IntLocalOnNonNatRange { span }),
                None => Ok(()),
            },
            TypeV::Fin(bound) => match axis_form_v(defs, axis) {
                None => Err(IndexAccessErrorV::FinLocalOnNonNatRange { span }),
                Some(size) => if form_leq(bound, size) {
                    Ok(())
                } else {
                    Err(IndexAccessErrorV::IndexMismatch { expected: axis, found: IndexRefV::NatRange(bound), span })
                },
            },
            _ => Err(IndexAccessErrorV::InvalidIndexVariable { span }),
        },
        AccessArgV::Expr(ty, span) => match axis_form_v(defs, axis) {
            None => Err(IndexAccessErrorV::IntegerExprOnNonNatRange { span }),
            Some(size) => match ty {
                TypeV::Int => Ok(()),
                TypeV::Fin(bound) => if form_leq(bound, size) {
                    Ok(())
                } else {
                    Err(IndexAccessErrorV::FinOutOfBounds { span })
                },
                _ => Err(IndexAccessErrorV::NonIntegerIndex { span }),
            },
        },
    }
}

/// The check of one argument against the axis it selects along.
pub open spec fn arg_check_v(defs: Seq<(ResolvedName, AxisDef)>, axis: IndexRefV, arg: IndexAccessArg) -> Result<
    (),
    IndexAccessErrorV,
> {
    arg_check_tv(defs, axis, access_arg_view(arg))
}

/// `access_v` over viewed arguments.
pub open spec fn access_tv(
    defs: Seq<(ResolvedName, AxisDef)>,
    t: TypeV,
    args: Seq<AccessArgV>,
    k: int,
    span: Span,
) -> Result<TypeV, IndexAccessErrorV>
    decreases args.len() - k,
{
    if k < 0 || k >= args.len() {
        Ok(t)
    } else {
        match t {
            TypeV::Indexed(e, axis) => match arg_check_tv(defs, axis, args[k]) {
                Err(err) => Err(err),
                Ok(()) => access_tv(defs, *e, args, k + 1, span),
            },
            _ => Err(IndexAccessErrorV::NotIndexed { span }),
        }
    }
}

/// Access over arguments agrees with access over their views.
pub proof fn lemma_access_views(
    defs: Seq<(ResolvedName, AxisDef)>,
    t: TypeV,
    args: Seq<IndexAccessArg>,
    k: int,
    span: Span,
)
    requires
        0 <= k,
    ensures
        access_v(defs, t, args, k, span) == access_tv(
            defs,
            t,
            args.map_values(|a: IndexAccessArg| access_arg_view(a)),
            k,
            span,
        ),
    decreases args.len() - k,
{
    if k < args.len() {
        match t {
            TypeV::Indexed(e, axis) => {
                lemma_access_views(defs, *e, args, k + 1, span);
            },
            _ => {},
        }
    }
}

/// The type of `t` after the arguments from position `k` on select along
/// its axes, outermost first.
pub open spec fn access_v(
    defs: Seq<(ResolvedName, AxisDef)>,
    t: TypeV,
    args: Seq<IndexAccessArg>,
    k: int,
    span: Span,
) -> Result<TypeV, IndexAccessErrorV>
    decreases args.len() - k,
{
    if k < 0 || k >= args.len() {
        Ok(t)
    } else {
        match t {
            TypeV::Indexed(e, axis) => match arg_check_v(defs, axis, args[k]) {
                Err(err) => Err(err),
                Ok(()) => access_v(defs, *e, args, k + 1, span),
            },
            _ => Err(IndexAccessErrorV::NotIndexed { span }),
        }
    }
}

pub(crate) fn axis_def<'a>(defs: &'a Vec<(ResolvedName, AxisDef)>, axis: &InferredIndex) -> (r: Option<
    &'a AxisDef,
>)
    ensures
        match r {
            Some(d) => axis_def_v(defs@, axis@) == Some(*d),
            None => axis_def_v(defs@, axis@) is None,
        },
{
    let name = match axis.declared_resolved() {
        Some(n) => n,
        None => return None,
    };
    let mut k: usize = 0;
    while k < defs.len()
        invariant
            k <= defs@.len(),
            axis@ == IndexRefV::Declared(name),
            axis_def_v(defs@.subrange(0, k as int), axis@) is None,
        decreases defs@.len() - k,
    {
        proof {
            assert(defs@.subrange(0, k as int + 1).drop_last() =~= defs@.subrange(0, k as int));
        }
        if defs[k].0 == name {
            proof {
                lemma_axis_def_prefix(defs@, axis@, k as int + 1);
            }
            return Some(&defs[k].1);
        }
        k += 1;
    }
    proof {
        assert(defs@.subrange(0, defs@.len() as int) =~= defs@);
    }
    None
}

proof fn lemma_axis_def_prefix(defs: Seq<(ResolvedName, AxisDef)>, axis: IndexRefV, n: int)
    requires
        0 <= n <= defs.len(),
        axis_def_v(defs.subrange(0, n), axis) is Some,
    ensures
        axis_def_v(defs, axis) == axis_def_v(defs.subrange(0, n), axis),
    decreases defs.len() - n,
{
    if n < defs.len() {
        assert(defs.subrange(0, n + 1).drop_last() =~= defs.subrange(0, n));
        lemma_axis_def_prefix(defs, axis, n + 1);
    } else {
        assert(defs.subrange(0, n) =~= defs);
    }
}

fn axis_form(defs: &Vec<(ResolvedName, AxisDef)>, axis: &InferredIndex) -> (r: Option<NatLinearForm>)
    ensures
        match (r, axis_form_v(defs@, axis@)) {
            (Some(f), Some(v)) => f@ == v,
            (None, None) => true,
            _ => false,
        },
{
    match axis_def(defs, axis) {
        Some(AxisDef::NatRange(n)) => {
            let f = NatLinearForm::from_constant(*n);
            proof {
                assert(f@.1 =~= Seq::<u64>::empty());
            }
            Some(f)
        },
        Some(_) => None,
        None => axis.nat_range_form(),
    }
}

fn leq(a: &NatLinearForm, b: &NatLinearForm) -> (r: bool)
    ensures
        r == form_leq(a@, b@),
{
    let r = a.is_leq(b);
    proof {
        if r {
            assert forall|i: int| 0 <= i implies #[trigger] coeff_at(a@.1, i) <= coeff_at(b@.1, i) by {
                assert(a.coefficient(i) <= b.coefficient(i));
            }
        } else if a@.0 <= b@.0 {
            let i = choose|i: int| 0 <= i && !(#[trigger] a.coefficient(i) <= b.coefficient(i));
            assert(!(coeff_at(a@.1, i) <= coeff_at(b@.1, i)));
        }
    }
    r
}

fn check_arg(defs: &Vec<(ResolvedName, AxisDef)>, axis: &InferredIndex, arg: &IndexAccessArg) -> (r: Result<
    (),
    IndexAccessError,
>)
    ensures
        match (r, arg_check_v(defs@, axis@, *arg)) {
            (Ok(()), Ok(())) => true,
            (Err(e), Err(v)) => e@ == v,
            _ => false,
        },
{
    match arg {
        IndexAccessArg::Variant { index, span } => {
            if index.equals(axis) {
                Ok(())
            } else {
                Err(
                    IndexAccessError::IndexMismatch {
                        expected: axis.type_ref().clone(),
                        found: index.type_ref().clone(),
                        span: *span,
                    },
                )
            }
        },
        IndexAccessArg::Local { ty, span } => match ty {
            InferredType::NamedIndexCase(i) | InferredType::Key(i) | InferredType::CoordinateIndexLabel {
                index: i,
                ..
            } => {
                if i.equals(axis) {
                    Ok(())
                } else {
                    Err(
                        IndexAccessError::IndexMismatch {
                            expected: axis.type_ref().clone(),
                            found: i.type_ref().clone(),
                            span: *span,
                        },
                    )
                }
            },
            InferredType::Int => match axis_def(defs, axis) {
                Some(AxisDef::NatRange(_)) => Ok(()),
                Some(_) => Err(IndexAccessError::IntLocalOnNonNatRange { span: *span }),
                None => Ok(()),
            },
            InferredType::Fin(bound) => match axis_form(defs, axis) {
                None => Err(IndexAccessError::FinLocalOnNonNatRange { span: *span }),
                Some(size) => {
                    if leq(bound, &size) {
                        Ok(())
                    } else {
                        Err(
                            IndexAccessError::IndexMismatch {
                                expected: axis.type_ref().clone(),
                                found: IndexTypeRef::NatRange(bound.clone()),
                                span: *span,
                            },
                        )
                    }
                },
            },
            _ => Err(IndexAccessError::InvalidIndexVariable { span: *span }),
        },
        IndexAccessArg::Expr { ty, span } => match axis_form(defs, axis) {
            None => Err(IndexAccessError::IntegerExprOnNonNatRange { span: *span }),
            Some(size) => match ty {
                InferredType::Int => Ok(()),
                InferredType::Fin(bound) => {
                    if leq(bound, &size) {
                        Ok(())
                    } else {
                        Err(IndexAccessError::FinOutOfBounds { span: *span })
                    }
                },
                _ => Err(IndexAccessError::NonIntegerIndex { span: *span }),
            },
        },
    }
}

/// Types `value[args...]` from the value's type and the checked arguments;
/// `span` is the access expression's span.  Axis definitions are looked up
/// by the first entry with the axis's name.
pub fn index_access_type(
    value: &InferredType,
    args: &Vec<IndexAccessArg>,
    defs: &Vec<(ResolvedName, AxisDef)>,
    span: Span,
) -> (r: Result<InferredType, IndexAccessError>)
    ensures
        match (r, access_v(defs@, value@, args@, 0, span)) {
            (Ok(t), Ok(v)) => t@ == v,
            (Err(e), Err(v)) => e@ == v,
            _ => false,
        },
{
    let mut current: &InferredType = value;
    let mut k: usize = 0;
    while k < args.len()
        invariant
            k <= args@.len(),
            access_v(defs@, value@, args@, 0, span) == access_v(defs@, current@, args@, k as int, span),
        decreases args@.len() - k,
    {
        match current {
            InferredType::Indexed { element, index } => {
                match check_arg(defs, index, &args[k]) {
                    Err(e) => {
                        return Err(e);
                    },
                    Ok(()) => {},
                }
                current = element;
            },
            _ => {
                return Err(IndexAccessError::NotIndexed { span });
            },
        }
        k += 1;
    }
    Ok(current.clone())
}

} // verus!
