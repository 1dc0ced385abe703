//! Typing of `scan(source, init, |acc, item| body)`.
//!
//! A scan steps along the single axis of its source: the item local has the
//! source's element type, the accumulator has the type of `init`, the body
//! must return the accumulator's type, and the result holds one accumulator
//! per step, indexed by the source axis outermost.  A source with several
//! axes is rejected rather than choosing one implicitly.

use crate::rules::{Operand, Span};
use crate::types::{type_equal, InferredIndex, InferredType, TypeV};
use crate::index::IndexRefV;
use vstd::prelude::*;

verus! {

/// Why a scan does not type.
#[derive(Clone, Copy, Debug, PartialEq, Eq, Structural)]
pub enum ScanError {
    /// The source is not an indexed value.
    SourceNotIndexed { span: Span },
    /// The source has `rank` axes (saturating at `usize::MAX`); a scan
    /// steps along exactly one.
    MultiAxisSource { rank: usize, span: Span },
    /// The body does not return the accumulator's type.
    BodyMismatch { span: Span },
}

/// Number of axes of a type.
pub open spec fn rank_v(t: TypeV) -> nat
    decreases t,
{
    match t {
        TypeV::Indexed(e, _) => 1 + rank_v(*e),
        _ => 0,
    }
}

/// What a scan source steps over: its element type and its axis.
pub open spec fn scan_source_v(t: TypeV, span: Span) -> Result<(TypeV, IndexRefV), ScanError> {
    match t {
        TypeV::Indexed(e, axis) => if rank_v(*e) == 0 {
            Ok((*e, axis))
        } else {
            Err(ScanError::MultiAxisSource { rank: rank_usize(t), span })
        },
        _ => Err(ScanError::SourceNotIndexed { span }),
    }
}

/// `rank_v` counted in a `usize`, saturating at its maximum.
pub open spec fn rank_usize(t: TypeV) -> usize {
    if rank_v(t) <= usize::MAX {
        rank_v(t) as usize
    } else {
        usize::MAX
    }
}

/// The number of axes of a type, saturating at `usize::MAX`.
pub(crate) fn rank(t: &InferredType) -> (r: usize)
    ensures
        r == rank_usize(t@),
{
    let mut n: usize = 0;
    let mut current: &InferredType = t;
    loop
        invariant
            n <= usize::MAX,
            n + rank_v(current@) == rank_v(t@) || (n == usize::MAX && rank_v(t@) > usize::MAX),
        ensures
            n == rank_usize(t@),
        decreases current,
    {
        match current {
            InferredType::Indexed { element, .. } => {
                if n < usize::MAX {
                    n = n + 1;
                }
                current = element;
            },
            _ => {
                break ;
            },
        }
    }
    n
}

/// The element type and axis a scan steps over.
pub fn scan_source(source: &Operand) -> (r: Result<(InferredType, InferredIndex), ScanError>)
    ensures
        match (r, scan_source_v(source.ty@, source.span)) {
            (Ok((e, i)), Ok((ev, iv))) => e@ == ev && i@ == iv,
            (Err(x), Err(y)) => x == y,
            _ => false,
        },
{
    match &source.ty {
        InferredType::Indexed { element, index } => match &**element {
            InferredType::Indexed { .. } => {
                proof {
                    assert(rank_v(element@) > 0);
                }
                Err(ScanError::MultiAxisSource { rank: rank(&source.ty), span: source.span })
            },
            _ => {
                proof {
                    assert(rank_v(element@) == 0);
                }
                Ok(((**element).clone(), index.clone()))
            },
        },
        _ => Err(ScanError::SourceNotIndexed { span: source.span }),
    }
}

/// The type of a scan or an unfold once its body is typed: the accumulator
/// or state (typed by `init`) per step of the axis, which is outermost.
pub fn scan_result(axis: InferredIndex, init: &Operand, body: &Operand) -> (r: Result<InferredType, ScanError>)
    ensures
        body.ty@ == init.ty@ ==> (r matches Ok(t) && t@ == TypeV::Indexed(Box::new(init.ty@), axis@)),
        body.ty@ != init.ty@ ==> r == Err::<InferredType, ScanError>(ScanError::BodyMismatch { span: body.span }),
{
    if !type_equal(&body.ty, &init.ty) {
        return Err(ScanError::BodyMismatch { span: body.span });
    }
    Ok(InferredType::Indexed { element: Box::new(init.ty.clone()), index: axis })
}

} // verus!
