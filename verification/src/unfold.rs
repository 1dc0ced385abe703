//! The axis of `unfold(Axis, init, |prev_state, prev_t, t| body)`.
//!
//! An unfold steps along a coordinate index: `prev_t` and `t` are coordinate
//! labels of that index, the state keeps the type of `init`, and the body
//! must return that type, as for a scan (see [`crate::scan::scan_result`]).
//! The result holds one state per coordinate, the coordinate axis
//! outermost.

use crate::index::{IndexRefV, ResolvedName};
use crate::index_access::{axis_def, axis_def_v, AxisDef};
use crate::rules::Span;
use crate::types::{InferredIndex, InferredType, TypeV};
use vstd::prelude::*;

verus! {

/// Why the axis of an unfold is rejected.
#[derive(Clone, Copy, Debug, PartialEq, Eq, Structural)]
pub enum UnfoldAxisError {
    /// The index has no definition.
    UnknownIndex { index: ResolvedName, span: Span },
    /// The index is not a coordinate index.
    NotCoordinate { index: ResolvedName, span: Span },
}

/// The type of the coordinate locals of an unfold along `index`.
pub open spec fn unfold_coordinate_v(defs: Seq<(ResolvedName, AxisDef)>, index: ResolvedName, span: Span) -> Result<
    TypeV,
    UnfoldAxisError,
> {
    let axis = IndexRefV::Declared(index);
    match axis_def_v(defs, axis) {
        None => Err(UnfoldAxisError::UnknownIndex { index, span }),
        Some(AxisDef::Coordinate(d)) => Ok(TypeV::CoordinateIndexLabel(d@, axis)),
        Some(_) => Err(UnfoldAxisError::NotCoordinate { index, span }),
    }
}

/// The type of `prev_t` and `t` in an unfold along `index`, which must be a
/// coordinate index.
pub fn unfold_coordinate_type(index: ResolvedName, defs: &Vec<(ResolvedName, AxisDef)>, span: Span) -> (r: Result<
    InferredType,
    UnfoldAxisError,
>)
    ensures
        match (r, unfold_coordinate_v(defs@, index, span)) {
            (Ok(t), Ok(v)) => t@ == v,
            (Err(e), Err(f)) => e == f,
            _ => false,
        },
{
    let axis = InferredIndex::from_resolved(index);
    match axis_def(defs, &axis) {
        None => Err(UnfoldAxisError::UnknownIndex { index, span }),
        Some(AxisDef::Coordinate(d)) => Ok(InferredType::CoordinateIndexLabel { dimension: d.clone(), index: axis }),
        Some(_) => Err(UnfoldAxisError::NotCoordinate { index, span }),
    }
}

} // verus!
