//! Retained static membership checks, independent of expression result shape.

use crate::hir::ExprId;
use crate::index::{IndexCardinality, IndexTypeRef};
use vstd::prelude::*;

verus! {

/// Where a statically checked position is used.
#[derive(Clone, Copy, Debug, PartialEq, Eq, Structural)]
pub enum StaticIndexUse {
    /// The argument of a static `key()` form.
    Key,
    /// An integer selection into an indexed value.
    Selection,
}

impl StaticIndexUse {
    /// How the position is described in messages.
    pub fn describe(&self) -> (s: &'static str)
        ensures
            s@ == (match *self {
                StaticIndexUse::Key => "key() position"@,
                StaticIndexUse::Selection => "index"@,
            }),
    {
        match self {
            StaticIndexUse::Key => "key() position",
            StaticIndexUse::Selection => "index",
        }
    }
}

/// A constant position that must lie inside a `Fin` axis.
#[derive(Debug, PartialEq, Eq)]
pub struct StaticIndexRequirement {
    /// The operand whose constant value is the position.
    pub operand: ExprId,
    pub axis: IndexTypeRef,
    pub position: u64,
    pub usage: StaticIndexUse,
}

impl Clone for StaticIndexRequirement {
    fn clone(&self) -> (r: Self)
        ensures
            r.operand == self.operand,
            r.axis@ == self.axis@,
            r.position == self.position,
            r.usage == self.usage,
    {
        StaticIndexRequirement {
            operand: self.operand,
            axis: self.axis.clone(),
            position: self.position,
            usage: self.usage,
        }
    }
}

/// Whether a requirement is discharged now or waits for a binding.
#[derive(Clone, Copy, Debug, PartialEq, Eq, Structural)]
pub enum Readiness {
    Ready,
    Deferred,
}

/// A static position outside its axis: `{usage} {position} out of bounds for Fin({size})`.
#[derive(Clone, Copy, Debug, PartialEq, Eq, Structural)]
pub struct StaticIndexError {
    pub usage: StaticIndexUse,
    pub position: u64,
    pub size: usize,
}

/// What checking a requirement against an axis size gives.
pub open spec fn static_check_v(req: StaticIndexRequirement, size: Option<nat>) -> Result<
    Readiness,
    StaticIndexError,
> {
    match size {
        None => Ok(Readiness::Deferred),
        Some(n) => if (req.position as int) < (n as int) {
            Ok(Readiness::Ready)
        } else {
            Err(StaticIndexError { usage: req.usage, position: req.position, size: n as usize })
        },
    }
}

impl StaticIndexRequirement {
    /// Check the position against the axis cardinality once it is known; an
    /// axis whose size is still symbolic defers the check.
    pub fn check(&self, size: Option<IndexCardinality>) -> (r: Result<Readiness, StaticIndexError>)
        ensures
            r == static_check_v(
                *self,
                match size {
                    Some(c) => Some(c@),
                    None => None::<nat>,
                },
            ),
    {
        match size {
            None => Ok(Readiness::Deferred),
            Some(size) => {
                let n = size.get();
                if (self.position as u128) < (n as u128) {
                    Ok(Readiness::Ready)
                } else {
                    Err(StaticIndexError { usage: self.usage, position: self.position, size: n })
                }
            },
        }
    }
}

} // verus!
