//! Checked cardinality facts for eagerly materialized indexed values.
//!
//! Individual axes are already bounded by [`IndexCardinality`]. This module
//! enforces the separate invariant that the product of every concrete axis in
//! one materialized value also fits the eager-allocation policy.

use crate::index::{IndexCardinality, NonEmpty, MAX_INDEX_CARDINALITY};
use vstd::prelude::*;

verus! {

/// Largest number of scalar leaves that one indexed value may materialize.
pub const MAX_EAGER_CARDINALITY: usize = MAX_INDEX_CARDINALITY;

/// Product of the cardinalities of a sequence of axes.
pub open spec fn card_product(s: Seq<IndexCardinality>) -> nat
    decreases s.len(),
{
    if s.len() == 0 {
        1
    } else {
        card_product(s.drop_last()) * s.last()@
    }
}

/// Validated total number of scalar leaves in an eagerly materialized shape.
#[derive(Clone, Copy, Debug, PartialEq, Eq, Structural, Hash)]
pub struct EagerCardinality(usize);

impl View for EagerCardinality {
    type V = nat;

    closed spec fn view(&self) -> nat {
        self.0 as nat
    }
}

/// Failure to validate an eager materialized shape.
#[derive(Clone, Copy, Debug, PartialEq, Eq, Structural)]
pub enum MaterializedShapeError {
    /// The axis product overflowed or crossed the policy limit.
    ExceedsLimit { maximum: usize },
}

/// The axes of a shape fit the policy.
pub open spec fn shape_fits(axes: NonEmpty<IndexCardinality>) -> bool {
    &&& axes.tail@.len() < usize::MAX
    &&& card_product(axes.elements()) <= MAX_EAGER_CARDINALITY
}

impl EagerCardinality {
    #[verifier::type_invariant]
    spec fn inv(self) -> bool {
        1 <= self.0 <= MAX_EAGER_CARDINALITY
    }

    /// The product of the axis cardinalities, when it fits the policy.
    fn try_from_axes(axes: &NonEmpty<IndexCardinality>) -> (r: Result<
        EagerCardinality,
        MaterializedShapeError,
    >)
        ensures
            r is Ok <==> shape_fits(*axes),
            r matches Ok(c) ==> c@ == card_product(axes.elements()),
            r matches Err(e) ==> e == (MaterializedShapeError::ExceedsLimit {
                maximum: MAX_EAGER_CARDINALITY,
            }),
    {
        if axes.tail.len() == usize::MAX {
            return Err(MaterializedShapeError::ExceedsLimit { maximum: MAX_EAGER_CARDINALITY });
        }
        let ghost all = axes.elements();
        let n = axes.tail.len() + 1;
        let mut total: usize = 1;
        let mut exceeded = false;
        let mut i: usize = 0;
        while i < n
            invariant
                n == all.len(),
                all == axes.elements(),
                i <= n,
                !exceeded ==> total == card_product(all.subrange(0, i as int)),
                exceeded ==> card_product(all.subrange(0, i as int)) > MAX_EAGER_CARDINALITY,
                1 <= total <= MAX_EAGER_CARDINALITY,
            decreases n - i,
        {
            let axis = axes.get(i);
            let size = axis.get();
            proof {
                assert(all.subrange(0, i + 1).drop_last() =~= all.subrange(0, i as int));
                assert(all.subrange(0, i + 1).last() == all[i as int]);
            }
            if exceeded {
                proof {
                    let p = card_product(all.subrange(0, i as int));
                    assert(p * size > MAX_EAGER_CARDINALITY) by (nonlinear_arith)
                        requires
                            p > MAX_EAGER_CARDINALITY,
                            size >= 1,
                    ;
                }
            } else {
                match total.checked_mul(size) {
                    Some(t) if t <= MAX_EAGER_CARDINALITY => {
                        proof {
                            assert(t >= 1) by (nonlinear_arith)
                                requires
                                    t == total * size,
                                    total >= 1,
                                    size >= 1,
                            ;
                        }
                        total = t;
                    },
                    _ => {
                        exceeded = true;
                    },
                }
            }
            i += 1;
        }
        proof {
            assert(all.subrange(0, n as int) =~= all);
        }
        if exceeded {
            return Err(MaterializedShapeError::ExceedsLimit { maximum: MAX_EAGER_CARDINALITY });
        }
        Ok(EagerCardinality(total))
    }

    /// The validated total cardinality.
    pub fn get(self) -> (n: usize)
        ensures
            n == self@,
            1 <= n <= MAX_EAGER_CARDINALITY,
    {
        proof {
            use_type_invariant(&self);
        }
        self.0
    }
}

/// Concrete non-empty indexed shape whose total cardinality is policy-bounded.
#[derive(Debug, PartialEq, Eq, Hash)]
pub struct MaterializedShape {
    axes: NonEmpty<IndexCardinality>,
    total: EagerCardinality,
}

impl Clone for MaterializedShape {
    fn clone(&self) -> (r: Self)
        ensures
            r.axes_view() == self.axes_view(),
    {
        proof {
            use_type_invariant(self);
        }
        let mut tail: Vec<IndexCardinality> = Vec::new();
        let mut i: usize = 0;
        while i < self.axes.tail.len()
            invariant
                i <= self.axes.tail@.len(),
                tail@ == self.axes.tail@.subrange(0, i as int),
            decreases self.axes.tail@.len() - i,
        {
            tail.push(self.axes.tail[i]);
            i += 1;
            proof {
                assert(tail@ =~= self.axes.tail@.subrange(0, i as int));
            }
        }
        proof {
            assert(tail@ =~= self.axes.tail@);
            assert(NonEmpty { head: self.axes.head, tail }.elements() =~= self.axes.elements());
        }
        MaterializedShape { axes: NonEmpty { head: self.axes.head, tail }, total: self.total }
    }
}

impl MaterializedShape {
    #[verifier::type_invariant]
    spec fn inv(self) -> bool {
        &&& shape_fits(self.axes)
        &&& self.total@ == card_product(self.axes.elements())
    }

    /// Cardinalities of the axes, outer to inner.
    pub closed spec fn axes_view(self) -> Seq<IndexCardinality> {
        self.axes.elements()
    }

    /// Validate the product of concrete axis cardinalities before evaluation.
    pub fn try_new(axes: NonEmpty<IndexCardinality>) -> (r: Result<MaterializedShape, MaterializedShapeError>)
        ensures
            r is Ok <==> shape_fits(axes),
            r matches Ok(s) ==> s.axes_view() == axes.elements(),
            r matches Err(e) ==> e == (MaterializedShapeError::ExceedsLimit {
                maximum: MAX_EAGER_CARDINALITY,
            }),
    {
        let total = EagerCardinality::try_from_axes(&axes)?;
        Ok(MaterializedShape { axes, total })
    }

    /// Concrete axis cardinalities in outer-to-inner type order.
    pub fn axes(&self) -> (r: &NonEmpty<IndexCardinality>)
        ensures
            r.elements() == self.axes_view(),
    {
        &self.axes
    }

    /// Number of indexed axes.
    pub fn rank(&self) -> (n: usize)
        ensures
            n == self.axes_view().len(),
    {
        proof {
            use_type_invariant(self);
        }
        self.axes.len()
    }

    /// Validated product of all axis cardinalities.
    pub fn total(&self) -> (t: EagerCardinality)
        ensures
            t@ == card_product(self.axes_view()),
    {
        proof {
            use_type_invariant(self);
        }
        self.total
    }
}

} // verus!
