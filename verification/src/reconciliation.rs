//! Override reconciliation of included DAGs.
//!
//! An `include` that overrides a type or an index with a replacement must
//! reconcile every declaration it keeps: a retained (orphan) declaration whose
//! checked expression still observes the overridden source, or already
//! observes the replacement, cannot be kept as it is.

use crate::expression_facts::NominalObservation;
use crate::index::{IndexRefV, IndexTypeRef, ResolvedName, Symbol};
use crate::rules::Span;
use vstd::prelude::*;

verus! {

/// What an include overrides, with the identity it had and the one that
/// replaces it.
#[derive(Debug)]
pub enum OverrideTarget {
    Type { overridden: Symbol, source: ResolvedName, replacement: ResolvedName },
    Index { overridden: Symbol, source: ResolvedName, replacement: IndexTypeRef },
}

/// The overrides that one retained declaration of an include must reconcile.
#[derive(Debug)]
pub struct OverrideReconciliation {
    pub orphan_decl: Symbol,
    pub include_span: Span,
    pub targets: Vec<OverrideTarget>,
}

/// Whether an override concerns a type or an index.
#[derive(Clone, Copy, Debug, PartialEq, Eq, Structural)]
pub enum OverrideKind {
    Type,
    Index,
}

/// A retained declaration that observes an overridden identity: which
/// reconciliation, which of its targets and which observation clash.
#[derive(Clone, Copy, Debug, PartialEq, Eq, Structural)]
pub struct RetainedOverride {
    pub overridden: Symbol,
    pub kind: OverrideKind,
    pub orphan_decl: Symbol,
    pub reconciliation: usize,
    pub target: usize,
    pub observation: usize,
    pub span: Span,
}

/// Whether an observation sees the source or the replacement of an
/// override.  Type overrides concern field, constructor and type-argument
/// observations; index overrides concern label and index-argument ones.
pub open spec fn target_observes(t: OverrideTarget, o: NominalObservation) -> bool {
    match t {
        OverrideTarget::Type { source, replacement, .. } => match o {
            NominalObservation::Field { identity, .. } => identity == source || identity == replacement,
            NominalObservation::Constructor { identity, .. } => identity == source || identity
                == replacement,
            NominalObservation::TypeArgument(identity) => identity == source || identity == replacement,
            _ => false,
        },
        OverrideTarget::Index { source, replacement, .. } => match o {
            NominalObservation::IndexLabel { identity, .. } => identity@ == IndexRefV::Declared(source)
                || identity@ == replacement@,
            NominalObservation::IndexArgument(identity) => identity@ == IndexRefV::Declared(source)
                || identity@ == replacement@,
            _ => false,
        },
    }
}

/// The triple `(a, b, c)` clashes: target `b` of reconciliation `a` is seen
/// by observation `c`.
pub open spec fn clashes(recs: Seq<OverrideReconciliation>, obs: Seq<NominalObservation>, a: int, b: int, c: int) -> bool {
    &&& 0 <= a < recs.len()
    &&& 0 <= b < recs[a].targets@.len()
    &&& 0 <= c < obs.len()
    &&& target_observes(recs[a].targets@[b], obs[c])
}

/// `(a, b, c)` comes before `(x, y, z)` in the order reconciliations,
/// then targets, then observations are scanned.
pub open spec fn scanned_before(a: int, b: int, c: int, x: int, y: int, z: int) -> bool {
    a < x || (a == x && b < y) || (a == x && b == y && c < z)
}

/// The error reported for a clashing triple.
pub open spec fn retained_v(recs: Seq<OverrideReconciliation>, a: int, b: int, c: int) -> RetainedOverride {
    let t = recs[a].targets@[b];
    RetainedOverride {
        overridden: match t {
            OverrideTarget::Type { overridden, .. } => overridden,
            OverrideTarget::Index { overridden, .. } => overridden,
        },
        kind: if t is Type {
            OverrideKind::Type
        } else {
            OverrideKind::Index
        },
        orphan_decl: recs[a].orphan_decl,
        reconciliation: a as usize,
        target: b as usize,
        observation: c as usize,
        span: recs[a].include_span,
    }
}

fn identity_observed(identity: &IndexTypeRef, source: &ResolvedName, replacement: &IndexTypeRef) -> (b:
    bool)
    ensures
        b == (identity@ == IndexRefV::Declared(*source) || identity@ == replacement@),
{
    let declared = match identity.declared_resolved() {
        Some(n) => n == *source,
        None => false,
    };
    declared || replacement.matches_ref(identity)
}

fn observes(t: &OverrideTarget, o: &NominalObservation) -> (b: bool)
    ensures
        b == target_observes(*t, *o),
{
    match t {
        OverrideTarget::Type { source, replacement, .. } => match o {
            NominalObservation::Field { identity, .. } => *identity == *source || *identity
                == *replacement,
            NominalObservation::Constructor { identity, .. } => *identity == *source || *identity
                == *replacement,
            NominalObservation::TypeArgument(identity) => *identity == *source || *identity
                == *replacement,
            _ => false,
        },
        OverrideTarget::Index { source, replacement, .. } => match o {
            NominalObservation::IndexLabel { identity, .. } => identity_observed(
                identity,
                source,
                replacement,
            ),
            NominalObservation::IndexArgument(identity) => identity_observed(identity, source, replacement),
            _ => false,
        },
    }
}

/// Rejects a retained declaration whose observations still see an
/// overridden identity.  Reconciliations are scanned in order, each one's
/// targets in order, and each target against the observations in order; the
/// first clash is reported.
pub fn check_retained_reconciliations(
    reconciliations: &Vec<OverrideReconciliation>,
    observations: &[NominalObservation],
) -> (r: Result<(), RetainedOverride>)
    ensures
        r is Ok <==> forall|a: int, b: int, c: int| !clashes(reconciliations@, observations@, a, b, c),
        r matches Err(e) ==> exists|a: int, b: int, c: int|
            {
                &&& clashes(reconciliations@, observations@, a, b, c)
                &&& e == retained_v(reconciliations@, a, b, c)
                &&& forall|x: int, y: int, z: int|
                    #![trigger clashes(reconciliations@, observations@, x, y, z)]
                    scanned_before(x, y, z, a, b, c) ==> !clashes(
                        reconciliations@,
                        observations@,
                        x,
                        y,
                        z,
                    )
            },
{
    let ghost recs = reconciliations@;
    let ghost obs = observations@;
    let mut a: usize = 0;
    while a < reconciliations.len()
        invariant
            recs == reconciliations@,
            obs == observations@,
            a <= recs.len(),
            forall|x: int, y: int, z: int| x < a ==> !#[trigger] clashes(recs, obs, x, y, z),
        decreases recs.len() - a,
    {
        let rec = &reconciliations[a];
        let mut b: usize = 0;
        while b < rec.targets.len()
            invariant
                recs == reconciliations@,
                obs == observations@,
                a < recs.len(),
                *rec == recs[a as int],
                b <= rec.targets@.len(),
                forall|x: int, y: int, z: int| x < a ==> !#[trigger] clashes(recs, obs, x, y, z),
                forall|y: int, z: int| y < b ==> !#[trigger] clashes(recs, obs, a as int, y, z),
            decreases rec.targets@.len() - b,
        {
            let target = &rec.targets[b];
            let mut c: usize = 0;
            while c < observations.len()
                invariant
                    recs == reconciliations@,
                    obs == observations@,
                    a < recs.len(),
                    *rec == recs[a as int],
                    b < rec.targets@.len(),
                    *target == rec.targets@[b as int],
                    c <= obs.len(),
                    forall|x: int, y: int, z: int| x < a ==> !#[trigger] clashes(recs, obs, x, y, z),
                    forall|y: int, z: int| y < b ==> !#[trigger] clashes(recs, obs, a as int, y, z),
                    forall|z: int| z < c ==> !#[trigger] clashes(recs, obs, a as int, b as int, z),
                decreases obs.len() - c,
            {
                if observes(target, &observations[c]) {
                    let (overridden, kind) = match target {
                        OverrideTarget::Type { overridden, .. } => (*overridden, OverrideKind::Type),
                        OverrideTarget::Index { overridden, .. } => (*overridden, OverrideKind::Index),
                    };
                    let e = RetainedOverride {
                        overridden,
                        kind,
                        orphan_decl: rec.orphan_decl,
                        reconciliation: a,
                        target: b,
                        observation: c,
                        span: rec.include_span,
                    };
                    proof {
                        assert(clashes(recs, obs, a as int, b as int, c as int));
                        assert(e == retained_v(recs, a as int, b as int, c as int));
                    }
                    return Err(e);
                }
                c += 1;
            }
            b += 1;
        }
        proof {
            assert forall|y: int, z: int| y <= a implies !#[trigger] clashes(recs, obs, a as int, y, z) by {}
        }
        a += 1;
    }
    Ok(())
}

} // verus!
