//! Presentation facts: for each DAG, the checked shapes of its plot channels.
//!
//! Value presentation is chosen when values are evaluated; checking only
//! publishes, per DAG, the channel shapes that plot checking retained.

use crate::index::DagId;
use vstd::prelude::*;

verus! {

/// What checking publishes for presenting one DAG's values.
#[derive(Debug)]
pub struct DagPresentationFacts<S> {
    /// The checked shape of each channel of each plot declaration.
    pub plot_channels: S,
}

/// Why presentation facts cannot be collected.
#[derive(Clone, Copy, Debug, PartialEq, Eq, Structural)]
pub enum PresentationError {
    /// Plot checking retained no shapes for this DAG.
    MissingShapes { owner: DagId },
}

/// No identity occurs twice.
pub open spec fn ids_distinct(s: Seq<DagId>) -> bool {
    forall|a: int, b: int| 0 <= a < b < s.len() ==> s[a] != s[b]
}

/// No key occurs twice.
pub open spec fn keys_distinct<S>(s: Seq<(DagId, S)>) -> bool {
    forall|a: int, b: int| 0 <= a < b < s.len() ==> s[a].0 != s[b].0
}

/// Some entry has key `k`.
pub open spec fn has_key<S>(s: Seq<(DagId, S)>, k: DagId) -> bool {
    exists|m: int| 0 <= m < s.len() && s[m].0 == k
}

/// Publishes, for each DAG in `owners` and in that order, the channel shapes
/// that plot checking retained for it; a DAG without retained shapes is an
/// error, the first one in `owners` being reported.
pub fn collect_presentation_facts<S>(owners: &Vec<DagId>, shapes: Vec<(DagId, S)>) -> (r: Result<
    Vec<(DagId, DagPresentationFacts<S>)>,
    PresentationError,
>)
    requires
        ids_distinct(owners@),
        keys_distinct(shapes@),
    ensures
        r is Ok <==> forall|i: int| 0 <= i < owners@.len() ==> has_key(shapes@, #[trigger] owners@[i]),
        r matches Ok(v) ==> v@.len() == owners@.len() && forall|i: int|
            0 <= i < v@.len() ==> (#[trigger] v@[i]).0 == owners@[i] && shapes@.contains(
                (owners@[i], v@[i].1.plot_channels),
            ),
        r matches Err(PresentationError::MissingShapes { owner }) ==> exists|i: int|
            0 <= i < owners@.len() && owners@[i] == owner && !has_key(shapes@, owner) && forall|j: int|
                0 <= j < i ==> has_key(shapes@, #[trigger] owners@[j]),
{
    let ghost orig = shapes@;
    let mut cur = shapes;
    let mut out: Vec<(DagId, DagPresentationFacts<S>)> = Vec::new();
    let mut i: usize = 0;
    proof {
        assert forall|x: int| 0 <= x < cur@.len() implies orig.contains(#[trigger] cur@[x]) by {
            assert(orig[x] == cur@[x]);
        }
    }
    while i < owners.len()
        invariant
            orig == shapes@,
            i <= owners@.len(),
            ids_distinct(owners@),
            keys_distinct(orig),
            keys_distinct(cur@),
            forall|x: int| 0 <= x < cur@.len() ==> orig.contains(#[trigger] cur@[x]),
            forall|j: int| i <= j < owners@.len() && has_key(orig, #[trigger] owners@[j]) ==> has_key(cur@, owners@[j]),
            out@.len() == i,
            forall|a: int| 0 <= a < i ==> has_key(orig, #[trigger] owners@[a]),
            forall|a: int|
                0 <= a < i ==> (#[trigger] out@[a]).0 == owners@[a] && orig.contains(
                    (owners@[a], out@[a].1.plot_channels),
                ),
        decreases owners@.len() - i,
    {
        let owner = owners[i];
        let mut k: usize = 0;
        while k < cur.len() && cur[k].0 != owner
            invariant
                k <= cur@.len(),
                forall|x: int| 0 <= x < k ==> cur@[x].0 != owner,
            decreases cur@.len() - k,
        {
            k += 1;
        }
        if k == cur.len() {
            proof {
                assert(!has_key(cur@, owner));
                assert(!has_key(orig, owner));
                assert(owners@[i as int] == owner);
                assert(!has_key(shapes@, owners@[i as int]));
            }
            return Err(PresentationError::MissingShapes { owner });
        }
        let ghost before = cur@;
        proof {
            assert(orig.contains(before[k as int]));
            let m = choose|m: int| 0 <= m < orig.len() && orig[m] == before[k as int];
            assert(orig[m].0 == owner);
            assert(has_key(orig, owner));
        }
        let (id, s) = cur.remove(k);
        proof {
            assert forall|x: int| 0 <= x < cur@.len() implies orig.contains(#[trigger] cur@[x]) by {
                if x < k {
                    assert(cur@[x] == before[x]);
                } else {
                    assert(cur@[x] == before[x + 1]);
                }
            }
            assert forall|j: int| i + 1 <= j < owners@.len() && has_key(orig, #[trigger] owners@[j]) implies has_key(
                cur@,
                owners@[j],
            ) by {
                let m = choose|m: int| 0 <= m < before.len() && before[m].0 == owners@[j];
                assert(owners@[j] != owners@[i as int]);
                assert(m != k);
                if m < k {
                    assert(cur@[m] == before[m]);
                } else {
                    assert(cur@[m - 1] == before[m]);
                }
            }
        }
        out.push((id, DagPresentationFacts { plot_channels: s }));
        i += 1;
    }
    Ok(out)
}

} // verus!
