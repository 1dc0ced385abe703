//! Index shape of assertion bodies and validation of `#[expected_fail]` keys.

use crate::expression_facts::axes_of;
use crate::index::{IndexName, IndexRefV, IndexTypeRef, Symbol};
use crate::rules::Span;
use crate::types::{InferredIndex, InferredType};
use vstd::prelude::*;

verus! {

/// The axes an assertion ranges over: none for a scalar assertion.
#[derive(Debug)]
pub struct AssertionIndexShape {
    axes: Vec<InferredIndex>,
}

impl AssertionIndexShape {
    /// Axes outer to inner.
    pub closed spec fn axes_view(self) -> Seq<IndexRefV> {
        self.axes@.map_values(|i: InferredIndex| i@)
    }

    /// The shape of a scalar assertion.
    pub fn scalar() -> (s: AssertionIndexShape)
        ensures
            s.axes_view() == Seq::<IndexRefV>::empty(),
    {
        let s = AssertionIndexShape { axes: Vec::new() };
        assert(s.axes_view() =~= Seq::<IndexRefV>::empty());
        s
    }

    /// The axes of a (possibly indexed) `Bool` body type.
    pub fn from_bool_type(ty: &InferredType) -> (s: AssertionIndexShape)
        ensures
            s.axes_view() == axes_of(ty@),
        decreases ty,
    {
        match ty {
            InferredType::Indexed { element, index } => {
                let inner = AssertionIndexShape::from_bool_type(element);
                let mut axes: Vec<InferredIndex> = Vec::new();
                axes.push(index.clone());
                let mut i: usize = 0;
                while i < inner.axes.len()
                    invariant
                        i <= inner.axes@.len(),
                        axes@.len() == i + 1,
                        axes@[0]@ == index@,
                        forall|j: int| 1 <= j <= i ==> #[trigger] axes@[j]@ == inner.axes@[j - 1]@,
                    decreases inner.axes@.len() - i,
                {
                    axes.push(inner.axes[i].clone());
                    i += 1;
                }
                let s = AssertionIndexShape { axes };
                proof {
                    let lhs = s.axes_view();
                    let rhs = seq![index@] + inner.axes_view();
                    assert forall|k: int| 0 <= k < lhs.len() implies lhs[k] == rhs[k] by {
                        if k > 0 {
                            assert(axes@[k]@ == inner.axes@[k - 1]@);
                        }
                    }
                    assert(lhs =~= rhs);
                }
                s
            },
            _ => {
                let s = AssertionIndexShape { axes: Vec::new() };
                assert(s.axes_view() =~= Seq::<IndexRefV>::empty());
                s
            },
        }
    }

    /// Whether the assertion ranges over at least one axis.
    pub fn is_indexed(&self) -> (b: bool)
        ensures
            b == (self.axes_view().len() > 0),
    {
        self.axes.len() != 0
    }

    /// The number of axes.
    pub fn rank(&self) -> (n: usize)
        ensures
            n == self.axes_view().len(),
    {
        self.axes.len()
    }
}

/// One component of an expected-failure key: a label of one axis.
#[derive(Debug)]
pub struct ExpectedFailKeyPart {
    pub index: IndexTypeRef,
    pub variant: Symbol,
    pub span: Span,
}

/// The `#[expected_fail]` attribute of an assertion.
#[derive(Debug)]
pub enum ExpectedFail {
    /// The whole (scalar) assertion is expected to fail.
    All,
    /// The listed keys of an indexed assertion are expected to fail.
    Variants(Vec<Vec<ExpectedFailKeyPart>>),
}

/// Why an `#[expected_fail]` attribute does not fit its assertion.
#[derive(Debug)]
pub enum ExpectedFailError {
    /// A blanket expected failure on an indexed assertion.
    AllOnIndexed { span: Span },
    /// Keys on an assertion that has no axes.
    NotIndexed { span: Span },
    /// A key with the wrong number of components.
    KeyShapeMismatch { expected: usize, found: usize, span: Span },
    /// A key component that labels another axis than the assertion's.
    KeyIndexMismatch { expected: IndexName, found: IndexName, span: Span },
    /// A key listed twice.
    DuplicateKey { span: Span },
}

/// The span covering a key, or an empty span at the start for an empty key.
pub open spec fn key_span_v(key: Seq<ExpectedFailKeyPart>) -> Span
    decreases key.len(),
{
    if key.len() == 0 {
        Span { start: 0, end: 0 }
    } else if key.len() == 1 {
        key[0].span
    } else {
        let s = key_span_v(key.drop_last());
        let t = key.last().span;
        Span {
            start: if s.start <= t.start { s.start } else { t.start },
            end: if s.end >= t.end { s.end } else { t.end },
        }
    }
}

/// The identity of a key: its axes and labels.
pub open spec fn key_sig(key: Seq<ExpectedFailKeyPart>) -> Seq<(IndexRefV, Symbol)> {
    key.map_values(|p: ExpectedFailKeyPart| (p.index@, p.variant))
}

/// A key names one label of every axis, in order.
pub open spec fn key_fits(key: Seq<ExpectedFailKeyPart>, axes: Seq<IndexRefV>) -> bool {
    key.len() == axes.len() && forall|i: int| 0 <= i < key.len() ==> (#[trigger] key[i]).index@ == axes[i]
}

/// A key is acceptable: it fits and no earlier key has the same identity.
pub open spec fn key_ok(keys: Seq<Vec<ExpectedFailKeyPart>>, k: int, axes: Seq<IndexRefV>) -> bool {
    &&& key_fits(keys[k]@, axes)
    &&& forall|j: int| 0 <= j < k ==> key_sig(#[trigger] keys[j]@) != key_sig(keys[k]@)
}

/// The name shown for an index.
pub open spec fn names_index(n: IndexName, i: IndexRefV) -> bool {
    match (n, i) {
        (IndexName::Declared(s), IndexRefV::Declared(r)) => s == r.name,
        (IndexName::Range(f), IndexRefV::NatRange(v)) => f@ == v,
        _ => false,
    }
}

/// The error reported for a key that is not acceptable.
pub open spec fn key_error_v(
    keys: Seq<Vec<ExpectedFailKeyPart>>,
    k: int,
    axes: Seq<IndexRefV>,
    e: ExpectedFailError,
) -> bool {
    let key = keys[k]@;
    if key.len() != axes.len() {
        e == ExpectedFailError::KeyShapeMismatch {
            expected: axes.len() as usize,
            found: key.len() as usize,
            span: key_span_v(key),
        }
    } else if !key_fits(key, axes) {
        exists|i: int|
            #![trigger key[i]]
            0 <= i < key.len() && key[i].index@ != axes[i] && (forall|j: int|
                0 <= j < i ==> (#[trigger] key[j]).index@ == axes[j]) && (e matches ExpectedFailError::KeyIndexMismatch {
                expected,
                found,
                span,
            } && span == key[i].span && names_index(expected, axes[i]) && names_index(found, key[i].index@))
    } else {
        e == ExpectedFailError::DuplicateKey { span: key_span_v(key) }
    }
}

fn key_span(key: &Vec<ExpectedFailKeyPart>) -> (s: Span)
    ensures
        s == key_span_v(key@),
{
    if key.len() == 0 {
        return Span::new(0, 0);
    }
    let mut s = key[0].span;
    let mut i: usize = 1;
    while i < key.len()
        invariant
            1 <= i <= key@.len(),
            s == key_span_v(key@.subrange(0, i as int)),
        decreases key@.len() - i,
    {
        proof {
            let pre = key@.subrange(0, i as int + 1);
            assert(pre.drop_last() =~= key@.subrange(0, i as int));
            assert(pre.last() == key@[i as int]);
        }
        s = s.merge(key[i].span);
        i += 1;
    }
    proof {
        assert(key@.subrange(0, key@.len() as int) =~= key@);
    }
    s
}

fn same_signature(a: &Vec<ExpectedFailKeyPart>, b: &Vec<ExpectedFailKeyPart>) -> (r: bool)
    ensures
        r == (key_sig(a@) == key_sig(b@)),
{
    if a.len() != b.len() {
        proof {
            assert(key_sig(a@).len() != key_sig(b@).len());
        }
        return false;
    }
    let mut i: usize = 0;
    while i < a.len()
        invariant
            a@.len() == b@.len(),
            i <= a@.len(),
            forall|j: int| 0 <= j < i ==> #[trigger] key_sig(a@)[j] == key_sig(b@)[j],
        decreases a@.len() - i,
    {
        if !a[i].index.matches_ref(&b[i].index) || a[i].variant != b[i].variant {
            proof {
                assert(key_sig(a@)[i as int] != key_sig(b@)[i as int]);
            }
            return false;
        }
        i += 1;
    }
    proof {
        assert(key_sig(a@) =~= key_sig(b@));
    }
    true
}

/// A key must name one label of each assertion axis, in order.
pub fn validate_expected_fail_key(key: &Vec<ExpectedFailKeyPart>, shape: &AssertionIndexShape) -> (r:
    Result<(), ExpectedFailError>)
    ensures
        r is Ok <==> key_fits(key@, shape.axes_view()),
        r matches Err(e) ==> key_error_v(seq![*key], 0, shape.axes_view(), e),
{
    let ghost axes = shape.axes_view();
    if key.len() != shape.rank() {
        return Err(
            ExpectedFailError::KeyShapeMismatch {
                expected: shape.rank(),
                found: key.len(),
                span: key_span(key),
            },
        );
    }
    let mut i: usize = 0;
    while i < key.len()
        invariant
            axes == shape.axes_view(),
            key@.len() == axes.len(),
            shape.axes@.len() == axes.len(),
            i <= key@.len(),
            forall|j: int| 0 <= j < i ==> (#[trigger] key@[j]).index@ == axes[j],
        decreases key@.len() - i,
    {
        proof {
            assert(axes[i as int] == shape.axes@[i as int]@);
        }
        if !shape.axes[i].matches_ref(&key[i].index) {
            let expected = shape.axes[i].name();
            let found = key[i].index.display_name();
            proof {
                assert(seq![*key][0]@ == key@);
                assert(key@[i as int].index@ != axes[i as int]);
            }
            return Err(
                ExpectedFailError::KeyIndexMismatch { expected, found, span: key[i].span },
            );
        }
        i += 1;
    }
    Ok(())
}

/// Whether the first `n` keys are acceptable.
pub open spec fn keys_ok(keys: Seq<Vec<ExpectedFailKeyPart>>, n: int, axes: Seq<IndexRefV>) -> bool {
    forall|k: int| 0 <= k < n ==> #[trigger] key_ok(keys, k, axes)
}

/// An `#[expected_fail]` attribute fits its assertion: a blanket failure only
/// on a scalar assertion, keys only on an indexed one, each key fitting the
/// axes and no key listed twice.
pub fn validate_expected_fail(
    expected_fail: &ExpectedFail,
    shape: &AssertionIndexShape,
    assert_span: Span,
) -> (r: Result<(), ExpectedFailError>)
    ensures
        match expected_fail {
            ExpectedFail::All => if shape.axes_view().len() > 0 {
                r matches Err(e) && e == (ExpectedFailError::AllOnIndexed { span: assert_span })
            } else {
                r is Ok
            },
            ExpectedFail::Variants(keys) => if shape.axes_view().len() == 0 {
                r matches Err(e) && e == (ExpectedFailError::NotIndexed {
                    span: if keys@.len() > 0 {
                        key_span_v(keys@[0]@)
                    } else {
                        assert_span
                    },
                })
            } else {
                &&& r is Ok <==> keys_ok(keys@, keys@.len() as int, shape.axes_view())
                &&& r matches Err(e) ==> exists|k: int|
                    0 <= k < keys@.len() && keys_ok(keys@, k, shape.axes_view()) && !key_ok(
                        keys@,
                        k,
                        shape.axes_view(),
                    ) && #[trigger] key_error_v(keys@, k, shape.axes_view(), e)
            },
        },
{
    match expected_fail {
        ExpectedFail::All => {
            if shape.is_indexed() {
                Err(ExpectedFailError::AllOnIndexed { span: assert_span })
            } else {
                Ok(())
            }
        },
        ExpectedFail::Variants(keys) => {
            if !shape.is_indexed() {
                let span = if keys.len() > 0 {
                    key_span(&keys[0])
                } else {
                    assert_span
                };
                return Err(ExpectedFailError::NotIndexed { span });
            }
            let ghost axes = shape.axes_view();
            let mut k: usize = 0;
            #[verifier::loop_isolation(false)]
            while k < keys.len()
                invariant
                    axes == shape.axes_view(),
                    k <= keys@.len(),
                    keys_ok(keys@, k as int, axes),
                decreases keys@.len() - k,
            {
                match validate_expected_fail_key(&keys[k], shape) {
                    Err(e) => {
                        proof {
                            assert(seq![keys@[k as int]][0] == keys@[k as int]);
                            assert(key_error_v(keys@, k as int, axes, e));
                            assert(!key_fits(keys@[k as int]@, axes));
                            assert(!key_ok(keys@, k as int, axes));
                            assert(!keys_ok(keys@, keys@.len() as int, axes));
                        }
                        return Err(e);
                    },
                    Ok(()) => {},
                }
                let mut j: usize = 0;
                #[verifier::loop_isolation(false)]
                while j < k
                    invariant
                        j <= k < keys@.len(),
                        forall|i: int| 0 <= i < j ==> key_sig(#[trigger] keys@[i]@) != key_sig(keys@[k as int]@),
                    decreases k - j,
                {
                    if same_signature(&keys[j], &keys[k]) {
                        let span = key_span(&keys[k]);
                        proof {
                            assert(!key_ok(keys@, k as int, axes));
                            assert(!keys_ok(keys@, keys@.len() as int, axes));
                            assert(key_error_v(keys@, k as int, axes, ExpectedFailError::DuplicateKey { span }));
                        }
                        return Err(ExpectedFailError::DuplicateKey { span });
                    }
                    j += 1;
                }
                proof {
                    assert(key_ok(keys@, k as int, axes));
                    assert forall|i: int| 0 <= i < k + 1 implies #[trigger] key_ok(keys@, i, axes) by {
                        if i < k {
                            assert(key_ok(keys@, i, axes));
                        }
                    }
                }
                k += 1;
            }
            Ok(())
        },
    }
}

} // verus!
