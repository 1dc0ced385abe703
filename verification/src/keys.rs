//! Key spaces of multi-axis indexed values and map-literal exhaustiveness.

use crate::fields::contains_symbol;
use crate::index::{IndexRefV, Symbol};
use crate::rules::{Operand, Span};
use crate::types::{type_equal, InferredIndex, InferredType, TypeV};
use vstd::prelude::*;

verus! {

/// `t` picks one entry of each of the first `n` axes, in order.
pub open spec fn picks<T>(axes: Seq<Seq<T>>, t: Seq<T>, n: int) -> bool {
    &&& t.len() == n
    &&& forall|i: int| 0 <= i < n ==> (#[trigger] axes[i]).contains(t[i])
}

pub open spec fn axes_view<T>(axes: Seq<Vec<T>>) -> Seq<Seq<T>> {
    axes.map_values(|v: Vec<T>| v@)
}

fn extended<T: Copy>(prefix: &Vec<T>, x: T) -> (r: Vec<T>)
    ensures
        r@ == prefix@.push(x),
{
    let mut r: Vec<T> = Vec::new();
    let mut i: usize = 0;
    while i < prefix.len()
        invariant
            i <= prefix@.len(),
            r@ == prefix@.subrange(0, i as int),
        decreases prefix@.len() - i,
    {
        r.push(prefix[i]);
        i += 1;
        proof {
            assert(r@ =~= prefix@.subrange(0, i as int));
        }
    }
    r.push(x);
    proof {
        assert(r@ =~= prefix@.push(x));
    }
    r
}

/// Some entry of `rows` views as `t`.
pub open spec fn lists<T>(rows: Seq<Vec<T>>, t: Seq<T>) -> bool {
    exists|k: int| 0 <= k < rows.len() && #[trigger] rows[k]@ == t
}

/// Every key of a multi-axis value: each tuple that picks one entry of every
/// axis, in axis order, appears in the result, and nothing else does.
pub fn cartesian_product<T: Copy>(axes: &Vec<Vec<T>>) -> (r: Vec<Vec<T>>)
    ensures
        forall|k: int| 0 <= k < r@.len() ==> picks(axes_view(axes@), #[trigger] r@[k]@, axes@.len() as int),
        forall|t: Seq<T>| #[trigger] picks(axes_view(axes@), t, axes@.len() as int) ==> lists(r@, t),
{
    let ghost av = axes_view(axes@);
    let mut acc: Vec<Vec<T>> = Vec::new();
    acc.push(Vec::new());
    proof {
        assert forall|t: Seq<T>| #[trigger] picks(av, t, 0) implies lists(acc@, t) by {
            assert(acc@[0]@ =~= t);
        }
    }
    let mut a: usize = 0;
    while a < axes.len()
        invariant
            av == axes_view(axes@),
            a <= axes@.len(),
            forall|k: int| 0 <= k < acc@.len() ==> picks(av, #[trigger] acc@[k]@, a as int),
            forall|t: Seq<T>| #[trigger] picks(av, t, a as int) ==> lists(acc@, t),
        decreases axes@.len() - a,
    {
        let axis = &axes[a];
        proof {
            assert(av[a as int] == axis@);
        }
        let mut next: Vec<Vec<T>> = Vec::new();
        let mut i: usize = 0;
        while i < acc.len()
            invariant
                av == axes_view(axes@),
                a < axes@.len(),
                av[a as int] == axis@,
                i <= acc@.len(),
                forall|k: int| 0 <= k < acc@.len() ==> picks(av, #[trigger] acc@[k]@, a as int),
                forall|k: int| 0 <= k < next@.len() ==> picks(av, #[trigger] next@[k]@, a + 1),
                forall|p: int, q: int|
                    #![trigger acc@[p], axis@[q]]
                    0 <= p < i && 0 <= q < axis@.len() ==> lists(next@, acc@[p]@.push(axis@[q])),
            decreases acc@.len() - i,
        {
            let mut j: usize = 0;
            while j < axis.len()
                invariant
                    av == axes_view(axes@),
                    a < axes@.len(),
                    av[a as int] == axis@,
                    i < acc@.len(),
                    j <= axis@.len(),
                    picks(av, acc@[i as int]@, a as int),
                    forall|k: int| 0 <= k < next@.len() ==> picks(av, #[trigger] next@[k]@, a + 1),
                    forall|p: int, q: int|
                        #![trigger acc@[p], axis@[q]]
                        (0 <= p < i && 0 <= q < axis@.len()) || (p == i && 0 <= q < j)
                            ==> lists(next@, acc@[p]@.push(axis@[q])),
                decreases axis@.len() - j,
            {
                let t = extended(&acc[i], axis[j]);
                let ghost before = next@;
                next.push(t);
                proof {
                    let tv = acc@[i as int]@.push(axis@[j as int]);
                    assert forall|m: int| 0 <= m < a + 1 implies (#[trigger] av[m]).contains(tv[m]) by {
                        if m < a {
                            assert(av[m].contains(acc@[i as int]@[m]));
                        } else {
                            assert(av[m][j as int] == tv[m]);
                        }
                    }
                    assert(picks(av, tv, a + 1));
                    assert forall|k: int| 0 <= k < next@.len() implies picks(av, #[trigger] next@[k]@, a + 1) by {
                        if k < before.len() {
                            assert(next@[k] == before[k]);
                        }
                    }
                    assert forall|p: int, q: int|
                        #![trigger acc@[p], axis@[q]]
                        (0 <= p < i && 0 <= q < axis@.len()) || (p == i && 0 <= q < j + 1)
                            implies lists(next@, acc@[p]@.push(axis@[q])) by {
                        if p == i && q == j {
                            assert(next@[before.len() as int]@ == acc@[p]@.push(axis@[q]));
                        } else {
                            assert(lists(before, acc@[p]@.push(axis@[q])));
                            let k = choose|k: int|
                                0 <= k < before.len() && #[trigger] before[k]@ == acc@[p]@.push(axis@[q]);
                            assert(next@[k] == before[k]);
                        }
                    }
                }
                j += 1;
            }
            i += 1;
        }
        proof {
            assert forall|t: Seq<T>| #[trigger] picks(av, t, a + 1) implies lists(next@, t) by {
                let prefix = t.drop_last();
                assert(picks(av, prefix, a as int)) by {
                    assert forall|m: int| 0 <= m < a implies (#[trigger] av[m]).contains(prefix[m]) by {
                        assert(av[m].contains(t[m]));
                    }
                }
                assert(lists(acc@, prefix));
                let p = choose|p: int| 0 <= p < acc@.len() && #[trigger] acc@[p]@ == prefix;
                assert(av[a as int].contains(t[a as int]));
                let q = choose|q: int| 0 <= q < axis@.len() && axis@[q] == t[a as int];
                assert(acc@[p]@.push(axis@[q]) =~= t);
            }
        }
        acc = next;
        a += 1;
    }
    acc
}


/// The first key tuple, in key order (the first axis varies slowest and each
/// axis follows its declaration order), that extends `prefix` by variants of
/// the remaining axes and is not listed in `entries`; variants of axis
/// `prefix.len()` are tried from position `j` on.
pub open spec fn first_missing_from(
    axes: Seq<Seq<Symbol>>,
    entries: Seq<Seq<Symbol>>,
    prefix: Seq<Symbol>,
    j: int,
) -> Option<Seq<Symbol>>
    decreases axes.len() - prefix.len(), axes[prefix.len() as int].len() - j,
{
    if prefix.len() >= axes.len() {
        if entries.contains(prefix) {
            None
        } else {
            Some(prefix)
        }
    } else if j < 0 || j >= axes[prefix.len() as int].len() {
        None
    } else {
        match first_missing_from(axes, entries, prefix.push(axes[prefix.len() as int][j]), 0) {
            Some(t) => Some(t),
            None => first_missing_from(axes, entries, prefix, j + 1),
        }
    }
}

/// The first key tuple of the key space, in key order, that `entries` does
/// not list.
pub open spec fn first_missing(axes: Seq<Seq<Symbol>>, entries: Seq<Seq<Symbol>>) -> Option<Seq<Symbol>> {
    first_missing_from(axes, entries, Seq::empty(), 0)
}

/// `t` extends `prefix` and, at the next axis, uses a variant at position
/// `j` or later.
pub open spec fn in_subtree(axes: Seq<Seq<Symbol>>, prefix: Seq<Symbol>, j: int, t: Seq<Symbol>) -> bool {
    &&& picks(axes, t, axes.len() as int)
    &&& t.subrange(0, prefix.len() as int) == prefix
    &&& prefix.len() < axes.len() ==> exists|q: int|
        j <= q < axes[prefix.len() as int].len() && axes[prefix.len() as int][q] == t[prefix.len() as int]
}

proof fn lemma_first_missing_from(
    axes: Seq<Seq<Symbol>>,
    entries: Seq<Seq<Symbol>>,
    prefix: Seq<Symbol>,
    j: int,
)
    requires
        prefix.len() <= axes.len(),
        picks(axes, prefix, prefix.len() as int),
        0 <= j,
    ensures
        first_missing_from(axes, entries, prefix, j) matches Some(t) ==> in_subtree(axes, prefix, j, t)
            && !entries.contains(t),
        first_missing_from(axes, entries, prefix, j) is None ==> forall|t: Seq<Symbol>|
            #[trigger] in_subtree(axes, prefix, j, t) ==> entries.contains(t),
    decreases axes.len() - prefix.len(), axes[prefix.len() as int].len() - j,
{
    let n = axes.len() as int;
    let k = prefix.len() as int;
    if k >= n {
        assert(prefix.subrange(0, k) =~= prefix);
        assert forall|t: Seq<Symbol>| #[trigger] in_subtree(axes, prefix, j, t) implies t == prefix by {
            assert(t.subrange(0, k) =~= t);
        }
    } else if j >= axes[k].len() {
        assert forall|t: Seq<Symbol>| #[trigger] in_subtree(axes, prefix, j, t) implies entries.contains(t) by {
            let q = choose|q: int| j <= q < axes[k].len() && axes[k][q] == t[k];
        }
    } else {
        let v = axes[k][j];
        let ext = prefix.push(v);
        assert(picks(axes, ext, k + 1)) by {
            assert forall|i: int| 0 <= i < k + 1 implies (#[trigger] axes[i]).contains(ext[i]) by {
                if i < k {
                    assert(axes[i].contains(prefix[i]));
                } else {
                    assert(axes[k][j] == ext[k]);
                }
            }
        }
        lemma_first_missing_from(axes, entries, ext, 0);
        lemma_first_missing_from(axes, entries, prefix, j + 1);
        match first_missing_from(axes, entries, ext, 0) {
            Some(t) => {
                assert(t.subrange(0, k) =~= t.subrange(0, k + 1).subrange(0, k));
                assert(ext.subrange(0, k) =~= prefix);
                assert(t[k] == ext[k]);
            },
            None => {
                match first_missing_from(axes, entries, prefix, j + 1) {
                    Some(t) => {
                        let q = choose|q: int| j + 1 <= q < axes[k].len() && axes[k][q] == t[k];
                    },
                    None => {
                        assert forall|t: Seq<Symbol>| #[trigger] in_subtree(axes, prefix, j, t) implies entries.contains(t) by {
                            if t[k] == v {
                                assert(t.subrange(0, k + 1) =~= ext) by {
                                    assert(t.subrange(0, k) == prefix);
                                    assert forall|i: int| 0 <= i < k + 1 implies t.subrange(0, k + 1)[i] == ext[i] by {
                                        if i < k {
                                            assert(t.subrange(0, k)[i] == prefix[i]);
                                        }
                                    }
                                }
                                if k + 1 < n {
                                    let next = axes[k + 1];
                                    assert(next.contains(t[k + 1]));
                                    let q = choose|q: int| 0 <= q < next.len() && next[q] == t[k + 1];
                                }
                                assert(in_subtree(axes, ext, 0, t));
                            } else {
                                let q = choose|q: int| j <= q < axes[k].len() && axes[k][q] == t[k];
                                assert(q != j);
                                assert(in_subtree(axes, prefix, j + 1, t));
                            }
                        }
                    },
                }
            },
        }
    }
}

/// Every tuple of the key space is listed exactly when no tuple is missing;
/// a reported tuple belongs to the key space and is not listed.
pub proof fn lemma_first_missing(axes: Seq<Seq<Symbol>>, entries: Seq<Seq<Symbol>>)
    ensures
        first_missing(axes, entries) matches Some(t) ==> picks(axes, t, axes.len() as int)
            && !entries.contains(t),
        first_missing(axes, entries) is None <==> forall|t: Seq<Symbol>|
            picks(axes, t, axes.len() as int) ==> entries.contains(t),
{
    let e = Seq::<Symbol>::empty();
    lemma_first_missing_from(axes, entries, e, 0);
    if first_missing(axes, entries) is None {
        assert forall|t: Seq<Symbol>| picks(axes, t, axes.len() as int) implies entries.contains(t) by {
            assert(t.subrange(0, 0) =~= e);
            if 0 < axes.len() {
                assert(axes[0].contains(t[0]));
                let q = choose|q: int| 0 <= q < axes[0].len() && axes[0][q] == t[0];
            }
            assert(in_subtree(axes, e, 0, t));
        }
    }
}


fn same_symbols(a: &Vec<Symbol>, b: &Vec<Symbol>) -> (r: bool)
    ensures
        r == (a@ == b@),
{
    if a.len() != b.len() {
        return false;
    }
    let mut i: usize = 0;
    while i < a.len()
        invariant
            a@.len() == b@.len(),
            i <= a@.len(),
            forall|j: int| 0 <= j < i ==> a@[j] == b@[j],
        decreases a@.len() - i,
    {
        if a[i] != b[i] {
            return false;
        }
        i += 1;
    }
    assert(a@ =~= b@);
    true
}

/// Whether some entry lists exactly the keys `t`.
fn lists_tuple(entries: &Vec<Vec<Symbol>>, t: &Vec<Symbol>) -> (r: bool)
    ensures
        r == axes_view(entries@).contains(t@),
{
    let ghost ev = axes_view(entries@);
    let mut i: usize = 0;
    while i < entries.len()
        invariant
            ev == axes_view(entries@),
            i <= entries@.len(),
            forall|j: int| 0 <= j < i ==> ev[j] != t@,
        decreases entries@.len() - i,
    {
        if same_symbols(&entries[i], t) {
            assert(ev[i as int] == t@);
            return true;
        }
        i += 1;
    }
    false
}

fn find_missing(axes: &Vec<Vec<Symbol>>, entries: &Vec<Vec<Symbol>>, prefix: Vec<Symbol>) -> (r: Option<
    Vec<Symbol>,
>)
    requires
        prefix@.len() <= axes@.len(),
    ensures
        match r {
            Some(t) => first_missing_from(axes_view(axes@), axes_view(entries@), prefix@, 0) == Some(t@),
            None => first_missing_from(axes_view(axes@), axes_view(entries@), prefix@, 0) is None,
        },
    decreases axes@.len() - prefix@.len(),
{
    let ghost av = axes_view(axes@);
    let ghost ev = axes_view(entries@);
    if prefix.len() >= axes.len() {
        if lists_tuple(entries, &prefix) {
            return None;
        } else {
            return Some(prefix);
        }
    }
    let k = prefix.len();
    let axis = &axes[k];
    proof {
        assert(av[k as int] == axis@);
    }
    let mut j: usize = 0;
    while j < axis.len()
        invariant
            av == axes_view(axes@),
            ev == axes_view(entries@),
            k == prefix@.len(),
            k < axes@.len(),
            av[k as int] == axis@,
            j <= axis@.len(),
            first_missing_from(av, ev, prefix@, 0) == first_missing_from(av, ev, prefix@, j as int),
        decreases axis@.len() - j,
    {
        let ext = extended(&prefix, axis[j]);
        match find_missing(axes, entries, ext) {
            Some(t) => {
                return Some(t);
            },
            None => {},
        }
        j += 1;
    }
    None
}

/// Number of key tuples of the axes: the product of their variant counts.
pub open spec fn key_space(axes: Seq<Seq<Symbol>>) -> nat
    decreases axes.len(),
{
    if axes.len() == 0 {
        1
    } else {
        key_space(axes.drop_last()) * axes.last().len()
    }
}


proof fn lemma_key_space_prefix(axes: Seq<Seq<Symbol>>, i: int)
    requires
        0 <= i <= axes.len(),
        forall|k: int| 0 <= k < axes.len() ==> #[trigger] axes[k].len() >= 1,
    ensures
        key_space(axes.subrange(0, i)) <= key_space(axes),
    decreases axes.len() - i,
{
    if i < axes.len() {
        let shorter = axes.drop_last();
        assert(shorter.subrange(0, i) =~= axes.subrange(0, i));
        assert forall|k: int| 0 <= k < shorter.len() implies #[trigger] shorter[k].len() >= 1 by {
            assert(shorter[k] == axes[k]);
        }
        lemma_key_space_prefix(shorter, i);
        let a = key_space(shorter);
        let b = axes.last().len();
        assert(b >= 1);
        assert(a <= a * b) by (nonlinear_arith)
            requires
                b >= 1,
        ;
    } else {
        assert(axes.subrange(0, i) =~= axes);
    }
}

/// Why the keys of a map literal do not cover its key space exactly once.
#[derive(Debug, PartialEq, Eq)]
pub enum MapKeyError {
    /// A map literal without entries.
    Empty,
    /// An entry with another number of keys than the literal has axes.
    InconsistentArity { entry: usize },
    /// An entry whose keys repeat an earlier entry.
    DuplicateEntry { entry: usize },
    /// A key of a multi-axis entry that is not a variant of its axis.
    UnknownVariant { entry: usize, axis: usize },
    /// Keys of a single-axis literal that are not variants of the axis, in
    /// entry order.
    ExtraVariants { variants: Vec<Symbol> },
    /// Variants of a single axis without an entry, in declaration order.
    MissingVariants { variants: Vec<Symbol> },
    /// Key tuples of a multi-axis literal without an entry: how many, and the
    /// first in key order.
    MissingEntries { count: usize, first: Vec<Symbol> },
}

/// Every entry has one key per axis.
pub open spec fn arity_ok(entries: Seq<Seq<Symbol>>, n: nat) -> bool {
    forall|i: int| 0 <= i < entries.len() ==> #[trigger] entries[i].len() == n
}

/// Entry `i` repeats the keys of an earlier entry.
pub open spec fn entry_repeats(entries: Seq<Seq<Symbol>>, i: int) -> bool {
    exists|j: int| 0 <= j < i && entries[j] == entries[i]
}

/// Entry `i` is new and, in a multi-axis literal, names a variant of every axis.
pub open spec fn entry_ok(axes: Seq<Seq<Symbol>>, entries: Seq<Seq<Symbol>>, i: int) -> bool {
    &&& !entry_repeats(entries, i)
    &&& axes.len() > 1 ==> picks(axes, entries[i], axes.len() as int)
}

/// An entry whose first key is not a variant of `axis`.
pub open spec fn key_outside(axis: Seq<Symbol>) -> spec_fn(Seq<Symbol>) -> bool {
    |e: Seq<Symbol>| !axis.contains(e[0])
}

/// The first key of an entry.
pub open spec fn first_key() -> spec_fn(Seq<Symbol>) -> Symbol {
    |e: Seq<Symbol>| e[0]
}

/// A variant that no single-key entry lists.
pub open spec fn variant_unlisted(entries: Seq<Seq<Symbol>>) -> spec_fn(Symbol) -> bool {
    |v: Symbol| !entries.contains(seq![v])
}

/// The keys of a single-axis literal that are not variants of its axis.
pub open spec fn extra_keys(axes: Seq<Seq<Symbol>>, entries: Seq<Seq<Symbol>>) -> Seq<Symbol> {
    entries.filter(key_outside(axes[0])).map_values(first_key())
}

/// The variants of a single axis that no entry lists.
pub open spec fn missing_keys(axes: Seq<Seq<Symbol>>, entries: Seq<Seq<Symbol>>) -> Seq<Symbol> {
    axes[0].filter(variant_unlisted(entries))
}

/// How many key tuples the entries leave out, given they are distinct tuples
/// of the key space.
pub open spec fn missing_count(axes: Seq<Seq<Symbol>>, entries: Seq<Seq<Symbol>>) -> nat {
    if key_space(axes) >= entries.len() {
        (key_space(axes) - entries.len()) as nat
    } else {
        0
    }
}


fn extra_keys_of(axes: &Vec<Vec<Symbol>>, entries: &Vec<Vec<Symbol>>) -> (r: Vec<Symbol>)
    requires
        axes@.len() == 1,
        arity_ok(axes_view(entries@), 1),
    ensures
        r@ == extra_keys(axes_view(axes@), axes_view(entries@)),
{
    let ghost av = axes_view(axes@);
    let ghost ev = axes_view(entries@);
    let axis = &axes[0];
    proof {
        assert(av[0] == axis@);
    }
    let mut r: Vec<Symbol> = Vec::new();
    let mut i: usize = 0;
    while i < entries.len()
        invariant
            av == axes_view(axes@),
            ev == axes_view(entries@),
            av[0] == axis@,
            arity_ok(ev, 1),
            i <= entries@.len(),
            r@ == ev.subrange(0, i as int).filter(key_outside(axis@)).map_values(first_key()),
        decreases entries@.len() - i,
    {
        let entry = &entries[i];
        proof {
            assert(ev[i as int] == entry@);
            assert(entry@.len() == 1);
            reveal(Seq::filter);
            assert(ev.subrange(0, i as int + 1).drop_last() =~= ev.subrange(0, i as int));
        }
        let key = entry[0];
        let ghost before = ev.subrange(0, i as int).filter(key_outside(axis@));
        if !contains_symbol(axis, key) {
            r.push(key);
            proof {
                assert(before.push(entry@).map_values(first_key()) =~= before.map_values(first_key()).push(key));
            }
        }
        i += 1;
    }
    proof {
        assert(ev.subrange(0, ev.len() as int) =~= ev);
    }
    r
}

/// Whether some single-key entry lists `v`.
fn lists_single_key(entries: &Vec<Vec<Symbol>>, v: Symbol) -> (b: bool)
    requires
        arity_ok(axes_view(entries@), 1),
    ensures
        b == axes_view(entries@).contains(seq![v]),
{
    let ghost ev = axes_view(entries@);
    let mut i: usize = 0;
    while i < entries.len()
        invariant
            ev == axes_view(entries@),
            arity_ok(ev, 1),
            i <= entries@.len(),
            forall|j: int| 0 <= j < i ==> ev[j] != seq![v],
        decreases entries@.len() - i,
    {
        proof {
            assert(ev[i as int] == entries@[i as int]@);
            assert(ev[i as int].len() == 1);
        }
        if entries[i][0] == v {
            assert(ev[i as int] =~= seq![v]);
            return true;
        }
        assert(ev[i as int] != seq![v]);
        i += 1;
    }
    false
}

fn missing_keys_of(axes: &Vec<Vec<Symbol>>, entries: &Vec<Vec<Symbol>>) -> (r: Vec<Symbol>)
    requires
        axes@.len() == 1,
        arity_ok(axes_view(entries@), 1),
    ensures
        r@ == missing_keys(axes_view(axes@), axes_view(entries@)),
{
    let ghost av = axes_view(axes@);
    let ghost ev = axes_view(entries@);
    let axis = &axes[0];
    proof {
        assert(av[0] == axis@);
    }
    let mut r: Vec<Symbol> = Vec::new();
    let mut j: usize = 0;
    while j < axis.len()
        invariant
            av == axes_view(axes@),
            ev == axes_view(entries@),
            av[0] == axis@,
            arity_ok(ev, 1),
            j <= axis@.len(),
            r@ == axis@.subrange(0, j as int).filter(variant_unlisted(ev)),
        decreases axis@.len() - j,
    {
        proof {
            reveal(Seq::filter);
            assert(axis@.subrange(0, j as int + 1).drop_last() =~= axis@.subrange(0, j as int));
        }
        let v = axis[j];
        if !lists_single_key(entries, v) {
            r.push(v);
        }
        j += 1;
    }
    proof {
        assert(axis@.subrange(0, axis@.len() as int) =~= axis@);
    }
    r
}


/// The entries are present, have one key per axis, and each is new and (in a
/// multi-axis literal) a tuple of the key space.
pub open spec fn entries_valid(axes: Seq<Seq<Symbol>>, entries: Seq<Seq<Symbol>>) -> bool {
    &&& entries.len() > 0
    &&& arity_ok(entries, axes.len())
    &&& forall|i: int| 0 <= i < entries.len() ==> entry_ok(axes, entries, i)
}

/// The entries list every key tuple of the axes exactly once.
pub open spec fn entries_cover(axes: Seq<Seq<Symbol>>, entries: Seq<Seq<Symbol>>) -> bool {
    &&& entries_valid(axes, entries)
    &&& axes.len() == 1 ==> extra_keys(axes, entries).len() == 0 && missing_keys(axes, entries).len() == 0
    &&& axes.len() != 1 ==> first_missing(axes, entries) is None
}

/// Value-level view of a map key error.
pub enum MapKeyErrorV {
    Empty,
    InconsistentArity { entry: usize },
    DuplicateEntry { entry: usize },
    UnknownVariant { entry: usize, axis: usize },
    ExtraVariants { variants: Seq<Symbol> },
    MissingVariants { variants: Seq<Symbol> },
    MissingEntries { count: usize, first: Seq<Symbol> },
}

impl View for MapKeyError {
    type V = MapKeyErrorV;

    open spec fn view(&self) -> MapKeyErrorV {
        match self {
            MapKeyError::Empty => MapKeyErrorV::Empty,
            MapKeyError::InconsistentArity { entry } => MapKeyErrorV::InconsistentArity { entry: *entry },
            MapKeyError::DuplicateEntry { entry } => MapKeyErrorV::DuplicateEntry { entry: *entry },
            MapKeyError::UnknownVariant { entry, axis } => MapKeyErrorV::UnknownVariant { entry: *entry, axis: *axis },
            MapKeyError::ExtraVariants { variants } => MapKeyErrorV::ExtraVariants { variants: variants@ },
            MapKeyError::MissingVariants { variants } => MapKeyErrorV::MissingVariants { variants: variants@ },
            MapKeyError::MissingEntries { count, first } => MapKeyErrorV::MissingEntries { count: *count, first: first@ },
        }
    }
}

/// The outcome of a key check, viewed.
pub open spec fn keys_result_v(r: Result<(), MapKeyError>) -> Result<(), MapKeyErrorV> {
    match r {
        Ok(()) => Ok(()),
        Err(e) => Err(e@),
    }
}

/// The first entry, from position `i` on, without exactly `n` keys.
pub open spec fn first_bad_arity(entries: Seq<Seq<Symbol>>, n: nat, i: int) -> Option<int>
    decreases entries.len() - i,
{
    if i < 0 || i >= entries.len() {
        None
    } else if entries[i].len() != n {
        Some(i)
    } else {
        first_bad_arity(entries, n, i + 1)
    }
}

/// The first entry, from position `i` on, that repeats an earlier entry or
/// (with several axes) names a key outside its axis.
pub open spec fn first_bad_entry(axes: Seq<Seq<Symbol>>, entries: Seq<Seq<Symbol>>, i: int) -> Option<int>
    decreases entries.len() - i,
{
    if i < 0 || i >= entries.len() {
        None
    } else if !entry_ok(axes, entries, i) {
        Some(i)
    } else {
        first_bad_entry(axes, entries, i + 1)
    }
}

/// The first axis, from position `a` on, whose variants do not hold key `a`
/// of `t`.
pub open spec fn first_foreign_axis(axes: Seq<Seq<Symbol>>, t: Seq<Symbol>, a: int) -> Option<int>
    decreases axes.len() - a,
{
    if a < 0 || a >= axes.len() {
        None
    } else if !axes[a].contains(t[a]) {
        Some(a)
    } else {
        first_foreign_axis(axes, t, a + 1)
    }
}

/// What checking the keys of a map literal against its axes gives: entries
/// present, then one key per axis, then each entry new and (with several
/// axes) a tuple of the axes' variants, then (with one axis) no foreign key
/// and no left-out variant, or (otherwise) no left-out key tuple.
pub open spec fn map_keys_v(axes: Seq<Seq<Symbol>>, entries: Seq<Seq<Symbol>>) -> Result<(), MapKeyErrorV> {
    if entries.len() == 0 {
        Err(MapKeyErrorV::Empty)
    } else {
        match first_bad_arity(entries, axes.len(), 0) {
            Some(i) => Err(MapKeyErrorV::InconsistentArity { entry: i as usize }),
            None => match first_bad_entry(axes, entries, 0) {
                Some(i) => if entry_repeats(entries, i) {
                    Err(MapKeyErrorV::DuplicateEntry { entry: i as usize })
                } else {
                    Err(
                        MapKeyErrorV::UnknownVariant {
                            entry: i as usize,
                            axis: first_foreign_axis(axes, entries[i], 0).unwrap() as usize,
                        },
                    )
                },
                None => if axes.len() == 1 {
                    if extra_keys(axes, entries).len() > 0 {
                        Err(MapKeyErrorV::ExtraVariants { variants: extra_keys(axes, entries) })
                    } else if missing_keys(axes, entries).len() > 0 {
                        Err(MapKeyErrorV::MissingVariants { variants: missing_keys(axes, entries) })
                    } else {
                        Ok(())
                    }
                } else {
                    match first_missing(axes, entries) {
                        Some(t) => Err(
                            MapKeyErrorV::MissingEntries { count: missing_count(axes, entries) as usize, first: t },
                        ),
                        None => Ok(()),
                    }
                },
            },
        }
    }
}

proof fn lemma_first_bad_arity(entries: Seq<Seq<Symbol>>, n: nat, i: int, k: int)
    requires
        0 <= i <= k,
        forall|j: int| i <= j < k ==> #[trigger] entries[j].len() == n,
    ensures
        first_bad_arity(entries, n, i) == first_bad_arity(entries, n, k) || k > entries.len(),
    decreases k - i,
{
    if i < k && i < entries.len() {
        lemma_first_bad_arity(entries, n, i + 1, k);
    }
}

proof fn lemma_first_bad_entry(axes: Seq<Seq<Symbol>>, entries: Seq<Seq<Symbol>>, i: int, k: int)
    requires
        0 <= i <= k,
        forall|j: int| i <= j < k ==> entry_ok(axes, entries, j),
    ensures
        first_bad_entry(axes, entries, i) == first_bad_entry(axes, entries, k) || k > entries.len(),
    decreases k - i,
{
    if i < k && i < entries.len() {
        lemma_first_bad_entry(axes, entries, i + 1, k);
    }
}

proof fn lemma_first_foreign_axis(axes: Seq<Seq<Symbol>>, t: Seq<Symbol>, a: int, k: int)
    requires
        0 <= a <= k,
        forall|m: int| a <= m < k ==> axes[m].contains(t[m]),
    ensures
        first_foreign_axis(axes, t, a) == first_foreign_axis(axes, t, k) || k > axes.len(),
    decreases k - a,
{
    if a < k && a < axes.len() {
        lemma_first_foreign_axis(axes, t, a + 1, k);
    }
}

/// Check that the entries of a map literal, given by their variant keys, list
/// every key tuple of the literal's axes exactly once. `axes` holds the
/// variants of each key axis in declaration order.
pub fn check_map_literal_keys(axes: &Vec<Vec<Symbol>>, entries: &Vec<Vec<Symbol>>) -> (r: Result<(), MapKeyError>)
    requires
        key_space(axes_view(axes@)) <= usize::MAX,
    ensures
        keys_result_v(r) == map_keys_v(axes_view(axes@), axes_view(entries@)),
{
    let r = check_keys_in_order(axes, entries);
    let ghost av = axes_view(axes@);
    let ghost ev = axes_view(entries@);
    proof {
        let n = av.len();
        match r {
            Err(MapKeyError::InconsistentArity { entry }) => {
                lemma_first_bad_arity(ev, n, 0, entry as int);
            },
            Err(MapKeyError::DuplicateEntry { entry }) => {
                lemma_first_bad_arity(ev, n, 0, ev.len() as int);
                lemma_first_bad_entry(av, ev, 0, entry as int);
            },
            Err(MapKeyError::UnknownVariant { entry, axis }) => {
                lemma_first_bad_arity(ev, n, 0, ev.len() as int);
                lemma_first_bad_entry(av, ev, 0, entry as int);
                lemma_first_foreign_axis(av, ev[entry as int], 0, axis as int);
            },
            Err(MapKeyError::Empty) => {},
            _ => {
                if ev.len() > 0 {
                    lemma_first_bad_arity(ev, n, 0, ev.len() as int);
                    if arity_ok(ev, n) {
                        lemma_first_bad_entry(av, ev, 0, ev.len() as int);
                    }
                }
            },
        }
    }
    r
}

/// The key checks in their order: entries present, one key per axis, no
/// repeated entry and (with several axes) only variants of each axis, then
/// (with one axis) no foreign key and no left-out variant, or (otherwise) no
/// left-out key tuple.
#[verifier::loop_isolation(false)]
fn check_keys_in_order(axes: &Vec<Vec<Symbol>>, entries: &Vec<Vec<Symbol>>) -> (r: Result<
    (),
    MapKeyError,
>)
    requires
        key_space(axes_view(axes@)) <= usize::MAX,
    ensures
        entries@.len() == 0 <==> r matches Err(MapKeyError::Empty),
        r matches Err(MapKeyError::InconsistentArity { entry }) ==> entry < entries@.len()
            && axes_view(entries@)[entry as int].len() != axes@.len() && forall|j: int|
            0 <= j < entry ==> #[trigger] axes_view(entries@)[j].len() == axes@.len(),
        entries@.len() > 0 && !arity_ok(axes_view(entries@), axes@.len()) ==> r matches Err(
            MapKeyError::InconsistentArity { .. },
        ),
        r matches Err(MapKeyError::DuplicateEntry { entry }) ==> arity_ok(
            axes_view(entries@),
            axes@.len(),
        ) && entry < entries@.len() && entry_repeats(axes_view(entries@), entry as int) && forall|j: int|
            0 <= j < entry ==> entry_ok(axes_view(axes@), axes_view(entries@), j),
        r matches Err(MapKeyError::UnknownVariant { entry, axis }) ==> arity_ok(
            axes_view(entries@),
            axes@.len(),
        ) && entry < entries@.len() && !entry_repeats(axes_view(entries@), entry as int) && axes@.len()
            > 1 && axis < axes@.len() && !axes_view(axes@)[axis as int].contains(
            axes_view(entries@)[entry as int][axis as int],
        ) && (forall|m: int|
            0 <= m < axis ==> axes_view(axes@)[m].contains(axes_view(entries@)[entry as int][m]))
            && forall|j: int| 0 <= j < entry ==> entry_ok(axes_view(axes@), axes_view(entries@), j),
        entries@.len() > 0 && arity_ok(axes_view(entries@), axes@.len()) && !entries_valid(
            axes_view(axes@),
            axes_view(entries@),
        ) ==> (r matches Err(MapKeyError::DuplicateEntry { .. }) || r matches Err(
            MapKeyError::UnknownVariant { .. },
        )),
        r matches Err(MapKeyError::ExtraVariants { variants }) ==> axes@.len() == 1 && entries_valid(
            axes_view(axes@),
            axes_view(entries@),
        ) && variants@ == extra_keys(axes_view(axes@), axes_view(entries@)) && variants@.len() > 0,
        r matches Err(MapKeyError::MissingVariants { variants }) ==> axes@.len() == 1 && entries_valid(
            axes_view(axes@),
            axes_view(entries@),
        ) && extra_keys(axes_view(axes@), axes_view(entries@)).len() == 0 && variants@ == missing_keys(
            axes_view(axes@),
            axes_view(entries@),
        ) && variants@.len() > 0,
        r matches Err(MapKeyError::MissingEntries { count, first }) ==> axes@.len() != 1
            && entries_valid(axes_view(axes@), axes_view(entries@)) && first_missing(
            axes_view(axes@),
            axes_view(entries@),
        ) == Some(first@) && count == missing_count(axes_view(axes@), axes_view(entries@)),
        r is Ok <==> entries_cover(axes_view(axes@), axes_view(entries@)),
{
    let ghost av = axes_view(axes@);
    let ghost ev = axes_view(entries@);
    let n = axes.len();
    if entries.len() == 0 {
        return Err(MapKeyError::Empty);
    }
    let mut i: usize = 0;
    while i < entries.len()
        invariant
            ev == axes_view(entries@),
            n == axes@.len(),
            i <= entries@.len(),
            forall|j: int| 0 <= j < i ==> #[trigger] ev[j].len() == n,
        decreases entries@.len() - i,
    {
        proof {
            assert(ev[i as int] == entries@[i as int]@);
        }
        if entries[i].len() != n {
            return Err(MapKeyError::InconsistentArity { entry: i });
        }
        i += 1;
    }
    assert(arity_ok(ev, n as nat));
    let mut i: usize = 0;
    while i < entries.len()
        invariant
            av == axes_view(axes@),
            ev == axes_view(entries@),
            n == axes@.len(),
            arity_ok(ev, n as nat),
            i <= entries@.len(),
            forall|j: int| 0 <= j < i ==> entry_ok(av, ev, j),
        decreases entries@.len() - i,
    {
        let entry = &entries[i];
        proof {
            assert(ev[i as int] == entry@);
        }
        let mut j: usize = 0;
        while j < i
            invariant
                ev == axes_view(entries@),
                i < entries@.len(),
                ev[i as int] == entry@,
                j <= i,
                forall|k: int| 0 <= k < j ==> ev[k] != ev[i as int],
            decreases i - j,
        {
            proof {
                assert(ev[j as int] == entries@[j as int]@);
            }
            if same_symbols(&entries[j], entry) {
                assert(entry_repeats(ev, i as int));
                assert(!entry_ok(av, ev, i as int));
                assert(!entries_valid(av, ev));
                return Err(MapKeyError::DuplicateEntry { entry: i });
            }
            j += 1;
        }
        assert(!entry_repeats(ev, i as int));
        if n > 1 {
            let mut k: usize = 0;
            while k < n
                invariant
                    av == axes_view(axes@),
                    ev == axes_view(entries@),
                    n == axes@.len(),
                    i < entries@.len(),
                    ev[i as int] == entry@,
                    entry@.len() == n,
                    k <= n,
                    forall|m: int| 0 <= m < k ==> (#[trigger] av[m]).contains(ev[i as int][m]),
                decreases n - k,
            {
                proof {
                    assert(av[k as int] == axes@[k as int]@);
                }
                if !contains_symbol(&axes[k], entry[k]) {
                    assert(!picks(av, ev[i as int], n as int));
                    assert(!entry_ok(av, ev, i as int));
                    assert(!entries_valid(av, ev));
                    return Err(MapKeyError::UnknownVariant { entry: i, axis: k });
                }
                k += 1;
            }
            assert(picks(av, ev[i as int], n as int));
        }
        assert(entry_ok(av, ev, i as int));
        i += 1;
    }
    assert(entries_valid(av, ev));
    if n == 1 {
        let extra = extra_keys_of(axes, entries);
        if extra.len() > 0 {
            return Err(MapKeyError::ExtraVariants { variants: extra });
        }
        let missing = missing_keys_of(axes, entries);
        if missing.len() > 0 {
            return Err(MapKeyError::MissingVariants { variants: missing });
        }
        return Ok(());
    }
    let start: Vec<Symbol> = Vec::new();
    assert(start@ =~= Seq::<Symbol>::empty());
    match find_missing(axes, entries, start) {
        None => Ok(()),
        Some(first) => {
            proof {
                lemma_first_missing(av, ev);
                assert forall|k: int| 0 <= k < av.len() implies #[trigger] av[k].len() >= 1 by {
                    assert(av[k].contains(first@[k]));
                }
            }
            let mut p: usize = 1;
            let mut k: usize = 0;
            while k < n
                invariant
                    av == axes_view(axes@),
                    n == axes@.len(),
                    k <= n,
                    key_space(av) <= usize::MAX,
                    forall|m: int| 0 <= m < av.len() ==> #[trigger] av[m].len() >= 1,
                    p == key_space(av.subrange(0, k as int)),
                decreases n - k,
            {
                proof {
                    lemma_key_space_prefix(av, k + 1);
                    assert(av.subrange(0, k as int + 1).drop_last() =~= av.subrange(0, k as int));
                    assert(av[k as int] == axes@[k as int]@);
                }
                p = p * axes[k].len();
                k += 1;
            }
            proof {
                assert(av.subrange(0, n as int) =~= av);
            }
            let count = if p >= entries.len() {
                p - entries.len()
            } else {
                0
            };
            Err(MapKeyError::MissingEntries { count, first })
        },
    }
}


proof fn lemma_filter_empty<A>(s: Seq<A>, pred: spec_fn(A) -> bool)
    ensures
        s.filter(pred).len() == 0 <==> forall|i: int| 0 <= i < s.len() ==> !pred(#[trigger] s[i]),
{
    if forall|i: int| 0 <= i < s.len() ==> !pred(#[trigger] s[i]) {
        assert(s.all(|x: A| !pred(x))) by {
            assert forall|i: int| 0 <= i < s.len() implies (|x: A| !pred(x))(s[i]) by {}
        }
        s.lemma_all_neg_filter_empty(pred);
    } else {
        let i = choose|i: int| 0 <= i < s.len() && pred(#[trigger] s[i]);
        s.lemma_filter_contains(pred, i);
    }
}

/// A map literal's keys are accepted exactly when its entries are distinct
/// tuples of the key space that together list every tuple of it.
pub proof fn law_map_literal_accepts_exact_covers(axes: Seq<Seq<Symbol>>, entries: Seq<Seq<Symbol>>)
    requires
        entries.len() > 0,
        arity_ok(entries, axes.len()),
    ensures
        entries_cover(axes, entries) <==> (forall|i: int|
            0 <= i < entries.len() ==> !entry_repeats(entries, i) && picks(
                axes,
                entries[i],
                axes.len() as int,
            )) && (forall|t: Seq<Symbol>| picks(axes, t, axes.len() as int) ==> entries.contains(t)),
{
    let n = axes.len() as int;
    lemma_first_missing(axes, entries);
    let distinct_members = forall|i: int|
        0 <= i < entries.len() ==> !entry_repeats(entries, i) && picks(axes, entries[i], n);
    let covered = forall|t: Seq<Symbol>| picks(axes, t, n) ==> entries.contains(t);
    if n != 1 {
        if n == 0 {
            assert forall|i: int| 0 <= i < entries.len() implies picks(axes, entries[i], n) by {
                assert(entries[i].len() == 0);
            }
        }
        if entries_valid(axes, entries) {
            assert forall|i: int| 0 <= i < entries.len() implies !entry_repeats(entries, i) && picks(
                axes,
                entries[i],
                n,
            ) by {
                assert(entry_ok(axes, entries, i));
                if n == 0 {
                    assert(entries[i].len() == 0);
                }
            }
        }
        if distinct_members {
            assert forall|i: int| 0 <= i < entries.len() implies entry_ok(axes, entries, i) by {}
        }
    } else {
        let axis = axes[0];
        lemma_filter_empty(entries, key_outside(axis));
        lemma_filter_empty(axis, variant_unlisted(entries));
        assert(extra_keys(axes, entries).len() == entries.filter(key_outside(axis)).len());
        assert(missing_keys(axes, entries).len() == axis.filter(variant_unlisted(entries)).len());
        assert forall|i: int| 0 <= i < entries.len() implies (picks(axes, entries[i], n)
            <==> !key_outside(axis)(#[trigger] entries[i])) by {
            assert(entries[i].len() == 1);
        }
        if covered {
            assert forall|j: int| 0 <= j < axis.len() implies !variant_unlisted(entries)(#[trigger] axis[j]) by {
                assert(picks(axes, seq![axis[j]], n));
            }
        }
        if forall|j: int| 0 <= j < axis.len() ==> !variant_unlisted(entries)(#[trigger] axis[j]) {
            assert forall|t: Seq<Symbol>| picks(axes, t, n) implies entries.contains(t) by {
                assert(axes[0].contains(t[0]));
                let j = choose|j: int| 0 <= j < axis.len() && axis[j] == t[0];
                assert(!variant_unlisted(entries)(axis[j]));
                assert(t =~= seq![axis[j]]);
            }
        }
        if entries_cover(axes, entries) {
            assert forall|i: int| 0 <= i < entries.len() implies !entry_repeats(entries, i) && picks(
                axes,
                entries[i],
                n,
            ) by {
                assert(entry_ok(axes, entries, i));
                assert(!key_outside(axis)(entries[i]));
            }
        }
        if forall|i: int|
            0 <= i < entries.len() ==> !entry_repeats(entries, i) && #[trigger] picks(axes, entries[i], n) {
            assert forall|i: int| 0 <= i < entries.len() implies entry_ok(axes, entries, i) by {
                assert(picks(axes, entries[i], n));
            }
            assert forall|i: int| 0 <= i < entries.len() implies !key_outside(axis)(#[trigger] entries[i]) by {
                assert(picks(axes, entries[i], n));
            }
        }
    }
}


/// `element` indexed by `axes[k..]`, the axis at `k` outermost.
pub open spec fn indexed_from(element: TypeV, axes: Seq<IndexRefV>, k: int) -> TypeV
    decreases axes.len() - k,
{
    if k < 0 || k >= axes.len() {
        element
    } else {
        TypeV::Indexed(Box::new(indexed_from(element, axes, k + 1)), axes[k])
    }
}

/// `element` indexed by every axis, the first axis outermost.
pub open spec fn indexed_over_v(element: TypeV, axes: Seq<IndexRefV>) -> TypeV {
    indexed_from(element, axes, 0)
}

/// The type of a collection of `element` values indexed by `axes`, the first
/// axis outermost.
pub fn indexed_over(element: InferredType, axes: Vec<InferredIndex>) -> (r: InferredType)
    ensures
        r@ == indexed_over_v(element@, axes@.map_values(|i: InferredIndex| i@)),
{
    let ghost av = axes@.map_values(|i: InferredIndex| i@);
    let mut axes = axes;
    let mut result = element;
    let ghost e = result@;
    while axes.len() > 0
        invariant
            axes@.len() <= av.len(),
            forall|j: int| 0 <= j < axes@.len() ==> #[trigger] axes@[j]@ == av[j],
            result@ == indexed_from(e, av, axes@.len() as int),
        decreases axes@.len(),
    {
        let index = axes.pop().unwrap();
        result = InferredType::Indexed { element: Box::new(result), index };
    }
    result
}

/// Why the entries of a map literal have no common element type.
#[derive(Clone, Copy, Debug, PartialEq, Eq, Structural)]
pub enum MapLiteralTypeError {
    Empty,
    /// The entry at this position has another type than the first entry.
    EntryTypeMismatch { entry: usize, span: Span },
}

/// The type of a map literal: every entry value has the first entry's type,
/// and the literal is that type indexed by the key axes.
pub fn map_literal_type(axes: Vec<InferredIndex>, values: &Vec<Operand>) -> (r: Result<
    InferredType,
    MapLiteralTypeError,
>)
    ensures
        values@.len() == 0 <==> r == Err::<InferredType, MapLiteralTypeError>(MapLiteralTypeError::Empty),
        r matches Ok(t) ==> values@.len() > 0 && (forall|k: int|
            0 <= k < values@.len() ==> #[trigger] values@[k].ty@ == values@[0].ty@) && t@ == indexed_over_v(
            values@[0].ty@,
            axes@.map_values(|i: InferredIndex| i@),
        ),
        r matches Err(MapLiteralTypeError::EntryTypeMismatch { entry, span }) ==> 0 < entry
            < values@.len() && values@[entry as int].ty@ != values@[0].ty@ && span == values@[entry as int].span
            && forall|k: int| 0 <= k < entry ==> #[trigger] values@[k].ty@ == values@[0].ty@,
        values@.len() > 0 && (forall|k: int|
            0 <= k < values@.len() ==> #[trigger] values@[k].ty@ == values@[0].ty@) ==> r is Ok,
{
    if values.len() == 0 {
        return Err(MapLiteralTypeError::Empty);
    }
    let first = &values[0].ty;
    let mut k: usize = 1;
    while k < values.len()
        invariant
            values@.len() > 0,
            *first == values@[0].ty,
            1 <= k <= values@.len(),
            forall|j: int| 0 <= j < k ==> #[trigger] values@[j].ty@ == values@[0].ty@,
        decreases values@.len() - k,
    {
        if !type_equal(&values[k].ty, first) {
            return Err(MapLiteralTypeError::EntryTypeMismatch { entry: k, span: values[k].span });
        }
        k += 1;
    }
    Ok(indexed_over(first.clone(), axes))
}

/// The number of key tuples of the axes, where it fits a `usize`.
pub fn checked_key_space(axes: &Vec<Vec<Symbol>>) -> (r: Option<usize>)
    ensures
        r matches Some(n) ==> n == key_space(axes_view(axes@)),
        r is None <==> key_space(axes_view(axes@)) > usize::MAX,
{
    let ghost av = axes_view(axes@);
    let mut a: usize = 0;
    while a < axes.len()
        invariant
            av == axes_view(axes@),
            a <= axes@.len(),
            forall|k: int| 0 <= k < a ==> #[trigger] av[k].len() >= 1,
        decreases axes@.len() - a,
    {
        if axes[a].len() == 0 {
            proof {
                lemma_key_space_zero(av, a as int);
            }
            return Some(0);
        }
        a += 1;
    }
    let mut p: usize = 1;
    let mut k: usize = 0;
    while k < axes.len()
        invariant
            av == axes_view(axes@),
            k <= axes@.len(),
            forall|j: int| 0 <= j < av.len() ==> #[trigger] av[j].len() >= 1,
            p == key_space(av.subrange(0, k as int)),
        decreases axes@.len() - k,
    {
        proof {
            assert(av.subrange(0, k as int + 1).drop_last() =~= av.subrange(0, k as int));
            assert(av[k as int] == axes@[k as int]@);
        }
        match p.checked_mul(axes[k].len()) {
            Some(q) => {
                p = q;
            },
            None => {
                proof {
                    lemma_key_space_prefix(av, k + 1);
                }
                return None;
            },
        }
        k += 1;
    }
    proof {
        assert(av.subrange(0, av.len() as int) =~= av);
    }
    Some(p)
}

proof fn lemma_key_space_zero(axes: Seq<Seq<Symbol>>, a: int)
    requires
        0 <= a < axes.len(),
        axes[a].len() == 0,
    ensures
        key_space(axes) == 0,
    decreases axes.len(),
{
    let rest = key_space(axes.drop_last());
    let last = axes.last().len();
    if a < axes.len() - 1 {
        lemma_key_space_zero(axes.drop_last(), a);
        assert(rest * last == 0) by (nonlinear_arith)
            requires
                rest == 0,
        ;
    } else {
        assert(rest * last == 0) by (nonlinear_arith)
            requires
                last == 0,
        ;
    }
}

} // verus!
