//! Cycles in the cross-DAG inline-call graph.
//!
//! A DAG that transitively inline-calls itself, directly or through a chain
//! `A -> B -> ... -> A`, would recurse without bound at evaluation time. Such
//! programs are rejected at compile time, naming one DAG on the cycle, chosen
//! deterministically by the depth-first entry order.

use crate::cycles::{has_topo_order, is_path, is_topo_order, lemma_cycle_no_topo_order, on_cycle, path_step};
use crate::index::DagId;
use crate::rules::Span;
use vstd::prelude::*;

verus! {

/// One DAG with the DAGs its body calls inline.
#[derive(Debug)]
pub struct DagCalls {
    pub dag: DagId,
    pub targets: Vec<DagId>,
    /// Where the DAG is declared, for diagnostics.
    pub span: Span,
}

/// A DAG that takes part in an inline-call cycle.
#[derive(Clone, Copy, Debug, PartialEq, Eq, Structural)]
pub struct CyclicDagCall {
    pub dag: DagId,
    pub span: Span,
}

/// The call edges between the listed DAGs, by position; calls of DAGs that
/// are not listed are ignored.
pub open spec fn call_edges(dags: Seq<DagCalls>) -> Set<(int, int)> {
    Set::new(
        |e: (int, int)|
            0 <= e.0 < dags.len() && 0 <= e.1 < dags.len() && dags[e.0].targets@.contains(
                dags[e.1].dag,
            ),
    )
}

/// Every DAG is listed once.
pub open spec fn distinct_dags(dags: Seq<DagCalls>) -> bool {
    forall|i: int, j: int| 0 <= i < j < dags.len() ==> dags[i].dag != dags[j].dag
}

#[derive(Clone, Copy, Debug, PartialEq, Eq, Structural)]
enum Frame {
    Enter(usize),
    Leave(usize),
}

fn find_dag(dags: &Vec<DagCalls>, d: DagId) -> (r: Option<usize>)
    ensures
        r matches Some(j) ==> j < dags@.len() && dags@[j as int].dag == d,
        r is None ==> forall|j: int| 0 <= j < dags@.len() ==> dags@[j].dag != d,
{
    let mut j: usize = 0;
    while j < dags.len()
        invariant
            j <= dags@.len(),
            forall|k: int| 0 <= k < j ==> dags@[k].dag != d,
        decreases dags@.len() - j,
    {
        if dags[j].dag == d {
            return Some(j);
        }
        j += 1;
    }
    None
}

proof fn lemma_disjoint_len(a: Seq<int>, b: Seq<int>, n: int)
    requires
        0 <= n,
        a.no_duplicates(),
        b.no_duplicates(),
        forall|k: int| 0 <= k < a.len() ==> 0 <= #[trigger] a[k] < n,
        forall|k: int| 0 <= k < b.len() ==> 0 <= #[trigger] b[k] < n,
        forall|i: int, j: int| 0 <= i < a.len() && 0 <= j < b.len() ==> a[i] != b[j],
    ensures
        a.len() + b.len() <= n,
{
    vstd::seq_lib::lemma_no_dup_in_concat(a, b);
    let c = a + b;
    c.unique_seq_to_set();
    vstd::set_lib::lemma_int_range(0, n);
    assert forall|x: int| #[trigger] c.to_set().contains(x) implies vstd::set_lib::set_int_range(0, n).contains(x) by {
        let k = choose|k: int| 0 <= k < c.len() && c[k] == x;
        if k < a.len() {
            assert(a[k] == x);
        } else {
            assert(b[k - a.len()] == x);
        }
    }
    vstd::set_lib::lemma_len_subset(c.to_set(), vstd::set_lib::set_int_range(0, n));
}

spec fn frame_target(f: Frame) -> int {
    match f {
        Frame::Enter(t) => t as int,
        Frame::Leave(t) => t as int,
    }
}

/// A frame for `t` lies strictly above position `lo`.
spec fn pending_at(work: Seq<Frame>, lo: int, t: int) -> bool {
    exists|q: int| lo < q < work.len() && frame_target(#[trigger] work[q]) == t
}

/// The visited and on-stack flags mirror the finished list and the path.
#[verifier::opaque]
spec fn flags_ok(
    n: int,
    visited: Seq<bool>,
    on_stack: Seq<bool>,
    finished: Seq<int>,
    path: Seq<int>,
) -> bool {
    &&& visited.len() == n
    &&& on_stack.len() == n
    &&& finished.no_duplicates()
    &&& path.no_duplicates()
    &&& forall|k: int| 0 <= k < finished.len() ==> 0 <= #[trigger] finished[k] < n
    &&& forall|k: int| 0 <= k < path.len() ==> 0 <= #[trigger] path[k] < n
    &&& forall|i: int| 0 <= i < n ==> (#[trigger] visited[i] <==> finished.contains(i))
    &&& forall|i: int| 0 <= i < n ==> (#[trigger] on_stack[i] <==> path.contains(i))
    &&& forall|i: int| 0 <= i < n ==> !(#[trigger] visited[i] && on_stack[i])
}

/// Consecutive DAGs of the path are joined by calls.
#[verifier::opaque]
spec fn path_ok(e: Set<(int, int)>, path: Seq<int>) -> bool {
    forall|k: int| 0 <= k < path.len() - 1 ==> #[trigger] path_step(e, path, k)
}

/// The `Leave` frames are exactly those of the path, bottom to top.
#[verifier::opaque]
spec fn leaves_ok(n: int, work: Seq<Frame>, path: Seq<int>, lp: Seq<int>) -> bool {
    &&& lp.len() == path.len()
    &&& forall|k: int| 0 <= k < lp.len() ==> 0 <= #[trigger] lp[k] < work.len()
    &&& forall|k: int| 0 <= k < lp.len() ==> work[#[trigger] lp[k]] == Frame::Leave(path[k] as usize)
    &&& forall|a: int, b: int| 0 <= a < b < lp.len() ==> #[trigger] lp[a] < #[trigger] lp[b]
    &&& forall|q: int|
        0 <= q < work.len() && (#[trigger] work[q]) is Leave ==> exists|k: int|
            0 <= k < lp.len() && lp[k] == q
    &&& forall|q: int| 0 <= q < work.len() ==> 0 <= frame_target(#[trigger] work[q]) < n
}

spec fn seg_end(work: Seq<Frame>, lp: Seq<int>, k: int) -> int {
    if k + 1 < lp.len() {
        lp[k + 1]
    } else {
        work.len() as int
    }
}

/// Every `Enter` frame above a path DAG's `Leave` frame, up to the next
/// `Leave` frame, is a callee of that DAG.
#[verifier::opaque]
spec fn segments_ok(e: Set<(int, int)>, work: Seq<Frame>, path: Seq<int>, lp: Seq<int>) -> bool {
    forall|k: int, q: int|
        0 <= k < path.len() && lp[k] < q < seg_end(work, lp, k) && (#[trigger] work[q]) is Enter
            ==> e.contains((#[trigger] path[k], frame_target(work[q])))
}

/// Every callee of a finished DAG finished before it.
#[verifier::opaque]
spec fn finished_ok(e: Set<(int, int)>, finished: Seq<int>) -> bool {
    forall|k: int, t: int|
        0 <= k < finished.len() && #[trigger] e.contains((finished[k], t)) ==> exists|j: int|
            0 <= j < k && finished[j] == t
}

/// Every callee of a path DAG has finished or has a frame above its `Leave` frame.
#[verifier::opaque]
spec fn pending_ok(e: Set<(int, int)>, work: Seq<Frame>, finished: Seq<int>, path: Seq<int>, lp: Seq<int>) -> bool {
    forall|k: int, t: int|
        0 <= k < path.len() && #[trigger] e.contains((path[k], t)) ==> finished.contains(t)
            || pending_at(work, lp[k], t)
}

spec fn dfs_inv(
    dags: Seq<DagCalls>,
    visited: Seq<bool>,
    on_stack: Seq<bool>,
    work: Seq<Frame>,
    finished: Seq<int>,
    path: Seq<int>,
    lp: Seq<int>,
) -> bool {
    let n = dags.len() as int;
    let e = call_edges(dags);
    &&& flags_ok(n, visited, on_stack, finished, path)
    &&& path_ok(e, path)
    &&& leaves_ok(n, work, path, lp)
    &&& segments_ok(e, work, path, lp)
    &&& finished_ok(e, finished)
    &&& pending_ok(e, work, finished, path, lp)
    &&& finished.len() + path.len() <= n
    &&& n <= usize::MAX
}

proof fn lemma_init(dags: Seq<DagCalls>, visited: Seq<bool>, on_stack: Seq<bool>)
    requires
        dags.len() <= usize::MAX,
        visited.len() == dags.len(),
        on_stack.len() == dags.len(),
        forall|i: int| 0 <= i < dags.len() ==> !(#[trigger] visited[i]),
        forall|i: int| 0 <= i < dags.len() ==> !(#[trigger] on_stack[i]),
    ensures
        dfs_inv(dags, visited, on_stack, Seq::empty(), Seq::empty(), Seq::empty(), Seq::empty()),
{
    reveal(flags_ok);
    reveal(path_ok);
    reveal(leaves_ok);
    reveal(segments_ok);
    reveal(finished_ok);
    reveal(pending_ok);
}

proof fn lemma_start(
    dags: Seq<DagCalls>,
    visited: Seq<bool>,
    on_stack: Seq<bool>,
    finished: Seq<int>,
    start: usize,
)
    requires
        dfs_inv(dags, visited, on_stack, Seq::empty(), finished, Seq::empty(), Seq::empty()),
        start < dags.len(),
    ensures
        dfs_inv(dags, visited, on_stack, seq![Frame::Enter(start)], finished, Seq::empty(), Seq::empty()),
        pending_at(seq![Frame::Enter(start)], -1, start as int),
{
    reveal(leaves_ok);
    reveal(segments_ok);
    reveal(pending_ok);
    assert(frame_target(seq![Frame::Enter(start)][0]) == start as int);
}

proof fn lemma_flags(
    dags: Seq<DagCalls>,
    visited: Seq<bool>,
    on_stack: Seq<bool>,
    work: Seq<Frame>,
    finished: Seq<int>,
    path: Seq<int>,
    lp: Seq<int>,
)
    requires
        dfs_inv(dags, visited, on_stack, work, finished, path, lp),
    ensures
        visited.len() == dags.len(),
        on_stack.len() == dags.len(),
        forall|i: int| 0 <= i < dags.len() ==> (#[trigger] visited[i] <==> finished.contains(i)),
        forall|i: int| 0 <= i < dags.len() ==> (#[trigger] on_stack[i] <==> path.contains(i)),
        forall|q: int| 0 <= q < work.len() ==> 0 <= frame_target(#[trigger] work[q]) < dags.len(),
        work.len() == 0 ==> path.len() == 0,
        lp.len() == path.len(),
        !path.contains(-1),
{
    reveal(flags_ok);
    reveal(leaves_ok);
    if path.contains(-1) {
        let k = choose|k: int| 0 <= k < path.len() && path[k] == -1;
        assert(0 <= path[k]);
    }
    if work.len() == 0 && path.len() > 0 {
        assert(0 <= lp[0] < work.len());
    }
}

/// The `Enter` frame on top belongs to the innermost path DAG's callees.
proof fn lemma_top_enter(
    dags: Seq<DagCalls>,
    visited: Seq<bool>,
    on_stack: Seq<bool>,
    work: Seq<Frame>,
    finished: Seq<int>,
    path: Seq<int>,
    lp: Seq<int>,
)
    requires
        dfs_inv(dags, visited, on_stack, work, finished, path, lp),
        work.len() > 0,
        work.last() is Enter,
    ensures
        forall|k: int| 0 <= k < lp.len() ==> #[trigger] lp[k] < work.len() - 1,
        path.len() > 0 ==> call_edges(dags).contains((path.last(), frame_target(work.last()))),
{
    reveal(leaves_ok);
    reveal(segments_ok);
    let top = work.len() - 1;
    assert forall|k: int| 0 <= k < lp.len() implies #[trigger] lp[k] < work.len() - 1 by {
        assert(work[lp[k]] is Leave);
    }
    if path.len() > 0 {
        let k = path.len() - 1;
        assert(lp[k] < top);
        assert(work[top] is Enter);
        assert(lp[k] < top < seg_end(work, lp, k));
    }
}

/// A `Leave` frame on top belongs to the innermost path DAG.
proof fn lemma_top_leave(
    dags: Seq<DagCalls>,
    visited: Seq<bool>,
    on_stack: Seq<bool>,
    work: Seq<Frame>,
    finished: Seq<int>,
    path: Seq<int>,
    lp: Seq<int>,
)
    requires
        dfs_inv(dags, visited, on_stack, work, finished, path, lp),
        work.len() > 0,
        work.last() is Leave,
    ensures
        path.len() > 0,
        path.last() == frame_target(work.last()),
        lp.last() == work.len() - 1,
{
    reveal(leaves_ok);
    reveal(flags_ok);
    let top = work.len() - 1;
    assert(work[top] is Leave);
    let k = choose|k: int| 0 <= k < lp.len() && lp[k] == top;
    if k < lp.len() - 1 {
        assert(lp[k] < lp[lp.len() - 1]);
        assert(lp[lp.len() - 1] < work.len());
    }
    assert(work[lp[k]] == Frame::Leave(path[k] as usize));
    assert(0 <= path[k] < dags.len());
}

/// Reaching a DAG that is on the path closes a cycle through it.
proof fn lemma_cycle(dags: Seq<DagCalls>, path: Seq<int>, key: int)
    requires
        path_ok(call_edges(dags), path),
        path.contains(key),
        call_edges(dags).contains((path.last(), key)),
    ensures
        on_cycle(call_edges(dags), key),
        !has_topo_order(dags.len(), call_edges(dags)),
{
    reveal(path_ok);
    let e = call_edges(dags);
    let k = path.len() - 1;
    let i = choose|i: int| 0 <= i < path.len() && path[i] == key;
    let p = path.subrange(i, path.len() as int).push(key);
    assert forall|s: int| 0 <= s < p.len() - 1 implies #[trigger] path_step(e, p, s) by {
        if s < p.len() - 2 {
            assert(path_step(e, path, i + s));
            assert(p[s] == path[i + s] && p[s + 1] == path[i + s + 1]);
        } else {
            assert(p[s] == path[k]);
            assert(p[s + 1] == key);
        }
    }
    assert(is_path(e, p) && p[0] == key && p.last() == key);
    assert(crate::cycles::edges_within(dags.len(), e));
    lemma_cycle_no_topo_order(dags.len(), e, key);
}

/// Popping an `Enter` frame of a finished DAG keeps the search state.
proof fn lemma_enter_skip(
    dags: Seq<DagCalls>,
    visited: Seq<bool>,
    on_stack: Seq<bool>,
    w_old: Seq<Frame>,
    finished: Seq<int>,
    path: Seq<int>,
    lp: Seq<int>,
    start: usize,
)
    requires
        dfs_inv(dags, visited, on_stack, w_old, finished, path, lp),
        w_old.len() > 0,
        w_old.last() is Enter,
        finished.contains(frame_target(w_old.last())),
        finished.contains(start as int) || pending_at(w_old, -1, start as int),
    ensures
        dfs_inv(dags, visited, on_stack, w_old.drop_last(), finished, path, lp),
        finished.contains(start as int) || pending_at(w_old.drop_last(), -1, start as int),
{
    lemma_top_enter(dags, visited, on_stack, w_old, finished, path, lp);
    let top = w_old.len() - 1;
    let w = w_old.subrange(0, top);
    assert(w_old.drop_last() =~= w);
    let e = call_edges(dags);
    assert forall|q: int| 0 <= q < top implies w[q] == w_old[q] by {}
    assert(leaves_ok(dags.len() as int, w, path, lp)) by {
        reveal(leaves_ok);
        assert forall|k: int| 0 <= k < lp.len() implies w[#[trigger] lp[k]] == Frame::Leave(path[k] as usize) by {
            assert(lp[k] < top);
        }
        assert forall|q: int| 0 <= q < w.len() && (#[trigger] w[q]) is Leave implies exists|k: int|
            0 <= k < lp.len() && lp[k] == q by {
            assert(w_old[q] == w[q]);
        }
        assert forall|q: int| 0 <= q < w.len() implies 0 <= frame_target(#[trigger] w[q]) < dags.len() by {
            assert(w_old[q] == w[q]);
        }
    }
    assert(segments_ok(e, w, path, lp)) by {
        reveal(segments_ok);
        assert forall|k: int, q: int|
            0 <= k < path.len() && lp[k] < q < seg_end(w, lp, k) && (#[trigger] w[q]) is Enter implies e.contains(
            (#[trigger] path[k], frame_target(w[q])),
        ) by {
            reveal(leaves_ok);
            if k + 1 < lp.len() {
                assert(lp[k + 1] < top);
            }
            assert(w_old[q] == w[q]);
            assert(lp[k] < q < seg_end(w_old, lp, k));
        }
    }
    assert(pending_ok(e, w, finished, path, lp)) by {
        reveal(pending_ok);
        reveal(leaves_ok);
        assert forall|k: int, t: int|
            0 <= k < path.len() && #[trigger] e.contains((path[k], t)) implies finished.contains(t)
                || pending_at(w, lp[k], t) by {
            if !finished.contains(t) {
                let q = choose|q: int| lp[k] < q < w_old.len() && frame_target(#[trigger] w_old[q]) == t;
                assert(q != top);
                assert(w[q] == w_old[q]);
            }
        }
    }
    if !finished.contains(start as int) {
        let q = choose|q: int| -1 < q < w_old.len() && frame_target(#[trigger] w_old[q]) == start as int;
        assert(q != top);
        assert(w[q] == w_old[q]);
    }
}


/// Entering a fresh DAG: its `Leave` frame replaces the popped `Enter` frame
/// and `Enter` frames for its callees follow it.
#[verifier::rlimit(40)]
proof fn lemma_enter_fresh(
    dags: Seq<DagCalls>,
    visited: Seq<bool>,
    on_stack: Seq<bool>,
    w_old: Seq<Frame>,
    w: Seq<Frame>,
    finished: Seq<int>,
    path: Seq<int>,
    lp: Seq<int>,
    key: int,
    start: usize,
)
    requires
        dfs_inv(dags, visited, on_stack.update(key, false), w_old, finished, path, lp),
        on_stack.len() == dags.len(),
        0 <= key < dags.len(),
        on_stack[key],
        !visited[key],
        !on_stack.update(key, false)[key],
        w_old.len() > 0,
        w_old.last() == Frame::Enter(key as usize),
        w.len() >= w_old.len(),
        forall|q: int| 0 <= q < w_old.len() - 1 ==> w[q] == w_old[q],
        w[w_old.len() - 1] == Frame::Leave(key as usize),
        forall|q: int|
            w_old.len() - 1 < q < w.len() ==> (#[trigger] w[q]) is Enter && call_edges(dags).contains(
                (key, frame_target(w[q])),
            ) && 0 <= frame_target(w[q]) < dags.len(),
        forall|t: int| #[trigger]
            call_edges(dags).contains((key, t)) ==> pending_at(w, w_old.len() - 1, t),
        finished.contains(start as int) || pending_at(w_old, -1, start as int),
    ensures
        dfs_inv(dags, visited, on_stack, w, finished, path.push(key), lp.push(w_old.len() - 1)),
        finished.contains(start as int) || pending_at(w, -1, start as int),
{
    let e = call_edges(dags);
    let n = dags.len() as int;
    let top = w_old.len() - 1;
    let p2 = path.push(key);
    let l2 = lp.push(top);
    let old_stack = on_stack.update(key, false);
    lemma_top_enter(dags, visited, old_stack, w_old, finished, path, lp);
    lemma_flags(dags, visited, old_stack, w_old, finished, path, lp);
    assert(!path.contains(key));
    assert(!finished.contains(key));
    assert(flags_ok(n, visited, on_stack, finished, p2)) by {
        reveal(flags_ok);
        assert forall|i: int| 0 <= i < n implies (#[trigger] on_stack[i] <==> p2.contains(i)) by {
            if i != key {
                assert(on_stack[i] == old_stack[i]);
                if p2.contains(i) {
                    let k = choose|k: int| 0 <= k < p2.len() && p2[k] == i;
                    assert(path[k] == i);
                }
                if path.contains(i) {
                    let k = choose|k: int| 0 <= k < path.len() && path[k] == i;
                    assert(p2[k] == i);
                }
            } else {
                assert(p2[p2.len() - 1] == key);
            }
        }
        assert forall|a: int, b: int| 0 <= a < p2.len() && 0 <= b < p2.len() && a != b implies p2[a] != p2[b] by {
            if b == p2.len() - 1 {
                assert(path[a] != key);
            } else if a == p2.len() - 1 {
                assert(path[b] != key);
            }
        }
        assert forall|i: int| 0 <= i < n implies !(#[trigger] visited[i] && on_stack[i]) by {
            if i != key {
                assert(on_stack[i] == old_stack[i]);
            }
        }
    }
    assert(path_ok(e, p2)) by {
        reveal(path_ok);
        assert forall|k: int| 0 <= k < p2.len() - 1 implies #[trigger] path_step(e, p2, k) by {
            if k < path.len() - 1 {
                assert(path_step(e, path, k));
            } else {
                assert(frame_target(w_old.last()) == key);
            }
        }
    }
    assert(leaves_ok(n, w, p2, l2)) by {
        reveal(leaves_ok);
        assert forall|k: int| 0 <= k < l2.len() implies w[#[trigger] l2[k]] == Frame::Leave(p2[k] as usize) by {
            if k < lp.len() {
                assert(lp[k] < top);
                assert(w[lp[k]] == w_old[lp[k]]);
            }
        }
        assert forall|k: int| 0 <= k < l2.len() implies 0 <= #[trigger] l2[k] < w.len() by {
            if k < lp.len() {
                assert(lp[k] < top);
            }
        }
        assert forall|a: int, b: int| 0 <= a < b < l2.len() implies #[trigger] l2[a] < #[trigger] l2[b] by {
            if b < lp.len() {
                assert(lp[a] < lp[b]);
            } else {
                assert(lp[a] < top);
            }
        }
        assert forall|q: int| 0 <= q < w.len() && (#[trigger] w[q]) is Leave implies exists|k: int|
            0 <= k < l2.len() && l2[k] == q by {
            if q < top {
                assert(w_old[q] == w[q]);
                let k = choose|k: int| 0 <= k < lp.len() && lp[k] == q;
                assert(l2[k] == q);
            } else if q == top {
                assert(l2[lp.len() as int] == q);
            }
        }
        assert forall|q: int| 0 <= q < w.len() implies 0 <= frame_target(#[trigger] w[q]) < n by {
            if q < top {
                assert(w_old[q] == w[q]);
            }
        }
    }
    assert(segments_ok(e, w, p2, l2)) by {
        reveal(segments_ok);
        reveal(leaves_ok);
        assert forall|k: int, q: int|
            0 <= k < p2.len() && l2[k] < q < seg_end(w, l2, k) && (#[trigger] w[q]) is Enter implies e.contains(
            (#[trigger] p2[k], frame_target(w[q])),
        ) by {
            if k < path.len() {
                assert(l2[k] == lp[k]);
                assert(seg_end(w, l2, k) <= top) by {
                    if k + 1 < lp.len() {
                        assert(l2[k + 1] == lp[k + 1]);
                        assert(lp[k + 1] < top);
                    }
                }
                assert(w_old[q] == w[q]);
                assert(lp[k] < q < seg_end(w_old, lp, k));
                assert(p2[k] == path[k]);
            }
        }
    }
    assert(pending_ok(e, w, finished, p2, l2)) by {
        reveal(pending_ok);
        reveal(leaves_ok);
        assert forall|k: int, t: int|
            0 <= k < p2.len() && #[trigger] e.contains((p2[k], t)) implies finished.contains(t)
                || pending_at(w, l2[k], t) by {
            if k < path.len() {
                assert(p2[k] == path[k] && l2[k] == lp[k]);
                if !finished.contains(t) {
                    let q = choose|q: int| lp[k] < q < w_old.len() && frame_target(#[trigger] w_old[q]) == t;
                    if q == top {
                        assert(frame_target(w[q]) == t);
                    } else {
                        assert(w[q] == w_old[q]);
                    }
                }
            } else {
                assert(p2[k] == key && l2[k] == top);
            }
        }
    }
    assert(finished_ok(e, finished));
    reveal(flags_ok);
    assert forall|i: int, j: int| 0 <= i < finished.len() && 0 <= j < p2.len() implies finished[i] != p2[j] by {
        let x = finished[i];
        if x == p2[j] {
            assert(finished.contains(x));
            assert(p2.contains(x));
            assert(visited[x] && on_stack[x]);
        }
    }
    crate::dag_cycles::lemma_disjoint_len(finished, p2, n);
    if !finished.contains(start as int) {
        let q = choose|q: int| -1 < q < w_old.len() && frame_target(#[trigger] w_old[q]) == start as int;
        if q == top {
            assert(frame_target(w[q]) == start as int);
        } else {
            assert(w[q] == w_old[q]);
        }
    }
}

/// Leaving the innermost DAG of the path finishes it.
#[verifier::rlimit(40)]
proof fn lemma_leave(
    dags: Seq<DagCalls>,
    visited: Seq<bool>,
    on_stack: Seq<bool>,
    w_old: Seq<Frame>,
    finished: Seq<int>,
    path: Seq<int>,
    lp: Seq<int>,
    key: int,
    start: usize,
)
    requires
        dfs_inv(
            dags,
            visited.update(key, false),
            on_stack.update(key, true),
            w_old,
            finished,
            path,
            lp,
        ),
        visited.len() == dags.len(),
        on_stack.len() == dags.len(),
        0 <= key < dags.len(),
        visited[key],
        !on_stack[key],
        path.len() > 0,
        path.last() == key,
        lp.last() == w_old.len() - 1,
        w_old.len() > 0,
        w_old.last() == Frame::Leave(key as usize),
        finished.contains(start as int) || pending_at(w_old, -1, start as int),
    ensures
        dfs_inv(
            dags,
            visited,
            on_stack,
            w_old.drop_last(),
            finished.push(key),
            path.drop_last(),
            lp.drop_last(),
        ),
        finished.push(key).contains(start as int) || pending_at(w_old.drop_last(), -1, start as int),
{
    let e = call_edges(dags);
    let n = dags.len() as int;
    let top = w_old.len() - 1;
    let w = w_old.subrange(0, top);
    assert(w_old.drop_last() =~= w);
    let f2 = finished.push(key);
    let p2 = path.drop_last();
    let l2 = lp.drop_last();
    let last = path.len() - 1;
    let old_visited = visited.update(key, false);
    let old_stack = on_stack.update(key, true);
    lemma_flags(dags, old_visited, old_stack, w_old, finished, path, lp);
    assert(!finished.contains(key)) by {
        assert(old_visited[key] == false);
        reveal(flags_ok);
    }
    assert(flags_ok(n, visited, on_stack, f2, p2)) by {
        reveal(flags_ok);
        assert forall|a: int, b: int| 0 <= a < f2.len() && 0 <= b < f2.len() && a != b implies f2[a] != f2[b] by {
            if b == f2.len() - 1 {
                assert(finished[a] != key);
            } else if a == f2.len() - 1 {
                assert(finished[b] != key);
            }
        }
        assert forall|i: int| 0 <= i < n implies (#[trigger] visited[i] <==> f2.contains(i)) by {
            if i != key {
                assert(visited[i] == old_visited[i]);
                if f2.contains(i) {
                    let k = choose|k: int| 0 <= k < f2.len() && f2[k] == i;
                    assert(finished[k] == i);
                }
                if finished.contains(i) {
                    let k = choose|k: int| 0 <= k < finished.len() && finished[k] == i;
                    assert(f2[k] == i);
                }
            } else {
                assert(f2[f2.len() - 1] == key);
            }
        }
        assert forall|i: int| 0 <= i < n implies (#[trigger] on_stack[i] <==> p2.contains(i)) by {
            if i != key {
                assert(on_stack[i] == old_stack[i]);
                if p2.contains(i) {
                    let k = choose|k: int| 0 <= k < p2.len() && p2[k] == i;
                    assert(path[k] == i);
                }
                if path.contains(i) {
                    let k = choose|k: int| 0 <= k < path.len() && path[k] == i;
                    assert(k != last);
                    assert(p2[k] == i);
                }
            } else {
                if p2.contains(i) {
                    let k = choose|k: int| 0 <= k < p2.len() && p2[k] == i;
                    assert(path[k] == path[last]);
                }
            }
        }
        assert forall|i: int| 0 <= i < n implies !(#[trigger] visited[i] && on_stack[i]) by {
            if i != key {
                assert(visited[i] == old_visited[i]);
                assert(on_stack[i] == old_stack[i]);
            }
        }
    }
    assert(path_ok(e, p2)) by {
        reveal(path_ok);
        assert forall|k: int| 0 <= k < p2.len() - 1 implies #[trigger] path_step(e, p2, k) by {
            assert(path_step(e, path, k));
        }
    }
    assert(leaves_ok(n, w, p2, l2)) by {
        reveal(leaves_ok);
        assert forall|k: int| 0 <= k < l2.len() implies 0 <= #[trigger] l2[k] < w.len() by {
            assert(lp[k] < lp[last]);
        }
        assert forall|k: int| 0 <= k < l2.len() implies w[#[trigger] l2[k]] == Frame::Leave(p2[k] as usize) by {
            assert(lp[k] < lp[last]);
            assert(w[lp[k]] == w_old[lp[k]]);
        }
        assert forall|a: int, b: int| 0 <= a < b < l2.len() implies #[trigger] l2[a] < #[trigger] l2[b] by {
            assert(lp[a] < lp[b]);
        }
        assert forall|q: int| 0 <= q < w.len() && (#[trigger] w[q]) is Leave implies exists|k: int|
            0 <= k < l2.len() && l2[k] == q by {
            assert(w_old[q] == w[q]);
            let k = choose|k: int| 0 <= k < lp.len() && lp[k] == q;
            assert(k != last);
            assert(l2[k] == q);
        }
        assert forall|q: int| 0 <= q < w.len() implies 0 <= frame_target(#[trigger] w[q]) < n by {
            assert(w_old[q] == w[q]);
        }
    }
    assert(segments_ok(e, w, p2, l2)) by {
        reveal(segments_ok);
        reveal(leaves_ok);
        assert forall|k: int, q: int|
            0 <= k < p2.len() && l2[k] < q < seg_end(w, l2, k) && (#[trigger] w[q]) is Enter implies e.contains(
            (#[trigger] p2[k], frame_target(w[q])),
        ) by {
            assert(p2[k] == path[k] && l2[k] == lp[k]);
            assert(lp[k] >= 0);
            assert(w_old[q] == w[q]);
            if k + 1 < l2.len() {
                assert(seg_end(w, l2, k) == lp[k + 1]);
            } else {
                assert(seg_end(w_old, lp, k) == lp[last]);
            }
            assert(lp[k] < q < seg_end(w_old, lp, k));
        }
    }
    assert(finished_ok(e, f2)) by {
        reveal(finished_ok);
        reveal(pending_ok);
        assert forall|k: int, t: int|
            0 <= k < f2.len() && #[trigger] e.contains((f2[k], t)) implies exists|j: int|
            0 <= j < k && f2[j] == t by {
            if k < finished.len() {
                assert(f2[k] == finished[k]);
                let j = choose|j: int| 0 <= j < k && finished[j] == t;
                assert(f2[j] == t);
            } else {
                assert(f2[k] == path[last]);
                if !finished.contains(t) {
                    let q = choose|q: int| lp[last] < q < w_old.len() && frame_target(#[trigger] w_old[q]) == t;
                    assert(false);
                }
                let j = choose|j: int| 0 <= j < finished.len() && finished[j] == t;
                assert(f2[j] == t);
            }
        }
    }
    assert(pending_ok(e, w, f2, p2, l2)) by {
        reveal(pending_ok);
        reveal(leaves_ok);
        assert forall|k: int, t: int|
            0 <= k < p2.len() && #[trigger] e.contains((p2[k], t)) implies f2.contains(t)
                || pending_at(w, l2[k], t) by {
            assert(p2[k] == path[k] && l2[k] == lp[k]);
            assert(lp[k] >= 0);
            if !finished.contains(t) {
                let q = choose|q: int| lp[k] < q < w_old.len() && frame_target(#[trigger] w_old[q]) == t;
                if q == top {
                    assert(t == key);
                    assert(f2[f2.len() - 1] == t);
                } else {
                    assert(w[q] == w_old[q]);
                }
            } else {
                let j = choose|j: int| 0 <= j < finished.len() && finished[j] == t;
                assert(f2[j] == t);
            }
        }
    }
    if !finished.contains(start as int) {
        let q = choose|q: int| -1 < q < w_old.len() && frame_target(#[trigger] w_old[q]) == start as int;
        if q == top {
            assert(f2[f2.len() - 1] == start as int);
        } else {
            assert(w[q] == w_old[q]);
        }
    } else {
        let j = choose|j: int| 0 <= j < finished.len() && finished[j] == start as int;
        assert(f2[j] == start as int);
    }
}

/// When every DAG is finished, the reversed finishing order is topological.
proof fn lemma_all_finished(dags: Seq<DagCalls>, visited: Seq<bool>, on_stack: Seq<bool>, finished: Seq<int>)
    requires
        dfs_inv(dags, visited, on_stack, Seq::empty(), finished, Seq::empty(), Seq::empty()),
        dags.len() <= usize::MAX,
        forall|k: int| 0 <= k < dags.len() ==> #[trigger] visited[k],
    ensures
        has_topo_order(dags.len(), call_edges(dags)),
{
    reveal(flags_ok);
    reveal(finished_ok);
    let n = dags.len() as int;
    let e = call_edges(dags);
    vstd::set_lib::lemma_int_range(0, n);
    finished.unique_seq_to_set();
    assert(vstd::set_lib::set_int_range(0, n).subset_of(finished.to_set())) by {
        assert forall|x: int| #[trigger] vstd::set_lib::set_int_range(0, n).contains(x) implies finished.to_set().contains(x) by {
            assert(visited[x]);
        }
    }
    vstd::set_lib::lemma_len_subset(vstd::set_lib::set_int_range(0, n), finished.to_set());
    assert(finished.len() == n);
    let order = Seq::new(n as nat, |i: int| finished[n - 1 - i] as usize);
    assert forall|i: int| 0 <= i < n implies #[trigger] order[i] as int == finished[n - 1 - i] by {
        assert(0 <= finished[n - 1 - i] < n);
    }
    assert forall|i: int, j: int|
        0 <= i < n && 0 <= j < n && #[trigger] e.contains((order[j] as int, order[i] as int)) implies j < i by {
        let a = n - 1 - j;
        let b = n - 1 - i;
        assert(order[j] as int == finished[a]);
        assert(order[i] as int == finished[b]);
        assert(e.contains((finished[a], finished[b])));
        let c = choose|c: int| 0 <= c < a && finished[c] == finished[b];
        if c != b {
            assert(false);
        }
    }
    assert forall|i: int, j: int| 0 <= i < n && 0 <= j < n && i != j implies order[i] != order[j] by {
        assert(order[i] as int == finished[n - 1 - i]);
        assert(order[j] as int == finished[n - 1 - j]);
    }
    assert forall|i: int| 0 <= i < n implies #[trigger] order[i] < n by {
        assert(order[i] as int == finished[n - 1 - i]);
    }
    assert(is_topo_order(n as nat, e, order));
}

/// Reject inline-call cycles among the DAGs, searching depth first from each
/// DAG in the order given and following calls in the order listed.
pub fn detect_cross_dag_cycles(dags: &Vec<DagCalls>) -> (r: Result<(), CyclicDagCall>)
    requires
        distinct_dags(dags@),
    ensures
        r is Ok <==> has_topo_order(dags@.len(), call_edges(dags@)),
        r matches Err(c) ==> exists|i: int|
            0 <= i < dags@.len() && dags@[i].dag == c.dag && dags@[i].span == c.span && on_cycle(
                call_edges(dags@),
                i,
            ),
{
    let n = dags.len();
    let ghost e = call_edges(dags@);
    let mut visited: Vec<bool> = Vec::new();
    let mut on_stack: Vec<bool> = Vec::new();
    let mut i: usize = 0;
    while i < n
        invariant
            n == dags@.len(),
            i <= n,
            visited@.len() == i,
            on_stack@.len() == i,
            forall|k: int| 0 <= k < i ==> !(#[trigger] visited@[k]),
            forall|k: int| 0 <= k < i ==> !(#[trigger] on_stack@[k]),
        decreases n - i,
    {
        visited.push(false);
        on_stack.push(false);
        i += 1;
    }
    proof {
        lemma_init(dags@, visited@, on_stack@);
    }
    let ghost mut finished: Seq<int> = Seq::empty();
    let mut start: usize = 0;
    while start < n
        invariant
            n == dags@.len(),
            e == call_edges(dags@),
            distinct_dags(dags@),
            start <= n,
            dfs_inv(dags@, visited@, on_stack@, Seq::empty(), finished, Seq::empty(), Seq::empty()),
            forall|k: int| 0 <= k < start ==> #[trigger] visited@[k],
        decreases n - start,
    {
        proof {
            lemma_flags(dags@, visited@, on_stack@, Seq::empty(), finished, Seq::empty(), Seq::empty());
        }
        if !visited[start] {
            let mut work: Vec<Frame> = Vec::new();
            work.push(Frame::Enter(start));
            let ghost mut path: Seq<int> = Seq::empty();
            let ghost mut lp: Seq<int> = Seq::empty();
            proof {
                lemma_start(dags@, visited@, on_stack@, finished, start);
                assert(work@ =~= seq![Frame::Enter(start)]);
            }
            while work.len() > 0
                invariant
                    n == dags@.len(),
                    e == call_edges(dags@),
                    distinct_dags(dags@),
                    start < n,
                    dfs_inv(dags@, visited@, on_stack@, work@, finished, path, lp),
                    forall|k: int| 0 <= k < start ==> #[trigger] visited@[k],
                    finished.contains(start as int) || pending_at(work@, -1, start as int),
                decreases 2 * n - 2 * finished.len() - path.len(), work@.len(),
            {
                proof {
                    lemma_flags(dags@, visited@, on_stack@, work@, finished, path, lp);
                }
                let ghost w_old = work@;
                let frame = work.pop().unwrap();
                let ghost top = work@.len() as int;
                proof {
                    assert(w_old.last() == frame);
                    assert(work@ =~= w_old.drop_last());
                    assert(w_old[top] == frame);
                    assert(0 <= frame_target(w_old[top]) < n);
                }
                match frame {
                    Frame::Enter(key) => {
                        proof {
                            lemma_top_enter(dags@, visited@, on_stack@, w_old, finished, path, lp);
                        }
                        if visited[key] {
                            proof {
                                lemma_enter_skip(dags@, visited@, on_stack@, w_old, finished, path, lp, start);
                            }
                        } else if on_stack[key] {
                            proof {
                                assert(path.contains(key as int));
                                assert(path.len() > 0);
                                lemma_cycle(dags@, path, key as int);
                            }
                            return Err(CyclicDagCall { dag: dags[key].dag, span: dags[key].span });
                        } else {
                            let ghost stack_before = on_stack@;
                            on_stack.set(key, true);
                            work.push(Frame::Leave(key));
                            let targets = &dags[key].targets;
                            let mut j: usize = 0;
                            proof {
                                assert(on_stack@.update(key as int, false) =~= stack_before);
                            }
                            while j < targets.len()
                                invariant
                                    n == dags@.len(),
                                    e == call_edges(dags@),
                                    distinct_dags(dags@),
                                    0 <= key < n,
                                    *targets == dags@[key as int].targets,
                                    j <= targets@.len(),
                                    top == w_old.len() - 1,
                                    top >= 0,
                                    work@.len() >= top + 1,
                                    forall|q: int| 0 <= q < top ==> work@[q] == w_old[q],
                                    work@[top] == Frame::Leave(key),
                                    forall|q: int|
                                        top < q < work@.len() ==> (#[trigger] work@[q]) is Enter
                                            && e.contains((key as int, frame_target(work@[q])))
                                            && 0 <= frame_target(work@[q]) < n,
                                    forall|t: int|
                                        0 <= t < n && (exists|m: int|
                                            0 <= m < j && targets@[m] == #[trigger] dags@[t].dag)
                                            ==> pending_at(work@, top, t),
                                decreases targets@.len() - j,
                            {
                                let ghost wj = work@;
                                match find_dag(dags, targets[j]) {
                                    Some(t) => {
                                        work.push(Frame::Enter(t));
                                        proof {
                                            assert(work@ == wj.push(Frame::Enter(t)));
                                            assert(wj.len() >= top + 1);
                                            assert(work@[top] == wj[top]);
                                            assert forall|q: int| 0 <= q < top implies work@[q] == w_old[q] by {
                                                assert(work@[q] == wj[q]);
                                            }
                                            assert(targets@[j as int] == dags@[t as int].dag);
                                            assert(targets@.contains(dags@[t as int].dag));
                                            assert(e.contains((key as int, t as int)));
                                            assert forall|u: int|
                                                0 <= u < n && (exists|m: int|
                                                    0 <= m < j + 1 && targets@[m] == #[trigger] dags@[u].dag)
                                                    implies pending_at(work@, top, u) by {
                                                let m = choose|m: int| 0 <= m < j + 1 && targets@[m] == dags@[u].dag;
                                                if m == j {
                                                    if u != t as int {
                                                        if u < t as int {
                                                            assert(dags@[u].dag != dags@[t as int].dag);
                                                        } else {
                                                            assert(dags@[t as int].dag != dags@[u].dag);
                                                        }
                                                    }
                                                    assert(frame_target(work@[work@.len() - 1]) == u);
                                                } else {
                                                    assert(pending_at(wj, top, u));
                                                    let q = choose|q: int| top < q < wj.len() && frame_target(#[trigger] wj[q]) == u;
                                                    assert(work@[q] == wj[q]);
                                                }
                                            }
                                        }
                                    },
                                    None => {
                                        proof {
                                            assert forall|u: int|
                                                0 <= u < n && (exists|m: int|
                                                    0 <= m < j + 1 && targets@[m] == #[trigger] dags@[u].dag)
                                                    implies pending_at(work@, top, u) by {
                                                let m = choose|m: int| 0 <= m < j + 1 && targets@[m] == dags@[u].dag;
                                                if m == j {
                                                    assert(dags@[u].dag != targets@[j as int]);
                                                }
                                            }
                                        }
                                    },
                                }
                                j += 1;
                            }
                            proof {
                                assert forall|t: int| #[trigger] e.contains((key as int, t)) implies pending_at(work@, top, t) by {
                                    assert(dags@[key as int].targets@.contains(dags@[t].dag));
                                    let m = choose|m: int| 0 <= m < targets@.len() && targets@[m] == dags@[t].dag;
                                    assert(exists|m: int| 0 <= m < targets@.len() && targets@[m] == #[trigger] dags@[t].dag);
                                }
                                lemma_enter_fresh(
                                    dags@,
                                    visited@,
                                    on_stack@,
                                    w_old,
                                    work@,
                                    finished,
                                    path,
                                    lp,
                                    key as int,
                                    start,
                                );
                                path = path.push(key as int);
                                lp = lp.push(top);
                            }
                        }
                    },
                    Frame::Leave(key) => {
                        proof {
                            lemma_top_leave(dags@, visited@, on_stack@, w_old, finished, path, lp);
                        }
                        let ghost visited_before = visited@;
                        let ghost stack_before = on_stack@;
                        on_stack.set(key, false);
                        visited.set(key, true);
                        proof {
                            assert(visited@.update(key as int, false) =~= visited_before) by {
                                assert(!visited_before[key as int]) by {
                                    assert(path.contains(key as int)) by {
                                        assert(path[path.len() - 1] == key as int);
                                    }
                                    assert(stack_before[key as int]);
                                    reveal(flags_ok);
                                }
                            }
                            assert(on_stack@.update(key as int, true) =~= stack_before) by {
                                assert(stack_before[key as int]) by {
                                    assert(path[path.len() - 1] == key as int);
                                }
                            }
                            lemma_leave(dags@, visited@, on_stack@, w_old, finished, path, lp, key as int, start);
                            finished = finished.push(key as int);
                            path = path.drop_last();
                            lp = lp.drop_last();
                        }
                    },
                }
            }
            proof {
                lemma_flags(dags@, visited@, on_stack@, work@, finished, path, lp);
                assert(path =~= Seq::<int>::empty());
                assert(lp =~= Seq::<int>::empty());
                assert(work@ =~= Seq::<Frame>::empty());
                assert(visited@[start as int]);
            }
        }
        start += 1;
    }
    proof {
        lemma_all_finished(dags@, visited@, on_stack@, finished);
    }
    Ok(())
}

} // verus!
