//! Compile-time detection of cyclic declaration dependencies.
//!
//! A dependency cycle is a topological property of the source: the
//! declarations of one DAG are the nodes of a directed graph with an edge from
//! each dependency to its dependent, and the declarations are accepted exactly
//! when that graph has a topological order.

use crate::index::ResolvedName;
use crate::rules::Span;
use petgraph::graph::{Graph, NodeIndex};
use petgraph::Directed;
use vstd::prelude::*;

verus! {

#[verifier::external_type_specification]
#[verifier::external_body]
#[verifier::reject_recursive_types(N)]
#[verifier::reject_recursive_types(E)]
#[verifier::reject_recursive_types(Ty)]
#[verifier::reject_recursive_types(Ix)]
pub struct ExGraph<N, E, Ty, Ix>(Graph<N, E, Ty, Ix>);

#[verifier::external_type_specification]
#[verifier::external_body]
pub struct ExDirected(Directed);

/// The dependency graph: node weights are declaration positions.
pub type DepGraph = Graph<u64, (), Directed, usize>;

/// Node weights of a dependency graph, by node index.
pub uninterp spec fn graph_nodes(g: Graph<u64, (), Directed, usize>) -> Seq<u64>;

/// Edges `(from, to)` of a dependency graph, by node index.
pub uninterp spec fn graph_edges(g: Graph<u64, (), Directed, usize>) -> Set<(int, int)>;

/// `order` lists the nodes `0..n` once each, every edge pointing forward.
pub open spec fn is_topo_order(n: nat, edges: Set<(int, int)>, order: Seq<usize>) -> bool {
    &&& order.len() == n
    &&& forall|i: int| 0 <= i < n ==> #[trigger] order[i] < n
    &&& forall|i: int, j: int| 0 <= i < n && 0 <= j < n && i != j ==> order[i] != order[j]
    &&& forall|i: int, j: int|
        0 <= i < n && 0 <= j < n && #[trigger] edges.contains((order[j] as int, order[i] as int))
            ==> j < i
}

pub open spec fn has_topo_order(n: nat, edges: Set<(int, int)>) -> bool {
    exists|order: Seq<usize>| is_topo_order(n, edges, order)
}

/// Step `k` of `p` is an edge.
pub open spec fn path_step(edges: Set<(int, int)>, p: Seq<int>, k: int) -> bool {
    edges.contains((p[k], p[k + 1]))
}

/// A path of at least one edge.
pub open spec fn is_path(edges: Set<(int, int)>, p: Seq<int>) -> bool {
    &&& p.len() >= 2
    &&& forall|k: int| 0 <= k < p.len() - 1 ==> #[trigger] path_step(edges, p, k)
}

/// Node `c` lies on a directed cycle.
pub open spec fn on_cycle(edges: Set<(int, int)>, c: int) -> bool {
    exists|p: Seq<int>| is_path(edges, p) && p[0] == c && p.last() == c
}

/// Every edge joins two of the nodes `0..n`.
pub open spec fn edges_within(n: nat, edges: Set<(int, int)>) -> bool {
    forall|e: (int, int)| #[trigger] edges.contains(e) ==> 0 <= e.0 < n && 0 <= e.1 < n
}

/// An empty dependency graph (`Graph::with_capacity`).
#[verifier::external_body]
fn graph_new() -> (g: DepGraph)
    ensures
        graph_nodes(g) == Seq::<u64>::empty(),
        graph_edges(g) == Set::<(int, int)>::empty(),
{
    Graph::with_capacity(0, 0)
}

/// `Graph::add_node`: appends a node and returns its index, the previous node
/// count. With `usize` indexes the node limit check never fails.
#[verifier::external_body]
fn graph_add_node(g: &mut DepGraph, weight: u64) -> (n: usize)
    ensures
        graph_nodes(*final(g)) == graph_nodes(*old(g)).push(weight),
        graph_edges(*final(g)) == graph_edges(*old(g)),
        n == graph_nodes(*old(g)).len(),
{
    g.add_node(weight).index()
}

/// `Graph::add_edge`: adds the edge `from -> to`; it panics on indexes out of
/// bounds, so those are excluded.
#[verifier::external_body]
fn graph_add_edge(g: &mut DepGraph, from: usize, to: usize)
    requires
        from < graph_nodes(*old(g)).len(),
        to < graph_nodes(*old(g)).len(),
    ensures
        graph_nodes(*final(g)) == graph_nodes(*old(g)),
        graph_edges(*final(g)) == graph_edges(*old(g)).insert((from as int, to as int)),
{
    g.add_edge(NodeIndex::new(from), NodeIndex::new(to), ());
}

/// `petgraph::algo::toposort`: on success the nodes in topological order (each
/// node before its successors); on failure a node that participates in a cycle.
#[verifier::external_body]
fn graph_toposort(g: &DepGraph) -> (r: Result<Vec<usize>, usize>)
    ensures
        r matches Ok(order) ==> is_topo_order(graph_nodes(*g).len(), graph_edges(*g), order@),
        r matches Err(c) ==> c < graph_nodes(*g).len() && on_cycle(graph_edges(*g), c as int),
{
    match petgraph::algo::toposort(g, None) {
        Ok(order) => Ok(order.iter().map(|n| n.index()).collect()),
        Err(cycle) => Err(cycle.node_id().index()),
    }
}

/// Along a path, topological positions strictly increase.
proof fn lemma_path_positions(
    n: nat,
    edges: Set<(int, int)>,
    order: Seq<usize>,
    pos: spec_fn(int) -> int,
    p: Seq<int>,
    k: int,
)
    requires
        is_topo_order(n, edges, order),
        edges_within(n, edges),
        forall|v: int| 0 <= v < n ==> 0 <= #[trigger] pos(v) < n && order[pos(v)] == v,
        is_path(edges, p),
        1 <= k < p.len(),
    ensures
        0 <= p[0] < n,
        0 <= p[k] < n,
        pos(p[0]) < pos(p[k]),
    decreases k,
{
    assert(path_step(edges, p, k - 1));
    if k > 1 {
        lemma_path_positions(n, edges, order, pos, p, k - 1);
    }
    let a = p[k - 1];
    let b = p[k];
    assert(order[pos(a)] as int == a && order[pos(b)] as int == b);
    assert(edges.contains((order[pos(a)] as int, order[pos(b)] as int)));
}

/// A graph with a node on a cycle has no topological order.
pub proof fn lemma_cycle_no_topo_order(n: nat, edges: Set<(int, int)>, c: int)
    requires
        edges_within(n, edges),
        on_cycle(edges, c),
    ensures
        !has_topo_order(n, edges),
{
    if has_topo_order(n, edges) {
        let order = choose|order: Seq<usize>| is_topo_order(n, edges, order);
        let p = choose|p: Seq<int>| is_path(edges, p) && p[0] == c && p.last() == c;
        let pos = |v: int| choose|i: int| 0 <= i < n && #[trigger] order[i] == v;
        assert forall|v: int| 0 <= v < n implies 0 <= #[trigger] pos(v) < n && order[pos(v)] == v by {
            lemma_permutation_covers(n, order, v);
        }
        lemma_path_positions(n, edges, order, pos, p, p.len() - 1);
    }
}

/// `n` distinct values below `n` cover every value below `n`.
proof fn lemma_permutation_covers(n: nat, order: Seq<usize>, v: int)
    requires
        order.len() == n,
        forall|i: int| 0 <= i < n ==> #[trigger] order[i] < n,
        forall|i: int, j: int| 0 <= i < n && 0 <= j < n && i != j ==> order[i] != order[j],
        0 <= v < n,
    ensures
        exists|i: int| 0 <= i < n && #[trigger] order[i] == v,
{
    let s = order.map_values(|x: usize| x as int).to_set();
    let full = Set::new(|x: int| 0 <= x < n);
    assert(order.map_values(|x: usize| x as int).no_duplicates()) by {
        let m = order.map_values(|x: usize| x as int);
        assert forall|i: int, j: int| 0 <= i < m.len() && 0 <= j < m.len() && i != j implies m[i]
            != m[j] by {
            assert(order[i] != order[j]);
        }
    }
    order.map_values(|x: usize| x as int).unique_seq_to_set();
    assert(s.subset_of(full));
    vstd::set_lib::lemma_int_range(0, n as int);
    assert(full =~= vstd::set_lib::set_int_range(0, n as int));
    if !s.contains(v) {
        assert(s.subset_of(full.remove(v)));
        vstd::set_lib::lemma_len_subset(s, full.remove(v));
        assert(false);
    }
    let m = order.map_values(|x: usize| x as int);
    let i = choose|i: int| 0 <= i < m.len() && m[i] == v;
    assert(order[i] == v);
}

/// A declaration cycle: the key and span of one declaration on the cycle.
#[derive(Clone, Copy, Debug, PartialEq, Eq, Structural)]
pub struct CyclicDependency {
    pub name: ResolvedName,
    pub span: Span,
}

/// Position of the last occurrence of `k` in `keys`, or `-1`.
pub open spec fn last_pos(keys: Seq<ResolvedName>, k: ResolvedName) -> int
    decreases keys.len(),
{
    if keys.len() == 0 {
        -1
    } else if keys.last() == k {
        keys.len() - 1
    } else {
        last_pos(keys.drop_last(), k)
    }
}

pub proof fn lemma_last_pos(keys: Seq<ResolvedName>, k: ResolvedName)
    ensures
        -1 <= last_pos(keys, k) < keys.len(),
        last_pos(keys, k) >= 0 ==> keys[last_pos(keys, k)] == k,
        last_pos(keys, k) == -1 <==> !keys.contains(k),
        forall|j: int| last_pos(keys, k) < j < keys.len() ==> #[trigger] keys[j] != k,
    decreases keys.len(),
{
    if keys.len() > 0 {
        let d = keys.drop_last();
        lemma_last_pos(d, k);
        if keys.last() != k {
            if keys.contains(k) {
                let i = choose|i: int| 0 <= i < keys.len() && keys[i] == k;
                assert(d[i] == k);
            }
            assert forall|j: int| last_pos(keys, k) < j < keys.len() implies #[trigger] keys[j] != k by {
                if j < keys.len() - 1 {
                    assert(d[j] == keys[j]);
                }
            }
            if last_pos(keys, k) >= 0 {
                assert(d[last_pos(d, k)] == keys[last_pos(d, k)]);
            }
            if d.contains(k) {
                let i = choose|i: int| 0 <= i < d.len() && d[i] == k;
                assert(keys[i] == k);
            }
        }
    }
}

/// The dependency edges among `keys`: from each dependency to its dependent,
/// both taken at their last declaration position.
pub open spec fn dep_edges(keys: Seq<ResolvedName>, deps: Seq<(ResolvedName, Seq<ResolvedName>)>) -> Set<
    (int, int),
> {
    Set::new(
        |e: (int, int)|
            exists|i: int, j: int|
                #![trigger deps[i].1[j]]
                0 <= i < deps.len() && 0 <= j < deps[i].1.len() && last_pos(keys, deps[i].0) >= 0
                    && last_pos(keys, deps[i].1[j]) >= 0 && e == (
                    last_pos(keys, deps[i].1[j]),
                    last_pos(keys, deps[i].0),
                ),
    )
}

pub open spec fn deps_view(deps: Seq<(ResolvedName, Vec<ResolvedName>)>) -> Seq<(ResolvedName, Seq<ResolvedName>)> {
    deps.map_values(|d: (ResolvedName, Vec<ResolvedName>)| (d.0, d.1@))
}

pub open spec fn keys_of(names: Seq<(ResolvedName, Span)>) -> Seq<ResolvedName> {
    names.map_values(|n: (ResolvedName, Span)| n.0)
}

/// Position of the last occurrence of `key` among the declared names.
fn find_last(names: &Vec<(ResolvedName, Span)>, key: ResolvedName) -> (r: Option<usize>)
    ensures
        r is Some <==> last_pos(keys_of(names@), key) >= 0,
        r matches Some(i) ==> i == last_pos(keys_of(names@), key) && i < names@.len(),
{
    let ghost keys = keys_of(names@);
    proof {
        lemma_last_pos(keys, key);
    }
    let mut i = names.len();
    while i > 0
        invariant
            keys == keys_of(names@),
            i <= names@.len(),
            forall|j: int| i <= j < names@.len() ==> #[trigger] keys[j] != key,
        decreases i,
    {
        i -= 1;
        if names[i].0 == key {
            proof {
                lemma_last_pos(keys, key);
                assert(keys[i as int] == key);
                let lp = last_pos(keys, key);
                if lp > i {
                    assert(keys[lp] == key);
                }
                if lp < i {
                    assert(keys[i as int] != key);
                }
            }
            return Some(i);
        }
        proof {
            assert(keys[i as int] != key);
        }
    }
    proof {
        lemma_last_pos(keys, key);
        let lp = last_pos(keys, key);
        if lp >= 0 {
            assert(keys[lp] == key);
        }
    }
    None
}

/// Reject a cyclic dependency graph among the given declarations.
///
/// `names_with_spans` lists the declarations (a key may repeat; its last
/// occurrence stands for it) and `deps` maps a declaration to the
/// declarations it depends on; dependencies outside the list are ignored.
pub fn check_resolved(
    names_with_spans: &Vec<(ResolvedName, Span)>,
    deps: &Vec<(ResolvedName, Vec<ResolvedName>)>,
) -> (r: Result<(), CyclicDependency>)
    ensures
        r is Ok <==> has_topo_order(
            names_with_spans@.len(),
            dep_edges(keys_of(names_with_spans@), deps_view(deps@)),
        ),
        r matches Err(e) ==> exists|i: int|
            0 <= i < names_with_spans@.len() && names_with_spans@[i] == (e.name, e.span) && on_cycle(
                dep_edges(keys_of(names_with_spans@), deps_view(deps@)),
                i,
            ),
{
    let ghost keys = keys_of(names_with_spans@);
    let ghost dv = deps_view(deps@);
    let ghost target = dep_edges(keys, dv);
    let n = names_with_spans.len();
    let mut graph = graph_new();
    let mut k: usize = 0;
    while k < n
        invariant
            n == names_with_spans@.len(),
            k <= n,
            graph_nodes(graph).len() == k,
            graph_edges(graph) == Set::<(int, int)>::empty(),
        decreases n - k,
    {
        graph_add_node(&mut graph, k as u64);
        k += 1;
    }
    if n == 0 {
        proof {
            assert(is_topo_order(0, target, Seq::<usize>::empty()));
        }
        return Ok(());
    }
    let mut i: usize = 0;
    while i < deps.len()
        invariant
            n == names_with_spans@.len(),
            keys == keys_of(names_with_spans@),
            dv == deps_view(deps@),
            target == dep_edges(keys, dv),
            graph_nodes(graph).len() == n,
            i <= deps@.len(),
            forall|e: (int, int)| #[trigger] graph_edges(graph).contains(e) <==> (target.contains(e) && exists|
                a: int,
                b: int,
            |
                #![trigger dv[a].1[b]]
                0 <= a < i && 0 <= b < dv[a].1.len() && last_pos(keys, dv[a].0) >= 0 && last_pos(
                    keys,
                    dv[a].1[b],
                ) >= 0 && e == (last_pos(keys, dv[a].1[b]), last_pos(keys, dv[a].0))),
        decreases deps@.len() - i,
    {
        let (name, dep_set) = (&deps[i].0, &deps[i].1);
        match find_last(names_with_spans, *name) {
            None => {
                proof {
                    assert forall|e: (int, int)| #[trigger] graph_edges(graph).contains(e) <==> (
                    target.contains(e) && exists|a: int, b: int|
                        #![trigger dv[a].1[b]]
                        0 <= a < i + 1 && 0 <= b < dv[a].1.len() && last_pos(keys, dv[a].0) >= 0
                            && last_pos(keys, dv[a].1[b]) >= 0 && e == (
                            last_pos(keys, dv[a].1[b]),
                            last_pos(keys, dv[a].0),
                        )) by {
                        assert(dv[i as int].0 == *name);
                    }
                }
            },
            Some(to) => {
                let ghost before = graph_edges(graph);
                let mut j: usize = 0;
                while j < dep_set.len()
                    invariant
                        n == names_with_spans@.len(),
                        keys == keys_of(names_with_spans@),
                        dv == deps_view(deps@),
                        target == dep_edges(keys, dv),
                        graph_nodes(graph).len() == n,
                        i < deps@.len(),
                        *dep_set == deps@[i as int].1,
                        *name == deps@[i as int].0,
                        to == last_pos(keys, *name),
                        to < n,
                        j <= dep_set@.len(),
                        forall|e: (int, int)| #[trigger] graph_edges(graph).contains(e) <==> (
                        before.contains(e) || exists|b: int|
                            0 <= b < j && last_pos(keys, dep_set@[b]) >= 0 && e == (
                                last_pos(keys, #[trigger] dep_set@[b]),
                                to as int,
                            )),
                    decreases dep_set@.len() - j,
                {
                    match find_last(names_with_spans, dep_set[j]) {
                        Some(from) => {
                            graph_add_edge(&mut graph, from, to);
                        },
                        None => {},
                    }
                    j += 1;
                }
                proof {
                    assert(dv[i as int].1 == dep_set@);
                    assert(dv[i as int].0 == *name);
                    assert forall|e: (int, int)| #[trigger] graph_edges(graph).contains(e) <==> (
                    target.contains(e) && exists|a: int, b: int|
                        #![trigger dv[a].1[b]]
                        0 <= a < i + 1 && 0 <= b < dv[a].1.len() && last_pos(keys, dv[a].0) >= 0
                            && last_pos(keys, dv[a].1[b]) >= 0 && e == (
                            last_pos(keys, dv[a].1[b]),
                            last_pos(keys, dv[a].0),
                        )) by {
                        if graph_edges(graph).contains(e) && !before.contains(e) {
                            let b = choose|b: int|
                                0 <= b < dep_set@.len() && last_pos(keys, dep_set@[b]) >= 0 && e == (
                                    last_pos(keys, #[trigger] dep_set@[b]),
                                    to as int,
                                );
                            assert(dv[i as int].1[b] == dep_set@[b]);
                            assert(target.contains(e));
                        }
                        if target.contains(e) && exists|a: int, b: int|
                            #![trigger dv[a].1[b]]
                            0 <= a < i + 1 && 0 <= b < dv[a].1.len() && last_pos(keys, dv[a].0)
                                >= 0 && last_pos(keys, dv[a].1[b]) >= 0 && e == (
                                last_pos(keys, dv[a].1[b]),
                                last_pos(keys, dv[a].0),
                            ) {
                            let (a, b) = choose|a: int, b: int|
                                #![trigger dv[a].1[b]]
                                0 <= a < i + 1 && 0 <= b < dv[a].1.len() && last_pos(keys, dv[a].0)
                                    >= 0 && last_pos(keys, dv[a].1[b]) >= 0 && e == (
                                    last_pos(keys, dv[a].1[b]),
                                    last_pos(keys, dv[a].0),
                                );
                            if a == i {
                                assert(dep_set@[b] == dv[a].1[b]);
                            }
                        }
                    }
                }
            },
        }
        i += 1;
    }
    proof {
        assert forall|e: (int, int)| #[trigger] graph_edges(graph).contains(e) <==> target.contains(e) by {
            if target.contains(e) {
                let (a, b) = choose|a: int, b: int|
                    #![trigger dv[a].1[b]]
                    0 <= a < dv.len() && 0 <= b < dv[a].1.len() && last_pos(keys, dv[a].0) >= 0
                        && last_pos(keys, dv[a].1[b]) >= 0 && e == (
                        last_pos(keys, dv[a].1[b]),
                        last_pos(keys, dv[a].0),
                    );
            }
        }
        assert(graph_edges(graph) =~= target);
        assert forall|e: (int, int)| #[trigger] target.contains(e) implies 0 <= e.0 < n && 0 <= e.1 < n by {
            let (a, b) = choose|a: int, b: int|
                #![trigger dv[a].1[b]]
                0 <= a < dv.len() && 0 <= b < dv[a].1.len() && last_pos(keys, dv[a].0) >= 0
                    && last_pos(keys, dv[a].1[b]) >= 0 && e == (
                    last_pos(keys, dv[a].1[b]),
                    last_pos(keys, dv[a].0),
                );
            lemma_last_pos(keys, dv[a].0);
            lemma_last_pos(keys, dv[a].1[b]);
        }
    }
    match graph_toposort(&graph) {
        Ok(order) => {
            proof {
                assert(is_topo_order(n as nat, target, order@));
            }
            Ok(())
        },
        Err(c) => {
            proof {
                lemma_cycle_no_topo_order(n as nat, target, c as int);
            }
            let (name, span) = names_with_spans[c];
            Err(CyclicDependency { name, span })
        },
    }
}

/// The declarations of one DAG with their dependency sets.
#[derive(Debug)]
pub struct DagDeclarations {
    pub consts: Vec<(ResolvedName, Span)>,
    pub params: Vec<(ResolvedName, Span)>,
    pub nodes: Vec<(ResolvedName, Span)>,
    /// For each constant, the constants it reads.
    pub const_deps: Vec<(ResolvedName, Vec<ResolvedName>)>,
    /// For each param or node, the params and nodes it reads.
    pub runtime_deps: Vec<(ResolvedName, Vec<ResolvedName>)>,
}

/// The dependency graph among `names` has no cycle.
pub open spec fn decls_acyclic(
    names: Seq<(ResolvedName, Span)>,
    deps: Seq<(ResolvedName, Vec<ResolvedName>)>,
) -> bool {
    has_topo_order(names.len(), dep_edges(keys_of(names), deps_view(deps)))
}

/// The reported declaration is one of `names` and lies on a cycle.
pub open spec fn reported_on_cycle(
    names: Seq<(ResolvedName, Span)>,
    deps: Seq<(ResolvedName, Vec<ResolvedName>)>,
    e: CyclicDependency,
) -> bool {
    exists|i: int|
        0 <= i < names.len() && names[i] == (e.name, e.span) && on_cycle(
            dep_edges(keys_of(names), deps_view(deps)),
            i,
        )
}

/// A DAG's constants are acyclic among themselves, and so are its params and
/// nodes taken together.
pub open spec fn dag_acyclic(d: DagDeclarations) -> bool {
    decls_acyclic(d.consts@, d.const_deps@) && decls_acyclic(d.params@ + d.nodes@, d.runtime_deps@)
}

/// Reject cyclic declarations in every DAG, constants first, then params and
/// nodes, DAG by DAG; the error names one declaration on a cycle of the first
/// DAG that has one.
pub fn detect_decl_cycles(dags: &Vec<DagDeclarations>) -> (r: Result<(), CyclicDependency>)
    ensures
        r is Ok <==> forall|k: int| 0 <= k < dags@.len() ==> #[trigger] dag_acyclic(dags@[k]),
        r matches Err(e) ==> exists|k: int|
            0 <= k < dags@.len() && (forall|j: int| 0 <= j < k ==> #[trigger] dag_acyclic(dags@[j]))
                && !dag_acyclic(dags@[k]) && if decls_acyclic(dags@[k].consts@, dags@[k].const_deps@) {
                reported_on_cycle(dags@[k].params@ + dags@[k].nodes@, dags@[k].runtime_deps@, e)
            } else {
                reported_on_cycle(dags@[k].consts@, dags@[k].const_deps@, e)
            },
{
    let mut k: usize = 0;
    while k < dags.len()
        invariant
            k <= dags@.len(),
            forall|j: int| 0 <= j < k ==> #[trigger] dag_acyclic(dags@[j]),
        decreases dags@.len() - k,
    {
        let dag = &dags[k];
        match check_resolved(&dag.consts, &dag.const_deps) {
            Err(e) => {
                proof {
                    assert(!dag_acyclic(dags@[k as int]));
                }
                return Err(e);
            },
            Ok(()) => {},
        }
        let mut values: Vec<(ResolvedName, Span)> = Vec::new();
        let mut i: usize = 0;
        while i < dag.params.len()
            invariant
                i <= dag.params@.len(),
                values@ == dag.params@.subrange(0, i as int),
            decreases dag.params@.len() - i,
        {
            values.push(dag.params[i]);
            i += 1;
            proof {
                assert(values@ =~= dag.params@.subrange(0, i as int));
            }
        }
        let mut j: usize = 0;
        while j < dag.nodes.len()
            invariant
                j <= dag.nodes@.len(),
                values@ == dag.params@ + dag.nodes@.subrange(0, j as int),
            decreases dag.nodes@.len() - j,
        {
            values.push(dag.nodes[j]);
            j += 1;
            proof {
                assert(values@ =~= dag.params@ + dag.nodes@.subrange(0, j as int));
            }
        }
        proof {
            assert(dag.params@.subrange(0, dag.params@.len() as int) =~= dag.params@);
            assert(dag.nodes@.subrange(0, dag.nodes@.len() as int) =~= dag.nodes@);
            assert(values@ =~= dag.params@ + dag.nodes@);
        }
        match check_resolved(&values, &dag.runtime_deps) {
            Err(e) => {
                proof {
                    assert(!dag_acyclic(dags@[k as int]));
                }
                return Err(e);
            },
            Ok(()) => {},
        }
        k += 1;
    }
    Ok(())
}

} // verus!
