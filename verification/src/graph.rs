//! The dependency graph of a workflow, held in a `petgraph` graph whose
//! node weights are task positions.
use vstd::prelude::*;
use petgraph::graph::{Graph, NodeIndex};
use petgraph::Directed;

verus! {

#[verifier::external_type_specification]
#[verifier::external_body]
#[verifier::reject_recursive_types(N)]
#[verifier::reject_recursive_types(E)]
#[verifier::reject_recursive_types(Ty)]
#[verifier::reject_recursive_types(Ix)]
pub struct ExGraph<N, E, Ty, Ix>(Graph<N, E, Ty, Ix>);

#[verifier::external_type_specification]
#[verifier::external_body]
pub struct ExDirected(Directed);

/// The node weights of a task graph, in node-index order.
pub uninterp spec fn graph_nodes(g: Graph<usize, (), Directed, usize>) -> Seq<usize>;

/// The edges (source index, target index) of a task graph, in insertion
/// order.
pub uninterp spec fn graph_edges(g: Graph<usize, (), Directed, usize>) -> Seq<(usize, usize)>;

/// The node order that `petgraph::algo::toposort` returns for a graph of
/// `node_count` nodes and the given edges, or `None` where it reports a
/// cycle.
pub uninterp spec fn petgraph_toposort(node_count: nat, edges: Seq<(usize, usize)>) -> Option<Seq<usize>>;

/// `order` lists every node of a graph of `node_count` nodes exactly once,
/// each before its successors.
pub open spec fn is_topological_order(order: Seq<usize>, node_count: nat, edges: Seq<(usize, usize)>) -> bool {
    &&& order.len() == node_count
    &&& forall|i: int| 0 <= i < order.len() ==> #[trigger] order[i] < node_count
    &&& forall|i: int, j: int| 0 <= i < j < order.len() ==> order[i] != order[j]
    &&& forall|e: int|
        0 <= e < edges.len() ==> exists|i: int, j: int|
            0 <= i < j < order.len() && order[i] == (#[trigger] edges[e]).0 && order[j] == edges[e].1
}

/// The graph has no cycle: some order puts every node before its
/// successors.
pub open spec fn is_acyclic(node_count: nat, edges: Seq<(usize, usize)>) -> bool {
    exists|order: Seq<usize>| is_topological_order(order, node_count, edges)
}

/// `Graph::default()`: a graph without nodes or edges.
#[verifier::external_body]
pub(crate) fn new_task_graph() -> (g: Graph<usize, (), Directed, usize>)
    ensures
        graph_nodes(g) == Seq::<usize>::empty(),
        graph_edges(g) == Seq::<(usize, usize)>::empty(),
{
    Graph::default()
}

/// `Graph::add_node`: appends a node with the given weight and returns its
/// index (with `usize` indices it never runs out of them).
#[verifier::external_body]
pub(crate) fn add_task_node(g: &mut Graph<usize, (), Directed, usize>, weight: usize) -> (i: usize)
    ensures
        graph_nodes(*final(g)) == graph_nodes(*old(g)).push(weight),
        graph_edges(*final(g)) == graph_edges(*old(g)),
        i == graph_nodes(*old(g)).len(),
{
    g.add_node(weight).index()
}

/// `Graph::add_edge`: appends an edge between two existing nodes (it panics
/// on an index out of bounds, which `requires` rules out).
#[verifier::external_body]
pub(crate) fn add_task_edge(g: &mut Graph<usize, (), Directed, usize>, from: usize, to: usize)
    requires
        from < graph_nodes(*old(g)).len(),
        to < graph_nodes(*old(g)).len(),
    ensures
        graph_nodes(*final(g)) == graph_nodes(*old(g)),
        graph_edges(*final(g)) == graph_edges(*old(g)).push((from, to)),
{
    g.add_edge(NodeIndex::new(from), NodeIndex::new(to), ());
}

/// `petgraph::algo::toposort(g, None)`, with node indices as positions.
/// Claims what its documentation states: an order it returns lists every
/// node once, each before its successors; it reports a cycle only for a
/// graph that has one. Which order it picks is named, not stated.
#[verifier::external_body]
pub(crate) fn toposort_task_graph(g: &Graph<usize, (), Directed, usize>) -> (r: Option<Vec<usize>>)
    ensures
        match r {
            Some(order) => {
                &&& petgraph_toposort(graph_nodes(*g).len(), graph_edges(*g)) == Some(order@)
                &&& is_topological_order(order@, graph_nodes(*g).len(), graph_edges(*g))
            },
            None => {
                &&& petgraph_toposort(graph_nodes(*g).len(), graph_edges(*g)) is None
                &&& !is_acyclic(graph_nodes(*g).len(), graph_edges(*g))
            },
        },
{
    petgraph::algo::toposort(g, None).ok().map(|v| v.into_iter().map(|n| n.index()).collect())
}

} // verus!
