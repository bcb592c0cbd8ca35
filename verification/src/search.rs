//! Shortest-path search, delegated to `petgraph`.

use petgraph::algo::astar;
use petgraph::graph::node_index;
use petgraph::graph::Graph;
use petgraph::Directed;
use vstd::prelude::*;

verus! {

/// `petgraph::graph::Graph`, carried as an opaque value from the call that
/// builds it to the search.
#[verifier::external_type_specification]
#[verifier::external_body]
#[verifier::reject_recursive_types(N)]
#[verifier::reject_recursive_types(E)]
#[verifier::reject_recursive_types(Ty)]
#[verifier::reject_recursive_types(Ix)]
pub struct ExGraph<N, E, Ty, Ix>(Graph<N, E, Ty, Ix>);

/// `petgraph::Directed`, the marker of graphs with directed edges.
#[verifier::external_type_specification]
#[verifier::external_body]
pub struct ExDirected(Directed);

/// A weighted directed edge as handed to the search: source, target, weight.
pub type WeightedEdge = (u32, u32, u64);

/// The edges a search graph holds, in the order they were added.
pub uninterp spec fn graph_edges(g: Graph<(), u64, Directed, u32>) -> Seq<WeightedEdge>;

/// What `petgraph::algo::astar` with a zero heuristic returns on a graph
/// holding `edges`: the total weight and the nodes of the path it picked
/// from `start` to `goal`, or `None` when it found none.
pub uninterp spec fn astar_outcome(edges: Seq<WeightedEdge>, start: u32, goal: u32) -> Option<
    (u128, Seq<u32>),
>;

/// The mathematical value of a search result.
pub open spec fn outcome_view(found: Option<(u128, Vec<u32>)>) -> Option<(u128, Seq<u32>)> {
    match found {
        Some((cost, nodes)) => Some((cost, nodes@)),
        None => None,
    }
}

/// `edges[i]` leads from `a` to `b`.
pub open spec fn links(edges: Seq<WeightedEdge>, i: int, a: u32, b: u32) -> bool {
    0 <= i < edges.len() && edges[i].0 == a && edges[i].1 == b
}

/// Some edge leads from `a` to `b`.
pub open spec fn linked(edges: Seq<WeightedEdge>, a: u32, b: u32) -> bool {
    exists|i: int| links(edges, i, a, b)
}

/// The weight of the edge from `a` to `b`; meaningful when there is one.
pub open spec fn link_weight(edges: Seq<WeightedEdge>, a: u32, b: u32) -> u64 {
    edges[choose|i: int| links(edges, i, a, b)].2
}

/// No two edges share both endpoints.
pub open spec fn single_links(edges: Seq<WeightedEdge>) -> bool {
    forall|i: int, j: int|
        0 <= i < j < edges.len() ==> !(edges[i].0 == edges[j].0 && edges[i].1 == edges[j].1)
}

/// `nodes` leads from `start` to `goal` along edges.
pub open spec fn is_walk(edges: Seq<WeightedEdge>, nodes: Seq<u32>, start: u32, goal: u32) -> bool {
    &&& nodes.len() >= 1
    &&& nodes[0] == start
    &&& nodes.last() == goal
    &&& forall|i: int| 0 <= i < nodes.len() - 1 ==> linked(edges, #[trigger] nodes[i], nodes[i + 1])
}

/// The summed weight of the edges that `nodes` runs along.
pub open spec fn walk_cost(edges: Seq<WeightedEdge>, nodes: Seq<u32>) -> int
    decreases nodes.len(),
{
    if nodes.len() <= 1 {
        0
    } else {
        walk_cost(edges, nodes.drop_last()) + link_weight(
            edges,
            nodes[nodes.len() - 2],
            nodes[nodes.len() - 1],
        )
    }
}

/// `outcome` is a cheapest way from `start` to `goal`: a walk without a
/// repeated node, with its cost, which no other walk undercuts; or `None`
/// when there is no walk at all.
pub open spec fn is_cheapest(
    edges: Seq<WeightedEdge>,
    start: u32,
    goal: u32,
    outcome: Option<(u128, Seq<u32>)>,
) -> bool {
    match outcome {
        Some((cost, nodes)) => {
            &&& is_walk(edges, nodes, start, goal)
            &&& nodes.no_duplicates()
            &&& cost == walk_cost(edges, nodes)
            &&& forall|other: Seq<u32>| #[trigger]
                is_walk(edges, other, start, goal) ==> cost <= walk_cost(edges, other)
        },
        None => forall|other: Seq<u32>| !#[trigger] is_walk(edges, other, start, goal),
    }
}

/// `Graph::from_edges`: builds a graph holding exactly `edges`, in order.
/// Node and edge indices are 32-bit, and the largest index is reserved, so
/// the call is limited to inputs that stay below it.
#[verifier::external_body]
pub(crate) fn graph_from_edges(edges: &Vec<WeightedEdge>) -> (g: Graph<(), u64, Directed, u32>)
    requires
        edges@.len() < u32::MAX,
        forall|i: int| 0 <= i < edges@.len() ==> edges@[i].0 < u32::MAX && edges@[i].1 < u32::MAX,
    ensures
        graph_edges(g) == edges@,
{
    Graph::from_edges(edges)
}

/// `petgraph::algo::astar` from `start` towards `goal` with the edge weights
/// as costs and a zero estimate, on a graph without parallel edges. Costs
/// are summed in 128 bits, so no sum of 64-bit weights along a path can
/// overflow.
///
/// With a zero estimate the search is Dijkstra's: it returns a path of
/// least total weight together with that weight, or `None` when the goal
/// cannot be reached. The path is read off the search tree by following
/// each node to its one predecessor up to the start, so it visits no node
/// twice. Which of several cheapest paths is returned depends on the order
/// of the edges alone; that choice is what `astar_outcome` names.
#[verifier::external_body]
pub(crate) fn astar_search(g: &Graph<(), u64, Directed, u32>, start: u32, goal: u32) -> (found:
    Option<(u128, Vec<u32>)>)
    requires
        single_links(graph_edges(*g)),
    ensures
        outcome_view(found) == astar_outcome(graph_edges(*g), start, goal),
        is_cheapest(graph_edges(*g), start, goal, outcome_view(found)),
{
    let target = node_index(goal as usize);
    let hit = astar(g, node_index(start as usize), |n| n == target, |e| *e.weight() as u128, |_| 0u128);
    hit.map(|(cost, nodes)| (cost, nodes.into_iter().map(|n| n.index() as u32).collect()))
}

/// Searches `edges` for a cheapest path from `start` to `goal`. Returns its
/// total weight and its nodes, or `None` when `goal` cannot be reached.
pub fn cheapest_path(edges: &Vec<WeightedEdge>, start: u32, goal: u32) -> (found: Option<
    (u128, Vec<u32>),
>)
    requires
        edges@.len() < u32::MAX,
        forall|i: int| 0 <= i < edges@.len() ==> edges@[i].0 < u32::MAX && edges@[i].1 < u32::MAX,
        single_links(edges@),
    ensures
        outcome_view(found) == astar_outcome(edges@, start, goal),
        is_cheapest(edges@, start, goal, outcome_view(found)),
{
    let g = graph_from_edges(edges);
    astar_search(&g, start, goal)
}

} // verus!
