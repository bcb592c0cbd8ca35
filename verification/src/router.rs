//! Fee-aware routing over the channel graph.

use crate::channel::{edge_position, has_edge, joins, lemma_edge_position};
use crate::graph::{ChannelGraph, GraphView};
use crate::indexer::NodeId;
use crate::search::{
    astar_outcome, cheapest_path, is_walk, linked, links, outcome_view, single_links,
    walk_cost, WeightedEdge,
};
use adjacent_pair_iterator::AdjacentPairIterator;
use vstd::prelude::*;

verus! {

/// An edge named by its endpoints, source first.
pub type Hop = (NodeId, NodeId);

/// The hops of a path: each node paired with the one after it.
pub open spec fn hops(path: Seq<NodeId>) -> Seq<Hop> {
    Seq::new(
        if path.len() > 0 {
            (path.len() - 1) as nat
        } else {
            0nat
        },
        |i: int| (path[i], path[i + 1]),
    )
}

/// `adjacent_pairs` of the `adjacent-pair-iterator` crate, collected: every
/// node of `path` but the last, paired with its successor, in path order. A
/// path of fewer than two nodes has no pairs.
#[verifier::external_body]
pub(crate) fn adjacent_pairs(path: &Vec<NodeId>) -> (pairs: Vec<Hop>)
    ensures
        pairs@ == hops(path@),
{
    path.clone().into_iter().adjacent_pairs().collect()
}

/// The hops of `path`, in path order.
pub fn path_hops(path: &Vec<NodeId>) -> (pairs: Vec<Hop>)
    ensures
        pairs@ == hops(path@),
{
    adjacent_pairs(path)
}

/// The first `n` edges of the graph that are not excluded, each with its
/// routing weight, in edge order.
pub open spec fn search_edges(view: GraphView, excluded: Seq<Hop>, n: int) -> Seq<WeightedEdge>
    decreases n,
{
    if n <= 0 {
        Seq::empty()
    } else {
        let rest = search_edges(view, excluded, n - 1);
        let edge = view.edges[n - 1];
        if excluded.contains((edge.src, edge.trg)) {
            rest
        } else {
            rest.push((edge.src, edge.trg, view.weight(n - 1)))
        }
    }
}

/// `path` is a route from `src` to `trg`: at least two nodes, none twice,
/// from `src` to `trg`, along edges of the graph that are not excluded.
pub open spec fn valid_route(
    view: GraphView,
    excluded: Seq<Hop>,
    src: NodeId,
    trg: NodeId,
    path: Seq<NodeId>,
) -> bool {
    &&& path.len() >= 2
    &&& path[0] == src
    &&& path.last() == trg
    &&& path.no_duplicates()
    &&& forall|i: int|
        0 <= i < hops(path).len() ==> has_edge(
            view.edges,
            (#[trigger] hops(path)[i]).0,
            hops(path)[i].1,
        ) && !excluded.contains(hops(path)[i])
}

/// The route taken from a search result: the path it found, if that is a
/// route.
pub open spec fn route_of(
    view: GraphView,
    excluded: Seq<Hop>,
    src: NodeId,
    trg: NodeId,
    found: Option<(u128, Seq<NodeId>)>,
) -> Option<Seq<NodeId>> {
    match found {
        Some((_, path)) => if valid_route(view, excluded, src, trg, path) {
            Some(path)
        } else {
            None
        },
        None => None,
    }
}

/// The route from `src` to `trg` that avoids `excluded`. There is none when
/// the endpoints coincide or one of them is no node of the graph; otherwise
/// it is what the search over the remaining edges yields.
pub open spec fn route_spec(view: GraphView, src: NodeId, trg: NodeId, excluded: Seq<Hop>) -> Option<
    Seq<NodeId>,
> {
    if src == trg || !view.has_node(src) || !view.has_node(trg) {
        None
    } else {
        route_of(
            view,
            excluded,
            src,
            trg,
            astar_outcome(search_edges(view, excluded, view.edges.len() as int), src, trg),
        )
    }
}

/// The mathematical value of an optional path.
pub open spec fn path_view(path: Option<Vec<NodeId>>) -> Option<Seq<NodeId>> {
    match path {
        Some(nodes) => Some(nodes@),
        None => None,
    }
}

/// What the search sees of the first `n` edges: exactly those that are not
/// excluded, each once and with its routing weight.
pub proof fn lemma_search_edges(view: GraphView, excluded: Seq<Hop>, n: int)
    requires
        view.valid(),
        0 <= n <= view.edges.len(),
    ensures
        search_edges(view, excluded, n).len() <= n,
        single_links(search_edges(view, excluded, n)),
        forall|k: int|
            0 <= k < search_edges(view, excluded, n).len() ==> {
                let e = #[trigger] search_edges(view, excluded, n)[k];
                &&& has_edge(view.edges, e.0, e.1)
                &&& edge_position(view.edges, e.0, e.1) < n
                &&& e.2 == view.weight(edge_position(view.edges, e.0, e.1))
                &&& !excluded.contains((e.0, e.1))
            },
        forall|i: int|
            0 <= i < n && !excluded.contains(((#[trigger] view.edges[i]).src, view.edges[i].trg))
                ==> linked(search_edges(view, excluded, n), view.edges[i].src, view.edges[i].trg),
    decreases n,
{
    if n > 0 {
        lemma_search_edges(view, excluded, n - 1);
        let rest = search_edges(view, excluded, n - 1);
        let all = search_edges(view, excluded, n);
        let edge = view.edges[n - 1];
        lemma_edge_position(view.edges, n - 1, edge.src, edge.trg);
        if excluded.contains((edge.src, edge.trg)) {
            assert(all == rest);
            assert forall|i: int|
                0 <= i < n && !excluded.contains(
                    ((#[trigger] view.edges[i]).src, view.edges[i].trg),
                ) implies linked(all, view.edges[i].src, view.edges[i].trg) by {
                assert(i < n - 1);
            }
        } else {
            let added = (edge.src, edge.trg, view.weight(n - 1));
            assert(all == rest.push(added));
            assert forall|k: int| 0 <= k < all.len() implies {
                let e = #[trigger] all[k];
                &&& has_edge(view.edges, e.0, e.1)
                &&& edge_position(view.edges, e.0, e.1) < n
                &&& e.2 == view.weight(edge_position(view.edges, e.0, e.1))
                &&& !excluded.contains((e.0, e.1))
            } by {
                if k < rest.len() {
                    assert(all[k] == rest[k]);
                }
            }
            assert forall|i: int, j: int| 0 <= i < j < all.len() implies !(all[i].0 == all[j].0
                && all[i].1 == all[j].1) by {
                if j == rest.len() {
                    assert(all[i] == rest[i]);
                    assert(edge_position(view.edges, rest[i].0, rest[i].1) < n - 1);
                } else {
                    assert(all[i] == rest[i] && all[j] == rest[j]);
                }
            }
            assert forall|i: int|
                0 <= i < n && !excluded.contains(
                    ((#[trigger] view.edges[i]).src, view.edges[i].trg),
                ) implies linked(all, view.edges[i].src, view.edges[i].trg) by {
                if i < n - 1 {
                    let k = choose|k: int| links(rest, k, view.edges[i].src, view.edges[i].trg);
                    assert(links(all, k, view.edges[i].src, view.edges[i].trg));
                } else {
                    assert(links(all, rest.len() as int, edge.src, edge.trg));
                }
            }
        }
    }
}

/// The summed routing weight of the edges that `path` runs along.
pub open spec fn route_weight(view: GraphView, path: Seq<NodeId>) -> int
    decreases path.len(),
{
    if path.len() <= 1 {
        0
    } else {
        route_weight(view, path.drop_last()) + view.weight(
            edge_position(view.edges, path[path.len() - 2], path[path.len() - 1]),
        )
    }
}

/// The edges handed to the search when `excluded` is to be avoided.
pub open spec fn searched(view: GraphView, excluded: Seq<Hop>) -> Seq<WeightedEdge> {
    search_edges(view, excluded, view.edges.len() as int)
}

/// Along edges that the search sees, the cost it sums is the routing weight.
pub proof fn lemma_walk_cost(view: GraphView, excluded: Seq<Hop>, nodes: Seq<NodeId>)
    requires
        view.valid(),
        forall|i: int|
            0 <= i < nodes.len() - 1 ==> linked(
                searched(view, excluded),
                #[trigger] nodes[i],
                nodes[i + 1],
            ),
    ensures
        walk_cost(searched(view, excluded), nodes) == route_weight(view, nodes),
    decreases nodes.len(),
{
    if nodes.len() > 1 {
        let edges = searched(view, excluded);
        let shorter = nodes.drop_last();
        assert forall|i: int| 0 <= i < shorter.len() - 1 implies linked(
            edges,
            #[trigger] shorter[i],
            shorter[i + 1],
        ) by {
            assert(shorter[i] == nodes[i] && shorter[i + 1] == nodes[i + 1]);
        }
        lemma_walk_cost(view, excluded, shorter);
        let a = nodes[nodes.len() - 2];
        let b = nodes[nodes.len() - 1];
        assert(linked(edges, a, b));
        let k = choose|k: int| links(edges, k, a, b);
        lemma_search_edges(view, excluded, view.edges.len() as int);
        assert(edges[k].2 == view.weight(edge_position(view.edges, edges[k].0, edges[k].1)));
    }
}

/// A route is a walk over the edges that the search sees.
pub proof fn lemma_route_is_walk(
    view: GraphView,
    excluded: Seq<Hop>,
    src: NodeId,
    trg: NodeId,
    path: Seq<NodeId>,
)
    requires
        view.valid(),
        valid_route(view, excluded, src, trg, path),
    ensures
        is_walk(searched(view, excluded), path, src, trg),
        walk_cost(searched(view, excluded), path) == route_weight(view, path),
{
    let edges = searched(view, excluded);
    lemma_search_edges(view, excluded, view.edges.len() as int);
    assert forall|i: int| 0 <= i < path.len() - 1 implies linked(
        edges,
        #[trigger] path[i],
        path[i + 1],
    ) by {
        assert(hops(path)[i] == (path[i], path[i + 1]));
        let at = edge_position(view.edges, path[i], path[i + 1]);
        assert(joins(view.edges, at, path[i], path[i + 1]));
        assert(!excluded.contains((view.edges[at].src, view.edges[at].trg)));
    }
    lemma_walk_cost(view, excluded, path);
}

/// A walk over the edges that the search sees, between two different nodes
/// and without a repeated node, is a route.
pub proof fn lemma_walk_is_route(
    view: GraphView,
    excluded: Seq<Hop>,
    src: NodeId,
    trg: NodeId,
    nodes: Seq<NodeId>,
)
    requires
        view.valid(),
        src != trg,
        nodes.no_duplicates(),
        is_walk(searched(view, excluded), nodes, src, trg),
    ensures
        valid_route(view, excluded, src, trg, nodes),
{
    let edges = searched(view, excluded);
    lemma_search_edges(view, excluded, view.edges.len() as int);
    assert forall|i: int| 0 <= i < hops(nodes).len() implies has_edge(
        view.edges,
        (#[trigger] hops(nodes)[i]).0,
        hops(nodes)[i].1,
    ) && !excluded.contains(hops(nodes)[i]) by {
        let a = nodes[i];
        let b = nodes[i + 1];
        assert(linked(edges, a, b));
        let k = choose|k: int| links(edges, k, a, b);
        assert(has_edge(view.edges, edges[k].0, edges[k].1));
    }
}

/// Whether the edge from `src` to `trg` is among `excluded`.
pub fn is_excluded(excluded: &Vec<Hop>, src: NodeId, trg: NodeId) -> (hit: bool)
    ensures
        hit == excluded@.contains((src, trg)),
{
    let mut i: usize = 0;
    while i < excluded.len()
        invariant
            i <= excluded@.len(),
            forall|k: int| 0 <= k < i ==> excluded@[k] != (src, trg),
        decreases excluded@.len() - i,
    {
        let hop: Hop = excluded[i];
        if hop.0 == src && hop.1 == trg {
            return true;
        }
        i += 1;
    }
    false
}

/// The edges handed to the search: those not excluded, with their weights.
pub fn routable_edges(graph: &ChannelGraph, excluded: &Vec<Hop>) -> (edges: Vec<WeightedEdge>)
    requires
        graph.wf(),
    ensures
        edges@ == search_edges(graph@, excluded@, graph@.edges.len() as int),
        edges@.len() <= graph@.edges.len(),
        single_links(edges@),
        forall|i: int|
            0 <= i < edges@.len() ==> (#[trigger] edges@[i]).0 < graph@.nodes && edges@[i].1
                < graph@.nodes,
{
    proof {
        lemma_search_edges(graph@, excluded@, graph@.edges.len() as int);
    }
    let mut edges: Vec<WeightedEdge> = Vec::new();
    let n: usize = graph.edge_count();
    let mut i: usize = 0;
    while i < n
        invariant
            i <= n,
            n == graph@.edges.len(),
            graph.wf(),
            edges@ == search_edges(graph@, excluded@, i as int),
            edges@.len() <= i,
            forall|k: int|
                0 <= k < edges@.len() ==> (#[trigger] edges@[k]).0 < graph@.nodes && edges@[k].1
                    < graph@.nodes,
        decreases n - i,
    {
        let edge = graph.edge(i);
        if !is_excluded(excluded, edge.src, edge.trg) {
            assert(graph@.edges[i as int].src < graph@.nodes && graph@.edges[i as int].trg
                < graph@.nodes);
            edges.push((edge.src, edge.trg, graph.weight_at(i)));
        }
        i += 1;
    }
    edges
}

/// Whether no node occurs twice in `path`.
pub fn is_simple(path: &Vec<NodeId>) -> (simple: bool)
    ensures
        simple == path@.no_duplicates(),
{
    let n: usize = path.len();
    let mut i: usize = 0;
    while i < n
        invariant
            i <= n,
            n == path@.len(),
            forall|a: int, b: int| 0 <= a < i && a < b < n ==> path@[a] != path@[b],
        decreases n - i,
    {
        let mut j: usize = i + 1;
        while j < n
            invariant
                i < n,
                i < j <= n,
                n == path@.len(),
                forall|b: int| i < b < j ==> path@[i as int] != path@[b],
            decreases n - j,
        {
            if path[i] == path[j] {
                assert(!path@.no_duplicates());
                return false;
            }
            j += 1;
        }
        i += 1;
    }
    assert forall|a: int, b: int| 0 <= a < n && 0 <= b < n && a != b implies path@[a]
        != path@[b] by {
        if a < b {
            assert(path@[a] != path@[b]);
        } else {
            assert(path@[b] != path@[a]);
        }
    }
    true
}

/// Whether `path` is a route from `src` to `trg` that avoids `excluded`.
pub fn check_route(
    graph: &ChannelGraph,
    excluded: &Vec<Hop>,
    src: NodeId,
    trg: NodeId,
    path: &Vec<NodeId>,
) -> (ok: bool)
    requires
        graph.wf(),
    ensures
        ok == valid_route(graph@, excluded@, src, trg, path@),
{
    let n: usize = path.len();
    if n < 2 || path[0] != src || path[n - 1] != trg {
        return false;
    }
    if !is_simple(path) {
        return false;
    }
    let pairs = path_hops(path);
    let mut i: usize = 0;
    while i < pairs.len()
        invariant
            i <= pairs@.len(),
            pairs@ == hops(path@),
            graph.wf(),
            forall|k: int|
                0 <= k < i ==> has_edge(graph@.edges, (#[trigger] hops(path@)[k]).0, hops(path@)[k].1)
                    && !excluded@.contains(hops(path@)[k]),
        decreases pairs@.len() - i,
    {
        let hop: Hop = pairs[i];
        if graph.find(hop.0, hop.1).is_none() || is_excluded(excluded, hop.0, hop.1) {
            assert(!(has_edge(graph@.edges, hops(path@)[i as int].0, hops(path@)[i as int].1)
                && !excluded@.contains(hops(path@)[i as int])));
            return false;
        }
        i += 1;
    }
    true
}

/// Takes the route out of a search result: the path found, provided it is
/// a route from `src` to `trg` that avoids `excluded`.
pub fn accept_route(
    graph: &ChannelGraph,
    excluded: &Vec<Hop>,
    src: NodeId,
    trg: NodeId,
    found: Option<(u128, Vec<NodeId>)>,
) -> (route: Option<Vec<NodeId>>)
    requires
        graph.wf(),
    ensures
        path_view(route) == route_of(
            graph@,
            excluded@,
            src,
            trg,
            outcome_view(found),
        ),
{
    match found {
        Some((_, path)) => {
            if check_route(graph, excluded, src, trg, &path) {
                Some(path)
            } else {
                None
            }
        },
        None => None,
    }
}

/// Finds a cheapest route from `src` to `trg` that uses none of the
/// `excluded` edges, ranking edges by their routing weight. Returns `None`
/// when the endpoints coincide, when one of them is no node of the graph,
/// or when no route exists. Among several cheapest routes the search
/// decides.
pub fn route(graph: &ChannelGraph, src: NodeId, trg: NodeId, excluded: &Vec<Hop>) -> (found: Option<
    Vec<NodeId>,
>)
    requires
        graph.wf(),
    ensures
        path_view(found) == route_spec(graph@, src, trg, excluded@),
        match found {
            Some(path) => {
                &&& valid_route(graph@, excluded@, src, trg, path@)
                &&& forall|other: Seq<NodeId>| #[trigger]
                    valid_route(graph@, excluded@, src, trg, other) ==> route_weight(
                        graph@,
                        path@,
                    ) <= route_weight(graph@, other)
            },
            None => {
                ||| src == trg
                ||| !graph@.has_node(src)
                ||| !graph@.has_node(trg)
                ||| forall|other: Seq<NodeId>| !#[trigger] valid_route(
                    graph@,
                    excluded@,
                    src,
                    trg,
                    other,
                )
            },
        },
{
    if src == trg || src >= graph.node_count() || trg >= graph.node_count() {
        return None;
    }
    let edges = routable_edges(graph, excluded);
    let found = cheapest_path(&edges, src, trg);
    proof {
        assert forall|other: Seq<NodeId>| #[trigger]
            valid_route(graph@, excluded@, src, trg, other) implies is_walk(
            edges@,
            other,
            src,
            trg,
        ) && walk_cost(edges@, other) == route_weight(graph@, other) by {
            lemma_route_is_walk(graph@, excluded@, src, trg, other);
        }
        if let Some((_, nodes)) = outcome_view(found) {
            lemma_walk_is_route(graph@, excluded@, src, trg, nodes);
            lemma_route_is_walk(graph@, excluded@, src, trg, nodes);
        }
    }
    accept_route(graph, excluded, src, trg, found)
}

} // verus!
