//! The channel graph: aggregated edges with one balance per direction.

use crate::channel::{edge_position, has_edge, joins, unique_pairs, ChannelEdge, EdgeTable};
use crate::fees::{fee_for, fee_weight};
use crate::indexer::NodeId;
use crate::random::{nth_ratio, state_after, RandomSource};
use crate::snapshot::endpoints_below;
use vstd::prelude::*;

verus! {

/// The share of `capacity` that the drawn `ratio` gives the drawing side.
pub open spec fn forward_share(capacity: u64, ratio: u8) -> int {
    ratio as int * capacity as int / 100
}

/// The share of `capacity` that a `ratio` drawn for the opposite direction
/// leaves to this side.
pub open spec fn reverse_share(capacity: u64, ratio: u8) -> int {
    capacity as int * (100 - ratio as int) / 100
}

/// Edge `i` draws the ratio of its channel: it has no opposite edge, or
/// comes no later than it.
pub open spec fn draws(edges: Seq<ChannelEdge>, i: int) -> bool {
    !has_edge(edges, edges[i].trg, edges[i].src) || edge_position(
        edges,
        edges[i].trg,
        edges[i].src,
    ) >= i
}

/// How many of the first `i` edges draw.
pub open spec fn draws_before(edges: Seq<ChannelEdge>, i: int) -> nat
    decreases i,
{
    if i <= 0 {
        0
    } else {
        draws_before(edges, i - 1) + if draws(edges, i - 1) {
            1nat
        } else {
            0nat
        }
    }
}

/// The ratio that governs edge `i`: its own draw, or the draw of the
/// opposite edge that came before it.
pub open spec fn channel_ratio(edges: Seq<ChannelEdge>, seed: u64, i: int) -> u8 {
    if draws(edges, i) {
        nth_ratio(seed, draws_before(edges, i))
    } else {
        nth_ratio(seed, draws_before(edges, edge_position(edges, edges[i].trg, edges[i].src)))
    }
}

/// The balance edge `i` starts with when ratios come from a source seeded
/// with `seed`.
pub open spec fn initial_balance(edges: Seq<ChannelEdge>, seed: u64, i: int) -> int {
    if draws(edges, i) {
        forward_share(edges[i].capacity, channel_ratio(edges, seed, i))
    } else {
        reverse_share(edges[i].capacity, channel_ratio(edges, seed, i))
    }
}

/// `percent` hundredths of `capacity`, rounded down.
fn share(capacity: u64, percent: u8) -> (part: u64)
    requires
        percent <= 100,
    ensures
        part as int == percent as int * capacity as int / 100,
        part as int == capacity as int * percent as int / 100,
        part <= capacity,
{
    let c: u128 = capacity as u128;
    let p: u128 = percent as u128;
    assert(0 <= p * c <= 100 * c && p * c == c * p) by (nonlinear_arith)
        requires
            0 <= p <= 100,
            0 <= c,
    ;
    ((p * c) / 100) as u64
}

/// Splits the capacity of every edge into its starting balance. Edges are
/// visited in order. An edge without an earlier opposite edge draws a ratio
/// and takes that percentage of its capacity, rounded down; an edge whose
/// opposite came earlier takes the remaining percentage of its own
/// capacity, rounded down, under the ratio drawn there.
pub fn initialize_balances(table: &EdgeTable, rng: &mut RandomSource) -> (balances: Vec<u64>)
    requires
        table.wf(),
    ensures
        balances@.len() == table@.len(),
        forall|i: int|
            0 <= i < table@.len() ==> #[trigger] balances@[i] as int == initial_balance(
                table@,
                old(rng)@,
                i,
            ),
        forall|i: int| 0 <= i < table@.len() ==> #[trigger] balances@[i] <= table@[i].capacity,
        final(rng)@ == state_after(old(rng)@, draws_before(table@, table@.len() as int)),
{
    let ghost seed = rng@;
    let ghost edges = table@;
    let mut balances: Vec<u64> = Vec::new();
    let mut ratios: Vec<u8> = Vec::new();
    let n: usize = table.len();
    let mut i: usize = 0;
    proof {
        table.lemma_unique();
    }
    while i < n
        invariant
            i <= n,
            n == edges.len(),
            edges == table@,
            table.wf(),
            unique_pairs(edges),
            balances@.len() == i,
            ratios@.len() == i,
            rng@ == state_after(seed, draws_before(edges, i as int)),
            forall|k: int| 0 <= k < i ==> #[trigger] ratios@[k] == channel_ratio(edges, seed, k),
            forall|k: int| 0 <= k < i ==> #[trigger] ratios@[k] <= 100,
            forall|k: int|
                0 <= k < i ==> #[trigger] balances@[k] as int == initial_balance(edges, seed, k),
            forall|k: int| 0 <= k < i ==> #[trigger] balances@[k] <= edges[k].capacity,
        decreases n - i,
    {
        let edge = table.get(i);
        let opposite = table.find(edge.trg, edge.src);
        let earlier: Option<usize> = match opposite {
            Some(j) => if j < i {
                Some(j)
            } else {
                None
            },
            None => None,
        };
        match earlier {
            Some(j) => {
                let ratio: u8 = ratios[j];
                proof {
                    assert(!draws(edges, i as int));
                    assert(joins(edges, j as int, edge.trg, edge.src));
                    crate::channel::lemma_edge_position(
                        edges,
                        i as int,
                        edges[j as int].trg,
                        edges[j as int].src,
                    );
                    assert(draws(edges, j as int));
                    assert(ratios@[j as int] == channel_ratio(edges, seed, j as int));
                    assert(channel_ratio(edges, seed, i as int) == ratio);
                }
                let part: u64 = share(edge.capacity, 100 - ratio);
                balances.push(part);
                ratios.push(ratio);
            },
            None => {
                assert(draws(edges, i as int));
                let ratio: u8 = rng.next_ratio();
                assert(ratio == nth_ratio(seed, draws_before(edges, i as int)));
                let part: u64 = share(edge.capacity, ratio);
                balances.push(part);
                ratios.push(ratio);
            },
        }
        i += 1;
    }
    balances
}

/// What a channel graph holds.
pub struct GraphView {
    /// The edges, in order of first appearance.
    pub edges: Seq<ChannelEdge>,
    /// The spendable balance of each edge, by position.
    pub balances: Seq<u64>,
    /// The number of nodes; node ids run from zero below it.
    pub nodes: nat,
    /// The payment size of the run, at which routing weights are taken.
    pub amount: u64,
}

impl GraphView {
    /// One edge per ordered pair, one balance per edge and none above the
    /// capacity, every endpoint a node, and sizes that fit 32-bit indices.
    pub open spec fn valid(self) -> bool {
        &&& unique_pairs(self.edges)
        &&& self.balances.len() == self.edges.len()
        &&& forall|i: int|
            0 <= i < self.edges.len() ==> #[trigger] self.balances[i] <= self.edges[i].capacity
        &&& endpoints_below(self.edges, self.nodes as int)
        &&& self.nodes <= u32::MAX
        &&& self.edges.len() < u32::MAX
    }

    /// `id` is a node of the graph.
    pub open spec fn has_node(self, id: NodeId) -> bool {
        id < self.nodes
    }

    /// The balance of the edge from `src` to `trg`.
    pub open spec fn balance(self, src: NodeId, trg: NodeId) -> u64 {
        self.balances[edge_position(self.edges, src, trg)]
    }

    /// The capacity of the edge from `src` to `trg`.
    pub open spec fn capacity(self, src: NodeId, trg: NodeId) -> u64 {
        self.edges[edge_position(self.edges, src, trg)].capacity
    }

    /// The weight by which routing ranks edge `i`: its fee on the payment
    /// size of the run.
    pub open spec fn weight(self, i: int) -> u64 {
        fee_weight(self.edges[i].policy(), self.amount as int) as u64
    }

    /// This graph with the balance at position `i` replaced.
    pub open spec fn with_balance(self, i: int, balance: u64) -> GraphView {
        GraphView { balances: self.balances.update(i, balance), ..self }
    }
}

/// The outgoing edges of `node` among `edges`, each as its target and
/// routing weight, in edge order.
pub open spec fn outgoing(view: GraphView, node: NodeId, n: int) -> Seq<(NodeId, u64)>
    decreases n,
{
    if n <= 0 {
        Seq::empty()
    } else {
        let rest = outgoing(view, node, n - 1);
        if view.edges[n - 1].src == node {
            rest.push((view.edges[n - 1].trg, view.weight(n - 1)))
        } else {
            rest
        }
    }
}

/// The directed channel graph with its balance ledger.
#[derive(Clone, Debug)]
pub struct ChannelGraph {
    table: EdgeTable,
    balances: Vec<u64>,
    nodes: u32,
    amount: u64,
}

impl View for ChannelGraph {
    type V = GraphView;

    closed spec fn view(&self) -> GraphView {
        GraphView {
            edges: self.table@,
            balances: self.balances@,
            nodes: self.nodes as nat,
            amount: self.amount,
        }
    }
}

impl ChannelGraph {
    /// The edge index is consistent with the edges.
    pub closed spec fn indexed(&self) -> bool {
        self.table.wf()
    }

    /// The graph is consistent: see `GraphView::valid`.
    pub open spec fn wf(&self) -> bool {
        self.indexed() && self@.valid()
    }

    /// Builds the graph over `table` with `nodes` nodes and draws the
    /// starting balances from `rng`.
    pub fn new(table: EdgeTable, nodes: u32, amount: u64, rng: &mut RandomSource) -> (graph:
        ChannelGraph)
        requires
            table.wf(),
            endpoints_below(table@, nodes as int),
            table@.len() < u32::MAX,
        ensures
            graph.wf(),
            graph@.edges == table@,
            graph@.nodes == nodes,
            graph@.amount == amount,
            graph@.balances.len() == table@.len(),
            forall|i: int|
                0 <= i < table@.len() ==> #[trigger] graph@.balances[i] as int == initial_balance(
                    table@,
                    old(rng)@,
                    i,
                ),
            final(rng)@ == state_after(old(rng)@, draws_before(table@, table@.len() as int)),
    {
        let balances = initialize_balances(&table, rng);
        proof {
            table.lemma_unique();
        }
        ChannelGraph { table, balances, nodes, amount }
    }

    /// Builds the graph over `table` with the given balances, one per edge
    /// in edge order. Returns `None` unless there is exactly one balance per
    /// edge, none above its capacity, every endpoint is below `nodes`, and
    /// the number of edges fits a 32-bit index.
    pub fn with_balances(table: EdgeTable, nodes: u32, amount: u64, balances: Vec<u64>) -> (built:
        Option<ChannelGraph>)
        requires
            table.wf(),
        ensures
            match built {
                Some(graph) => {
                    &&& graph.wf()
                    &&& graph@ == GraphView {
                        edges: table@,
                        balances: balances@,
                        nodes: nodes as nat,
                        amount,
                    }
                },
                None => !(GraphView {
                    edges: table@,
                    balances: balances@,
                    nodes: nodes as nat,
                    amount,
                }).valid(),
            },
    {
        let n: usize = table.len();
        if balances.len() != n || n >= 0xFFFF_FFFF {
            return None;
        }
        let mut i: usize = 0;
        while i < n
            invariant
                i <= n,
                n == table@.len(),
                balances@.len() == n,
                forall|k: int| 0 <= k < i ==> #[trigger] balances@[k] <= table@[k].capacity,
                forall|k: int|
                    0 <= k < i ==> (#[trigger] table@[k]).src < nodes && table@[k].trg < nodes,
            decreases n - i,
        {
            let edge = table.get(i);
            if balances[i] > edge.capacity || edge.src >= nodes || edge.trg >= nodes {
                assert(!(balances@[i as int] <= table@[i as int].capacity) || !(table@[i as int].src
                    < nodes && table@[i as int].trg < nodes));
                return None;
            }
            i += 1;
        }
        proof {
            table.lemma_unique();
        }
        Some(ChannelGraph { table, balances, nodes, amount })
    }

    /// Number of nodes.
    pub fn node_count(&self) -> (n: u32)
        ensures
            n == self@.nodes,
    {
        self.nodes
    }

    /// Number of edges.
    pub fn edge_count(&self) -> (n: usize)
        ensures
            n == self@.edges.len(),
    {
        self.table.len()
    }

    /// The payment size of the run.
    pub fn amount(&self) -> (amount: u64)
        ensures
            amount == self@.amount,
    {
        self.amount
    }

    /// The edge at position `i`.
    pub fn edge(&self, i: usize) -> (edge: ChannelEdge)
        requires
            i < self@.edges.len(),
        ensures
            edge == self@.edges[i as int],
    {
        self.table.get(i)
    }

    /// The balance of the edge at position `i`.
    pub fn balance_at(&self, i: usize) -> (balance: u64)
        requires
            self.wf(),
            i < self@.edges.len(),
        ensures
            balance == self@.balances[i as int],
    {
        self.balances[i]
    }

    /// The position of the edge from `src` to `trg`, if there is one.
    pub fn find(&self, src: NodeId, trg: NodeId) -> (found: Option<usize>)
        requires
            self.wf(),
        ensures
            match found {
                Some(i) => joins(self@.edges, i as int, src, trg) && i == edge_position(
                    self@.edges,
                    src,
                    trg,
                ),
                None => !has_edge(self@.edges, src, trg),
            },
    {
        self.table.find(src, trg)
    }

    /// The routing weight of the edge at position `i`.
    pub fn weight_at(&self, i: usize) -> (weight: u64)
        requires
            i < self@.edges.len(),
        ensures
            weight == self@.weight(i as int),
    {
        let due: u128 = fee_for(self.table.get(i).fee_policy(), self.amount);
        if due > u64::MAX as u128 {
            u64::MAX
        } else {
            due as u64
        }
    }

    /// The routing weight of the edge from `src` to `trg`: the fee it
    /// charges on the payment size of the run, capped at 64 bits.
    pub fn fee_cost(&self, src: NodeId, trg: NodeId) -> (cost: Option<u64>)
        requires
            self.wf(),
        ensures
            cost is Some <==> has_edge(self@.edges, src, trg),
            cost matches Some(c) ==> c == self@.weight(edge_position(self@.edges, src, trg)),
    {
        match self.table.find(src, trg) {
            Some(i) => Some(self.weight_at(i)),
            None => None,
        }
    }

    /// The spendable balance of the edge from `src` to `trg`.
    pub fn balance(&self, src: NodeId, trg: NodeId) -> (balance: Option<u64>)
        requires
            self.wf(),
        ensures
            balance is Some <==> has_edge(self@.edges, src, trg),
            balance matches Some(b) ==> b == self@.balance(src, trg) && b <= self@.capacity(
                src,
                trg,
            ),
    {
        match self.table.find(src, trg) {
            Some(i) => Some(self.balances[i]),
            None => None,
        }
    }

    /// Adds `delta` to the balance of the edge from `src` to `trg`. The
    /// edge must exist and the new balance must lie between zero and its
    /// capacity.
    pub fn apply_delta(&mut self, src: NodeId, trg: NodeId, delta: i128)
        requires
            old(self).wf(),
            has_edge(old(self)@.edges, src, trg),
            0 <= old(self)@.balance(src, trg) + delta <= old(self)@.capacity(src, trg),
        ensures
            final(self).wf(),
            final(self)@ == old(self)@.with_balance(
                edge_position(old(self)@.edges, src, trg),
                (old(self)@.balance(src, trg) + delta) as u64,
            ),
    {
        match self.table.find(src, trg) {
            Some(i) => {
                let updated: i128 = self.balances[i] as i128 + delta;
                self.balances.set(i, updated as u64);
            },
            None => {},
        }
    }

    /// The outgoing edges of `node`, each as target and routing weight, in
    /// edge order.
    pub fn neighbors(&self, node: NodeId) -> (out: Vec<(NodeId, u64)>)
        requires
            self.wf(),
        ensures
            out@ == outgoing(self@, node, self@.edges.len() as int),
    {
        let mut out: Vec<(NodeId, u64)> = Vec::new();
        let n: usize = self.table.len();
        let mut i: usize = 0;
        while i < n
            invariant
                i <= n,
                n == self@.edges.len(),
                out@ == outgoing(self@, node, i as int),
            decreases n - i,
        {
            let edge = self.table.get(i);
            if edge.src == node {
                out.push((edge.trg, self.weight_at(i)));
            }
            i += 1;
        }
        out
    }
}

} // verus!
