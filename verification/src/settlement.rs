//! Atomic settlement of a payment along a path.

use crate::channel::{edge_position, has_edge, joins};
use crate::fees::{
    fee_for, lemma_fee_nonnegative, required_forward, total_fee, FeePolicy,
};
use crate::graph::{ChannelGraph, GraphView};
use crate::indexer::NodeId;
use crate::router::{hops, path_hops, Hop};
use vstd::prelude::*;

verus! {

/// The value at which computed amounts are capped: one more than any
/// balance can hold.
pub const AMOUNT_CAP: u128 = 0x1_0000_0000_0000_0000;

/// `amount`, capped at `AMOUNT_CAP`.
pub open spec fn capped(amount: int) -> int {
    if amount < AMOUNT_CAP as int {
        amount
    } else {
        AMOUNT_CAP as int
    }
}

/// `path` runs along edges of the graph and visits no node twice.
pub open spec fn is_path(view: GraphView, path: Seq<NodeId>) -> bool {
    &&& path.len() >= 2
    &&& path.no_duplicates()
    &&& forall|i: int|
        0 <= i < path.len() - 1 ==> has_edge(view.edges, #[trigger] path[i], path[i + 1])
}

/// The position of the edge that hop `i` of `path` runs along.
pub open spec fn hop_edge(view: GraphView, path: Seq<NodeId>, i: int) -> int {
    edge_position(view.edges, path[i], path[i + 1])
}

/// The fee policies of the hops of `path`, in path order.
pub open spec fn hop_policies(view: GraphView, path: Seq<NodeId>) -> Seq<FeePolicy> {
    Seq::new(
        if path.len() > 0 {
            (path.len() - 1) as nat
        } else {
            0nat
        },
        |i: int| view.edges[hop_edge(view, path, i)].policy(),
    )
}

/// What hop `i` of `path` must forward for `amount` to arrive.
pub open spec fn forward(view: GraphView, path: Seq<NodeId>, amount: u64, i: int) -> int {
    required_forward(hop_policies(view, path), amount as int, i)
}

/// The balance of hop `i` covers what it must forward.
pub open spec fn covered(view: GraphView, path: Seq<NodeId>, amount: u64, i: int) -> bool {
    view.balances[hop_edge(view, path, i)] >= forward(view, path, amount, i)
}

/// The first hop at or after `from`, in path order, whose balance falls
/// short.
pub open spec fn first_shortfall(view: GraphView, path: Seq<NodeId>, amount: u64, from: int) -> Option<
    int,
>
    decreases path.len() - from,
{
    if from < 0 || from >= path.len() - 1 {
        None
    } else if !covered(view, path, amount, from) {
        Some(from)
    } else {
        first_shortfall(view, path, amount, from + 1)
    }
}

/// The graph after the first `n` hops of `path` have each been debited
/// what they must forward.
pub open spec fn debited(view: GraphView, path: Seq<NodeId>, amount: u64, n: int) -> GraphView
    decreases n,
{
    if n <= 0 {
        view
    } else {
        let at = hop_edge(view, path, n - 1);
        debited(view, path, amount, n - 1).with_balance(
            at,
            (view.balances[at] - forward(view, path, amount, n - 1)) as u64,
        )
    }
}

/// A hop whose balance does not cover what it must forward.
#[derive(Clone, Copy, Debug, PartialEq, Eq)]
pub struct InsufficientBalance {
    /// The edge that falls short.
    pub edge: Hop,
    /// What the edge must forward; `u64::MAX` stands for any amount beyond.
    pub required: u64,
    /// The balance of the edge.
    pub available: u64,
}

/// The failure reported for hop `i`.
pub open spec fn shortfall(view: GraphView, path: Seq<NodeId>, amount: u64, i: int)
    -> InsufficientBalance {
    InsufficientBalance {
        edge: (path[i], path[i + 1]),
        required: if forward(view, path, amount, i) <= u64::MAX {
            forward(view, path, amount, i) as u64
        } else {
            u64::MAX
        },
        available: view.balances[hop_edge(view, path, i)],
    }
}

/// What settling `amount` along `path` yields: the fee paid and the graph
/// with every hop debited, or the first hop that falls short.
pub open spec fn settle_spec(view: GraphView, path: Seq<NodeId>, amount: u64) -> Result<
    (int, GraphView),
    InsufficientBalance,
> {
    match first_shortfall(view, path, amount, 0) {
        Some(i) => Err(shortfall(view, path, amount, i)),
        None => Ok(
            (
                total_fee(hop_policies(view, path), amount as int),
                debited(view, path, amount, path.len() - 1),
            ),
        ),
    }
}

/// Every hop forwards at least the amount that arrives, and no less than
/// the hop after it.
pub proof fn lemma_forward_grows(policies: Seq<FeePolicy>, amount: int, i: int)
    requires
        0 <= amount,
        0 <= i,
    ensures
        amount <= required_forward(policies, amount, i),
        i + 1 < policies.len() ==> required_forward(policies, amount, i + 1) <= required_forward(
            policies,
            amount,
            i,
        ),
    decreases policies.len() - i,
{
    if i + 1 < policies.len() {
        lemma_forward_grows(policies, amount, i + 1);
        lemma_fee_nonnegative(policies[i + 1], required_forward(policies, amount, i + 1));
    }
}

/// Every hop of a path runs along the edge that joins its two nodes.
pub proof fn lemma_hop_joins(view: GraphView, path: Seq<NodeId>, i: int)
    requires
        is_path(view, path),
        0 <= i < path.len() - 1,
    ensures
        joins(view.edges, hop_edge(view, path, i), path[i], path[i + 1]),
{
    assert(has_edge(view.edges, path[i], path[i + 1]));
}

/// Two hops of a path run along different edges.
pub proof fn lemma_hops_distinct(view: GraphView, path: Seq<NodeId>, i: int, j: int)
    requires
        view.valid(),
        is_path(view, path),
        0 <= i < path.len() - 1,
        0 <= j < path.len() - 1,
        i != j,
    ensures
        hop_edge(view, path, i) != hop_edge(view, path, j),
        joins(view.edges, hop_edge(view, path, i), path[i], path[i + 1]),
{
    assert(has_edge(view.edges, path[i], path[i + 1]));
    assert(has_edge(view.edges, path[j], path[j + 1]));
    assert(joins(view.edges, hop_edge(view, path, i), path[i], path[i + 1]));
    assert(joins(view.edges, hop_edge(view, path, j), path[j], path[j + 1]));
    assert(path[i] != path[j]);
}

/// Debiting hops changes nothing but balances, and only those of the hops
/// debited.
pub proof fn lemma_debited(view: GraphView, path: Seq<NodeId>, amount: u64, n: int)
    requires
        view.valid(),
        is_path(view, path),
        0 <= n <= path.len() - 1,
    ensures
        debited(view, path, amount, n).edges == view.edges,
        debited(view, path, amount, n).nodes == view.nodes,
        debited(view, path, amount, n).amount == view.amount,
        debited(view, path, amount, n).balances.len() == view.balances.len(),
        forall|i: int|
            0 <= i < n ==> debited(view, path, amount, n).balances[#[trigger] hop_edge(
                view,
                path,
                i,
            )] == (view.balances[hop_edge(view, path, i)] - forward(view, path, amount, i)) as u64,
        forall|k: int|
            0 <= k < view.balances.len() && (forall|i: int|
                0 <= i < n ==> hop_edge(view, path, i) != k) ==> #[trigger] debited(
                view,
                path,
                amount,
                n,
            ).balances[k] == view.balances[k],
    decreases n,
{
    if n > 0 {
        lemma_debited(view, path, amount, n - 1);
        let at = hop_edge(view, path, n - 1);
        lemma_hop_joins(view, path, n - 1);
        assert forall|i: int| 0 <= i < n implies debited(view, path, amount, n).balances[#[trigger] hop_edge(
            view,
            path,
            i,
        )] == (view.balances[hop_edge(view, path, i)] - forward(view, path, amount, i)) as u64 by {
            if i < n - 1 {
                lemma_hops_distinct(view, path, i, n - 1);
            }
        }
        assert forall|k: int|
            0 <= k < view.balances.len() && (forall|i: int|
                0 <= i < n ==> hop_edge(view, path, i) != k) implies #[trigger] debited(
            view,
            path,
            amount,
            n,
        ).balances[k] == view.balances[k] by {
            assert(hop_edge(view, path, n - 1) != k);
            assert(forall|i: int| 0 <= i < n - 1 ==> hop_edge(view, path, i) != k);
        }
    }
}

/// Where no hop falls short, every hop is covered.
pub proof fn lemma_no_shortfall(view: GraphView, path: Seq<NodeId>, amount: u64, from: int)
    requires
        0 <= from,
        first_shortfall(view, path, amount, from) is None,
    ensures
        forall|i: int| from <= i < path.len() - 1 ==> covered(view, path, amount, i),
    decreases path.len() - from,
{
    if from < path.len() - 1 {
        lemma_no_shortfall(view, path, amount, from + 1);
    }
}

/// Settling a path leaves a consistent graph, with every balance still
/// between zero and the capacity of its edge.
pub proof fn lemma_settled_graph_valid(view: GraphView, path: Seq<NodeId>, amount: u64)
    requires
        view.valid(),
        is_path(view, path),
        first_shortfall(view, path, amount, 0) is None,
    ensures
        debited(view, path, amount, path.len() - 1).valid(),
{
    let n = path.len() - 1;
    let after = debited(view, path, amount, n);
    lemma_debited(view, path, amount, n);
    lemma_no_shortfall(view, path, amount, 0);
    assert forall|k: int| 0 <= k < after.edges.len() implies #[trigger] after.balances[k]
        <= after.edges[k].capacity by {
        assert(view.balances[k] <= view.edges[k].capacity);
        if exists|i: int| 0 <= i < n && hop_edge(view, path, i) == k {
            let i = choose|i: int| 0 <= i < n && hop_edge(view, path, i) == k;
            assert(covered(view, path, amount, i));
            lemma_forward_grows(hop_policies(view, path), amount as int, i);
            assert(after.balances[hop_edge(view, path, i)] == (view.balances[k] - forward(
                view,
                path,
                amount,
                i,
            )) as u64);
        } else {
            assert(forall|i: int| 0 <= i < n ==> hop_edge(view, path, i) != k);
        }
    }
}

/// The positions of the edges that the hops of `path` run along.
pub fn hop_positions(graph: &ChannelGraph, path: &Vec<NodeId>) -> (positions: Vec<usize>)
    requires
        graph.wf(),
        is_path(graph@, path@),
    ensures
        positions@.len() == path@.len() - 1,
        forall|i: int|
            0 <= i < positions@.len() ==> #[trigger] positions@[i] == hop_edge(graph@, path@, i)
                && joins(graph@.edges, positions@[i] as int, path@[i], path@[i + 1]),
{
    let pairs = path_hops(path);
    let mut positions: Vec<usize> = Vec::new();
    let mut i: usize = 0;
    while i < pairs.len()
        invariant
            i <= pairs@.len(),
            pairs@ == hops(path@),
            graph.wf(),
            is_path(graph@, path@),
            positions@.len() == i,
            forall|k: int|
                0 <= k < i ==> #[trigger] positions@[k] == hop_edge(graph@, path@, k) && joins(
                    graph@.edges,
                    positions@[k] as int,
                    path@[k],
                    path@[k + 1],
                ),
        decreases pairs@.len() - i,
    {
        let hop: Hop = pairs[i];
        assert(hop == (path@[i as int], path@[i + 1]));
        assert(has_edge(graph@.edges, path@[i as int], path@[i + 1]));
        match graph.find(hop.0, hop.1) {
            Some(at) => {
                positions.push(at);
            },
            None => {
                assert(false);
            },
        }
        i += 1;
    }
    positions
}

/// What each hop of `path` must forward for `amount` to arrive, in path
/// order, each capped at `AMOUNT_CAP`.
pub fn forward_amounts(graph: &ChannelGraph, path: &Vec<NodeId>, amount: u64) -> (amounts: Vec<u128>)
    requires
        graph.wf(),
        is_path(graph@, path@),
    ensures
        amounts@.len() == path@.len() - 1,
        forall|i: int|
            0 <= i < amounts@.len() ==> #[trigger] amounts@[i] as int == capped(
                forward(graph@, path@, amount, i),
            ),
{
    let positions = hop_positions(graph, path);
    let n: usize = positions.len();
    let ghost policies = hop_policies(graph@, path@);
    let mut reversed: Vec<u128> = Vec::new();
    reversed.push(amount as u128);
    let mut k: usize = 1;
    while k < n
        invariant
            1 <= k <= n,
            n == positions@.len(),
            n == path@.len() - 1,
            graph.wf(),
            is_path(graph@, path@),
            policies == hop_policies(graph@, path@),
            policies.len() == n,
            forall|i: int|
                0 <= i < n ==> #[trigger] positions@[i] == hop_edge(graph@, path@, i) && joins(
                    graph@.edges,
                    positions@[i] as int,
                    path@[i],
                    path@[i + 1],
                ),
            reversed@.len() == k,
            forall|j: int|
                0 <= j < k ==> #[trigger] reversed@[j] as int == capped(
                    required_forward(policies, amount as int, n - 1 - j),
                ),
        decreases n - k,
    {
        // hop `at` is computed from hop `at + 1`
        let at: usize = n - 1 - k;
        let downstream: u128 = reversed[k - 1];
        let ghost exact = required_forward(policies, amount as int, at + 1);
        proof {
            lemma_forward_grows(policies, amount as int, at as int);
            lemma_forward_grows(policies, amount as int, at + 1);
        }
        let next: u128 = if downstream >= AMOUNT_CAP {
            AMOUNT_CAP
        } else {
            let policy = graph.edge(positions[at + 1]).fee_policy();
            assert(policy == policies[at + 1]);
            let due: u128 = fee_for(policy, downstream as u64);
            proof {
                let rate = policy.fee_rate as int;
                assert(rate * exact <= 0xFFFF_FFFF_FFFF_FFFF * 0xFFFF_FFFF_FFFF_FFFF)
                    by (nonlinear_arith)
                    requires
                        0 <= rate <= 0xFFFF_FFFF_FFFF_FFFF,
                        0 <= exact <= 0xFFFF_FFFF_FFFF_FFFF,
                ;
            }
            let sum: u128 = downstream + due;
            if sum >= AMOUNT_CAP {
                AMOUNT_CAP
            } else {
                sum
            }
        };
        reversed.push(next);
        k += 1;
    }
    let mut amounts: Vec<u128> = Vec::new();
    let mut i: usize = 0;
    while i < n
        invariant
            i <= n,
            n == path@.len() - 1,
            reversed@.len() == n,
            policies == hop_policies(graph@, path@),
            amounts@.len() == i,
            forall|j: int|
                0 <= j < n ==> #[trigger] reversed@[j] as int == capped(
                    required_forward(policies, amount as int, n - 1 - j),
                ),
            forall|j: int|
                0 <= j < i ==> #[trigger] amounts@[j] as int == capped(
                    forward(graph@, path@, amount, j),
                ),
        decreases n - i,
    {
        amounts.push(reversed[n - 1 - i]);
        i += 1;
    }
    amounts
}

/// Settles `amount` along `path`, all hops or none. Every hop must hold
/// what it has to forward; if one does not, the first such hop in path
/// order is reported and no balance changes. Otherwise every hop is debited
/// what it forwards, and the fee that the source pays beyond `amount` is
/// returned.
pub fn process_payment(graph: &mut ChannelGraph, path: &Vec<NodeId>, amount: u64) -> (settled:
    Result<u64, InsufficientBalance>)
    requires
        old(graph).wf(),
        is_path(old(graph)@, path@),
    ensures
        final(graph).wf(),
        match settled {
            Ok(paid) => settle_spec(old(graph)@, path@, amount) == Ok::<
                (int, GraphView),
                InsufficientBalance,
            >((paid as int, final(graph)@)),
            Err(e) => settle_spec(old(graph)@, path@, amount) == Err::<
                (int, GraphView),
                InsufficientBalance,
            >(e) && *final(graph) == *old(graph),
        },
{
    let positions = hop_positions(graph, path);
    let amounts = forward_amounts(graph, path, amount);
    let n: usize = positions.len();
    let ghost view = graph@;
    let mut i: usize = 0;
    while i < n
        invariant
            i <= n,
            n == path@.len() - 1,
            positions@.len() == n,
            amounts@.len() == n,
            graph.wf(),
            *graph == *old(graph),
            view == graph@,
            is_path(view, path@),
            forall|j: int|
                0 <= j < n ==> #[trigger] positions@[j] == hop_edge(view, path@, j) && joins(
                    view.edges,
                    positions@[j] as int,
                    path@[j],
                    path@[j + 1],
                ),
            forall|j: int|
                0 <= j < n ==> #[trigger] amounts@[j] as int == capped(
                    forward(view, path@, amount, j),
                ),
            first_shortfall(view, path@, amount, 0) == first_shortfall(view, path@, amount, i as int),
            forall|j: int| 0 <= j < i ==> covered(view, path@, amount, j),
        decreases n - i,
    {
        let available: u64 = graph.balance_at(positions[i]);
        let required: u128 = amounts[i];
        if (available as u128) < required {
            let reported: u64 = if required >= AMOUNT_CAP {
                u64::MAX
            } else {
                required as u64
            };
            assert(!covered(view, path@, amount, i as int));
            return Err(
                InsufficientBalance { edge: (path[i], path[i + 1]), required: reported, available },
            );
        }
        assert(covered(view, path@, amount, i as int));
        i += 1;
    }
    assert(first_shortfall(view, path@, amount, 0) is None);
    proof {
        lemma_forward_grows(hop_policies(view, path@), amount as int, 0);
        assert(covered(view, path@, amount, 0));
    }
    let paid: u64 = (amounts[0] - amount as u128) as u64;
    let mut i: usize = 0;
    while i < n
        invariant
            i <= n,
            n == path@.len() - 1,
            positions@.len() == n,
            amounts@.len() == n,
            graph.wf(),
            view == old(graph)@,
            view.valid(),
            is_path(view, path@),
            graph@ == debited(view, path@, amount, i as int),
            forall|j: int|
                0 <= j < n ==> #[trigger] positions@[j] == hop_edge(view, path@, j) && joins(
                    view.edges,
                    positions@[j] as int,
                    path@[j],
                    path@[j + 1],
                ),
            forall|j: int|
                0 <= j < n ==> #[trigger] amounts@[j] as int == capped(
                    forward(view, path@, amount, j),
                ),
            forall|j: int| 0 <= j < n ==> covered(view, path@, amount, j),
        decreases n - i,
    {
        proof {
            lemma_debited(view, path@, amount, i as int);
            assert forall|j: int| 0 <= j < i implies hop_edge(view, path@, j) != positions@[i as int] by {
                lemma_hops_distinct(view, path@, j, i as int);
            }
            assert(covered(view, path@, amount, i as int));
        }
        graph.apply_delta(path[i], path[i + 1], -(amounts[i] as i128));
        i += 1;
    }
    Ok(paid)
}

} // verus!
