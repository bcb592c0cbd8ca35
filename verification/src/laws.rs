//! Properties that hold of the engine as a whole.

use crate::channel::{edge_position, has_edge, joins, lemma_edge_position, unique_pairs, ChannelEdge};
use crate::fees::{lemma_fee_monotonic, required_forward, total_fee, FeePolicy};
use crate::graph::{channel_ratio, draws, initial_balance, ChannelGraph, GraphView};
use crate::indexer::NodeId;
use crate::payment::{
    lemma_route_is_path, pay_spec, run_spec, simulate_spec, start_spec, step_spec, OutcomeView,
    Payment, StateView,
};
use crate::router::route_spec;
use crate::settlement::{first_shortfall, lemma_settled_graph_valid};
use vstd::prelude::*;

verus! {

/// Two opposite edges are governed by the same drawn ratio, and exactly one
/// of them draws it.
pub proof fn lemma_opposite_edges_share_ratio(edges: Seq<ChannelEdge>, seed: u64, i: int, j: int)
    requires
        unique_pairs(edges),
        0 <= i < j < edges.len(),
        edges[j].src == edges[i].trg,
        edges[j].trg == edges[i].src,
    ensures
        draws(edges, i),
        !draws(edges, j),
        channel_ratio(edges, seed, j) == channel_ratio(edges, seed, i),
{
    lemma_edge_position(edges, j, edges[i].trg, edges[i].src);
    lemma_edge_position(edges, i, edges[j].trg, edges[j].src);
}

/// Conservation at initialisation: where both directions of a channel are
/// tracked with the same capacity, and the drawn percentage of that
/// capacity is a whole number, the two starting balances add up to the
/// capacity exactly.
pub proof fn law_conservation(edges: Seq<ChannelEdge>, seed: u64, i: int, j: int)
    requires
        unique_pairs(edges),
        0 <= i < edges.len(),
        0 <= j < edges.len(),
        i != j,
        edges[j].src == edges[i].trg,
        edges[j].trg == edges[i].src,
        edges[i].capacity == edges[j].capacity,
        (channel_ratio(edges, seed, i) as int * edges[i].capacity as int) % 100 == 0,
    ensures
        initial_balance(edges, seed, i) + initial_balance(edges, seed, j) == edges[i].capacity,
{
    let c = edges[i].capacity as int;
    let r = channel_ratio(edges, seed, i) as int;
    if i < j {
        lemma_opposite_edges_share_ratio(edges, seed, i, j);
    } else {
        lemma_opposite_edges_share_ratio(edges, seed, j, i);
    }
    assert(r * c / 100 + c * (100 - r) / 100 == c) by (nonlinear_arith)
        requires
            (r * c) % 100 == 0,
    ;
}

/// Whatever the drawn ratio, the starting balances of two opposite edges of
/// equal capacity add up to the capacity or to one unit less.
pub proof fn law_partition_within_one(edges: Seq<ChannelEdge>, seed: u64, i: int, j: int)
    requires
        unique_pairs(edges),
        0 <= i < edges.len(),
        0 <= j < edges.len(),
        i != j,
        edges[j].src == edges[i].trg,
        edges[j].trg == edges[i].src,
        edges[i].capacity == edges[j].capacity,
    ensures
        edges[i].capacity - 1 <= initial_balance(edges, seed, i) + initial_balance(edges, seed, j)
            <= edges[i].capacity,
{
    let c = edges[i].capacity as int;
    let r = channel_ratio(edges, seed, i) as int;
    if i < j {
        lemma_opposite_edges_share_ratio(edges, seed, i, j);
    } else {
        lemma_opposite_edges_share_ratio(edges, seed, j, i);
    }
    assert(c - 1 <= r * c / 100 + c * (100 - r) / 100 <= c) by (nonlinear_arith);
}

/// No negative balance: in a consistent graph every balance lies between
/// zero and the capacity of its edge.
pub proof fn law_balance_within_capacity(graph: &ChannelGraph, src: NodeId, trg: NodeId)
    requires
        graph.wf(),
        has_edge(graph@.edges, src, trg),
    ensures
        0 <= graph@.balance(src, trg) <= graph@.capacity(src, trg),
{
    let at = edge_position(graph@.edges, src, trg);
    assert(joins(graph@.edges, at, src, trg));
    assert(graph@.balances[at] <= graph@.edges[at].capacity);
}

/// No negative balance, at every point of a payment: a step taken from a
/// consistent graph leaves a consistent graph, in which every balance lies
/// between zero and the capacity of its edge.
pub proof fn law_step_keeps_balances_within_capacity(
    view: GraphView,
    payment: Payment,
    retry_times: u32,
    state: StateView,
)
    requires
        view.valid(),
        state.ok(view, retry_times),
    ensures
        step_spec(view, payment, retry_times, state).1.valid(),
        step_spec(view, payment, retry_times, state).0.ok(
            step_spec(view, payment, retry_times, state).1,
            retry_times,
        ),
{
    match state {
        StateView::Routing { excluded, attempts } => {
            if attempts <= retry_times {
                if let Some(path) = route_spec(view, payment.src, payment.trg, excluded) {
                    lemma_route_is_path(view, excluded, payment.src, payment.trg, path);
                }
            }
        },
        StateView::Checking { path, excluded, attempts } => {
            if first_shortfall(view, path, payment.amount, 0) is None {
                lemma_settled_graph_valid(view, path, payment.amount);
            }
        },
        _ => {},
    }
}

/// A payment run to its end from a consistent graph leaves a consistent
/// graph.
pub proof fn lemma_run_keeps_graph_valid(
    view: GraphView,
    payment: Payment,
    retry_times: u32,
    state: StateView,
)
    requires
        view.valid(),
        state.ok(view, retry_times),
    ensures
        run_spec(view, payment, retry_times, state).1.valid(),
    decreases state.steps_left(retry_times),
{
    if !state.is_final() {
        let (next, after) = step_spec(view, payment, retry_times, state);
        law_step_keeps_balances_within_capacity(view, payment, retry_times, state);
        lemma_run_keeps_graph_valid(after, payment, retry_times, next);
    }
}

/// No negative balance, throughout a simulation: after any number of
/// payments every balance lies between zero and the capacity of its edge.
pub proof fn law_simulation_keeps_balances_within_capacity(
    view: GraphView,
    payments: Seq<Payment>,
    retry_times: u32,
    n: int,
)
    requires
        view.valid(),
    ensures
        simulate_spec(view, payments, retry_times, n).1.valid(),
    decreases n,
{
    if n > 0 {
        law_simulation_keeps_balances_within_capacity(view, payments, retry_times, n - 1);
        let before = simulate_spec(view, payments, retry_times, n - 1).1;
        lemma_run_keeps_graph_valid(
            before,
            payments[n - 1],
            retry_times,
            start_spec(before, payments[n - 1]),
        );
    }
}

/// Raising the amount that arrives never lowers what a hop must forward,
/// nor what it forwards beyond that amount.
pub proof fn lemma_forward_monotonic(policies: Seq<FeePolicy>, a: int, b: int, i: int)
    requires
        0 <= a <= b,
        0 <= i,
    ensures
        a <= required_forward(policies, a, i),
        required_forward(policies, a, i) <= required_forward(policies, b, i),
        required_forward(policies, a, i) - a <= required_forward(policies, b, i) - b,
    decreases policies.len() - i,
{
    if i + 1 < policies.len() {
        lemma_forward_monotonic(policies, a, b, i + 1);
        let da = required_forward(policies, a, i + 1);
        let db = required_forward(policies, b, i + 1);
        lemma_fee_monotonic(policies[i + 1], da, db);
        crate::fees::lemma_fee_nonnegative(policies[i + 1], da);
    }
}

/// Fee monotonicity: along a fixed path, a larger payment never pays a
/// smaller total fee.
pub proof fn law_fee_monotonic(policies: Seq<FeePolicy>, a: int, b: int)
    requires
        0 <= a <= b,
    ensures
        total_fee(policies, a) <= total_fee(policies, b),
{
    lemma_forward_monotonic(policies, a, b, 0);
}

/// Atomicity: a settlement attempt that fails leaves the graph as it was.
pub proof fn law_failed_check_changes_nothing(
    view: GraphView,
    payment: Payment,
    retry_times: u32,
    state: StateView,
)
    requires
        state is Checking,
        step_spec(view, payment, retry_times, state).0 is Routing,
    ensures
        step_spec(view, payment, retry_times, state).1 == view,
{
}

/// The retry bound holds in every state: a step never takes the number of
/// routing attempts beyond `retry_times + 1`, and only a routing step that
/// searches a route raises it, by one.
pub proof fn law_step_keeps_retry_bound(
    view: GraphView,
    payment: Payment,
    retry_times: u32,
    state: StateView,
)
    requires
        state.attempts() <= retry_times + 1,
    ensures
        step_spec(view, payment, retry_times, state).0.attempts() <= retry_times + 1,
        step_spec(view, payment, retry_times, state).0.attempts() == state.attempts() || (state
            is Routing && step_spec(view, payment, retry_times, state).0.attempts()
            == state.attempts() + 1),
{
}

/// Running a payment to its end keeps the retry bound.
pub proof fn lemma_run_keeps_retry_bound(
    view: GraphView,
    payment: Payment,
    retry_times: u32,
    state: StateView,
)
    requires
        state.attempts() <= retry_times + 1,
    ensures
        run_spec(view, payment, retry_times, state).0.attempts() <= retry_times + 1,
        run_spec(view, payment, retry_times, state).0.is_final(),
    decreases state.steps_left(retry_times),
{
    if !state.is_final() {
        let (next, after) = step_spec(view, payment, retry_times, state);
        law_step_keeps_retry_bound(view, payment, retry_times, state);
        lemma_run_keeps_retry_bound(after, payment, retry_times, next);
    }
}

/// Retry bound: no payment makes more than `retry_times + 1` routing
/// attempts, whatever the graph.
pub proof fn law_retry_bound(view: GraphView, payment: Payment, retry_times: u32)
    ensures
        run_spec(view, payment, retry_times, start_spec(view, payment)).0.attempts() <= retry_times
            + 1,
        pay_spec(view, payment, retry_times).0 matches OutcomeView::Failed { attempts, .. }
            ==> attempts <= retry_times + 1,
{
    lemma_run_keeps_retry_bound(view, payment, retry_times, start_spec(view, payment));
}

/// Determinism: two runs over the same graph, payments and retry bound
/// yield the same outcomes and leave the same graph.
pub proof fn law_determinism(
    first: GraphView,
    second: GraphView,
    payments: Seq<Payment>,
    retry_times: u32,
    first_run: (Seq<OutcomeView>, GraphView),
    second_run: (Seq<OutcomeView>, GraphView),
)
    requires
        first == second,
        first_run == simulate_spec(first, payments, retry_times, payments.len() as int),
        second_run == simulate_spec(second, payments, retry_times, payments.len() as int),
    ensures
        first_run == second_run,
{
}

} // verus!
