//! Payments and the bounded retry that drives each one to its outcome.

use crate::graph::{ChannelGraph, GraphView};
use crate::indexer::NodeId;
use crate::random::{below_of, lemma_state_step, state_after, RandomSource};
use crate::router::{hops, route, route_spec, valid_route, Hop};
use crate::settlement::{is_path, process_payment, settle_spec};
use vstd::prelude::*;

verus! {

/// A request to move `amount` from `src` to `trg`.
#[derive(Clone, Copy, Debug, PartialEq, Eq, Structural)]
pub struct Payment {
    pub src: NodeId,
    pub trg: NodeId,
    pub amount: u64,
}

/// Settings of a simulation run.
#[derive(Clone, Copy, Debug, PartialEq, Eq, Structural)]
pub struct Config {
    /// How many times a payment may be routed again after a failed attempt.
    pub retry_times: u32,
}

impl Default for Config {
    /// Ten re-routings per payment.
    fn default() -> (config: Config)
        ensures
            config.retry_times == 10,
    {
        Config { retry_times: 10 }
    }
}

/// Why a payment failed.
#[derive(Clone, Copy, Debug, PartialEq, Eq, Structural)]
pub enum FailureReason {
    /// An endpoint of the payment is no node of the graph.
    UnknownAddress,
    /// No route is left between the endpoints.
    NoPath,
    /// Every permitted attempt ended in a hop without balance.
    RetriesExhausted,
}

/// How a payment ended.
#[derive(Clone, Debug, PartialEq, Eq)]
pub enum PaymentOutcome {
    Settled { path: Vec<NodeId>, total_fee: u64 },
    Failed { reason: FailureReason, attempts: u64 },
}

/// The mathematical value of a `PaymentOutcome`.
pub enum OutcomeView {
    Settled { path: Seq<NodeId>, total_fee: u64 },
    Failed { reason: FailureReason, attempts: u64 },
}

impl View for PaymentOutcome {
    type V = OutcomeView;

    open spec fn view(&self) -> OutcomeView {
        match *self {
            PaymentOutcome::Settled { path, total_fee } => OutcomeView::Settled {
                path: path@,
                total_fee,
            },
            PaymentOutcome::Failed { reason, attempts } => OutcomeView::Failed { reason, attempts },
        }
    }
}

/// Where a payment stands. `attempts` counts the routing attempts made so
/// far.
#[derive(Debug)]
pub enum PaymentState {
    /// A route is to be searched that avoids `excluded`.
    Routing { excluded: Vec<Hop>, attempts: u64 },
    /// `path` was found and is to be settled.
    Checking { path: Vec<NodeId>, excluded: Vec<Hop>, attempts: u64 },
    /// The payment went through along `path`.
    Settled { path: Vec<NodeId>, total_fee: u64, attempts: u64 },
    /// The payment failed for good.
    Exhausted { reason: FailureReason, attempts: u64 },
}

/// The mathematical value of a `PaymentState`.
pub enum StateView {
    Routing { excluded: Seq<Hop>, attempts: u64 },
    Checking { path: Seq<NodeId>, excluded: Seq<Hop>, attempts: u64 },
    Settled { path: Seq<NodeId>, total_fee: u64, attempts: u64 },
    Exhausted { reason: FailureReason, attempts: u64 },
}

impl View for PaymentState {
    type V = StateView;

    open spec fn view(&self) -> StateView {
        match *self {
            PaymentState::Routing { excluded, attempts } => StateView::Routing {
                excluded: excluded@,
                attempts,
            },
            PaymentState::Checking { path, excluded, attempts } => StateView::Checking {
                path: path@,
                excluded: excluded@,
                attempts,
            },
            PaymentState::Settled { path, total_fee, attempts } => StateView::Settled {
                path: path@,
                total_fee,
                attempts,
            },
            PaymentState::Exhausted { reason, attempts } => StateView::Exhausted {
                reason,
                attempts,
            },
        }
    }
}

impl StateView {
    /// The routing attempts made so far.
    pub open spec fn attempts(self) -> u64 {
        match self {
            StateView::Routing { attempts, .. } => attempts,
            StateView::Checking { attempts, .. } => attempts,
            StateView::Settled { attempts, .. } => attempts,
            StateView::Exhausted { attempts, .. } => attempts,
        }
    }

    /// The payment has reached its outcome.
    pub open spec fn is_final(self) -> bool {
        self is Settled || self is Exhausted
    }

    /// No more than `retry_times + 1` routing attempts have been made, and
    /// a path about to be settled runs along edges of the graph.
    pub open spec fn ok(self, view: GraphView, retry_times: u32) -> bool {
        &&& self.attempts() <= retry_times + 1
        &&& self matches StateView::Checking { path, attempts, .. } ==> is_path(view, path)
            && attempts >= 1
    }

    /// A bound on the steps left before the payment reaches its outcome.
    pub open spec fn steps_left(self, retry_times: u32) -> nat {
        let open = if self.attempts() <= retry_times {
            (retry_times + 1 - self.attempts()) as nat
        } else {
            0nat
        };
        match self {
            StateView::Routing { .. } => 2 * open + 1,
            StateView::Checking { .. } => 2 * open + 2,
            _ => 0,
        }
    }

    /// The outcome that a final state stands for.
    pub open spec fn outcome(self) -> OutcomeView {
        match self {
            StateView::Settled { path, total_fee, .. } => OutcomeView::Settled { path, total_fee },
            StateView::Exhausted { reason, attempts } => OutcomeView::Failed { reason, attempts },
            StateView::Routing { attempts, .. } => OutcomeView::Failed {
                reason: FailureReason::RetriesExhausted,
                attempts,
            },
            StateView::Checking { attempts, .. } => OutcomeView::Failed {
                reason: FailureReason::RetriesExhausted,
                attempts,
            },
        }
    }
}

/// The state in which a payment starts: failed at once when one of its
/// endpoints is no node of the graph, else routing with nothing excluded.
pub open spec fn start_spec(view: GraphView, payment: Payment) -> StateView {
    if !view.has_node(payment.src) || !view.has_node(payment.trg) {
        StateView::Exhausted { reason: FailureReason::UnknownAddress, attempts: 0 }
    } else {
        StateView::Routing { excluded: Seq::empty(), attempts: 0 }
    }
}

/// One step of a payment, as the next state and the graph after it.
///
/// Routing: once `retry_times + 1` attempts have been made the payment is
/// exhausted. Otherwise a route is searched, which counts as an attempt; if
/// there is none the payment fails with `NoPath`, else the route is checked.
///
/// Checking: the path is settled. If every hop has balance the payment is
/// settled and the balances are debited. If not, the graph is unchanged and
/// the payment is routed again with the failing edge excluded.
pub open spec fn step_spec(view: GraphView, payment: Payment, retry_times: u32, state: StateView)
    -> (StateView, GraphView) {
    match state {
        StateView::Routing { excluded, attempts } => {
            if attempts > retry_times {
                (
                    StateView::Exhausted { reason: FailureReason::RetriesExhausted, attempts },
                    view,
                )
            } else {
                match route_spec(view, payment.src, payment.trg, excluded) {
                    Some(path) => (
                        StateView::Checking { path, excluded, attempts: (attempts + 1) as u64 },
                        view,
                    ),
                    None => (
                        StateView::Exhausted {
                            reason: FailureReason::NoPath,
                            attempts: (attempts + 1) as u64,
                        },
                        view,
                    ),
                }
            }
        },
        StateView::Checking { path, excluded, attempts } => {
            match settle_spec(view, path, payment.amount) {
                Ok((paid, after)) => (
                    StateView::Settled { path, total_fee: paid as u64, attempts },
                    after,
                ),
                Err(e) => (StateView::Routing { excluded: excluded.push(e.edge), attempts }, view),
            }
        },
        _ => (state, view),
    }
}

/// The final state and graph that repeated steps lead to.
pub open spec fn run_spec(view: GraphView, payment: Payment, retry_times: u32, state: StateView)
    -> (StateView, GraphView)
    decreases state.steps_left(retry_times),
{
    if state.is_final() {
        (state, view)
    } else {
        let (next, after) = step_spec(view, payment, retry_times, state);
        run_spec(after, payment, retry_times, next)
    }
}

/// The outcome of a payment and the graph it leaves.
pub open spec fn pay_spec(view: GraphView, payment: Payment, retry_times: u32) -> (
    OutcomeView,
    GraphView,
) {
    let (last, after) = run_spec(view, payment, retry_times, start_spec(view, payment));
    (last.outcome(), after)
}

/// The outcomes of the first `n` payments, processed in order, and the
/// graph they leave.
pub open spec fn simulate_spec(view: GraphView, payments: Seq<Payment>, retry_times: u32, n: int)
    -> (Seq<OutcomeView>, GraphView)
    decreases n,
{
    if n <= 0 {
        (Seq::empty(), view)
    } else {
        let (earlier, before) = simulate_spec(view, payments, retry_times, n - 1);
        let (outcome, after) = pay_spec(before, payments[n - 1], retry_times);
        (earlier.push(outcome), after)
    }
}

/// The mathematical values of a list of outcomes.
pub open spec fn outcome_views(outcomes: Seq<PaymentOutcome>) -> Seq<OutcomeView> {
    Seq::new(outcomes.len(), |i: int| outcomes[i]@)
}

/// Payment number `k` that a source seeded with `seed` generates among
/// `nodes` nodes: source and target from two successive draws.
pub open spec fn generated(seed: u64, nodes: u32, amount: u64, k: int) -> Payment {
    Payment {
        src: below_of(state_after(seed, (2 * k + 1) as nat), nodes),
        trg: below_of(state_after(seed, (2 * k + 2) as nat), nodes),
        amount,
    }
}

/// Generates `count` payments of size `amount` between nodes drawn from
/// `rng`, source before target. A graph without nodes gets no payments.
pub fn generate_payment(count: u32, node_number: u32, amount: u64, rng: &mut RandomSource) -> (payments:
    Vec<Payment>)
    ensures
        node_number == 0 ==> payments@.len() == 0 && final(rng)@ == old(rng)@,
        node_number > 0 ==> payments@.len() == count && final(rng)@ == state_after(
            old(rng)@,
            (2 * count) as nat,
        ),
        forall|k: int|
            0 <= k < payments@.len() ==> #[trigger] payments@[k] == generated(
                old(rng)@,
                node_number,
                amount,
                k,
            ),
        forall|k: int|
            0 <= k < payments@.len() ==> (#[trigger] payments@[k]).src < node_number
                && payments@[k].trg < node_number,
{
    let mut payments: Vec<Payment> = Vec::new();
    if node_number == 0 {
        return payments;
    }
    let ghost seed = rng@;
    let mut i: u32 = 0;
    while i < count
        invariant
            i <= count,
            node_number > 0,
            payments@.len() == i,
            rng@ == state_after(seed, (2 * i) as nat),
            forall|k: int|
                0 <= k < i ==> #[trigger] payments@[k] == generated(seed, node_number, amount, k),
            forall|k: int|
                0 <= k < i ==> (#[trigger] payments@[k]).src < node_number && payments@[k].trg
                    < node_number,
        decreases count - i,
    {
        proof {
            lemma_state_step(seed, (2 * i) as nat);
            lemma_state_step(seed, (2 * i + 1) as nat);
        }
        let src: u32 = rng.next_below(node_number);
        let trg: u32 = rng.next_below(node_number);
        let payment = Payment { src, trg, amount };
        assert(payment == generated(seed, node_number, amount, i as int));
        payments.push(payment);
        i += 1;
    }
    payments
}

/// A route between two nodes is a path of the graph.
pub proof fn lemma_route_is_path(
    view: GraphView,
    excluded: Seq<Hop>,
    src: NodeId,
    trg: NodeId,
    path: Seq<NodeId>,
)
    requires
        valid_route(view, excluded, src, trg, path),
    ensures
        is_path(view, path),
{
    assert forall|i: int| 0 <= i < path.len() - 1 implies crate::channel::has_edge(
        view.edges,
        #[trigger] path[i],
        path[i + 1],
    ) by {
        assert(hops(path)[i] == (path[i], path[i + 1]));
    }
}

/// The state in which `payment` starts.
pub fn start(graph: &ChannelGraph, payment: &Payment) -> (state: PaymentState)
    ensures
        state@ == start_spec(graph@, *payment),
{
    if payment.src >= graph.node_count() || payment.trg >= graph.node_count() {
        PaymentState::Exhausted { reason: FailureReason::UnknownAddress, attempts: 0 }
    } else {
        PaymentState::Routing { excluded: Vec::new(), attempts: 0 }
    }
}

/// Takes `payment` one step further: searches a route, or settles the one
/// found. See `step_spec`.
pub fn step(graph: &mut ChannelGraph, payment: &Payment, retry_times: u32, state: PaymentState) -> (next:
    PaymentState)
    requires
        old(graph).wf(),
        state@.ok(old(graph)@, retry_times),
    ensures
        final(graph).wf(),
        (next@, final(graph)@) == step_spec(old(graph)@, *payment, retry_times, state@),
        next@.ok(final(graph)@, retry_times),
        next@.attempts() == state@.attempts() || (state@ is Routing && next@.attempts()
            == state@.attempts() + 1),
        state@.is_final() || next@.steps_left(retry_times) < state@.steps_left(retry_times),
{
    match state {
        PaymentState::Routing { excluded, attempts } => {
            if attempts > retry_times as u64 {
                PaymentState::Exhausted { reason: FailureReason::RetriesExhausted, attempts }
            } else {
                match route(graph, payment.src, payment.trg, &excluded) {
                    Some(path) => {
                        proof {
                            lemma_route_is_path(
                                graph@,
                                excluded@,
                                payment.src,
                                payment.trg,
                                path@,
                            );
                        }
                        PaymentState::Checking { path, excluded, attempts: attempts + 1 }
                    },
                    None => PaymentState::Exhausted {
                        reason: FailureReason::NoPath,
                        attempts: attempts + 1,
                    },
                }
            }
        },
        PaymentState::Checking { path, excluded, attempts } => {
            match process_payment(graph, &path, payment.amount) {
                Ok(total_fee) => PaymentState::Settled { path, total_fee, attempts },
                Err(e) => {
                    let mut excluded = excluded;
                    excluded.push(e.edge);
                    PaymentState::Routing { excluded, attempts }
                },
            }
        },
        PaymentState::Settled { path, total_fee, attempts } => PaymentState::Settled {
            path,
            total_fee,
            attempts,
        },
        PaymentState::Exhausted { reason, attempts } => PaymentState::Exhausted {
            reason,
            attempts,
        },
    }
}

/// Routes and settles one payment, routing again around each edge that
/// lacked balance, until it settles, no route is left, or `retry_times`
/// re-routings have been used up. Returns the outcome together with the
/// number of routing attempts made.
pub fn pay(graph: &mut ChannelGraph, payment: &Payment, retry_times: u32) -> (done: (
    PaymentOutcome,
    u64,
))
    requires
        old(graph).wf(),
    ensures
        final(graph).wf(),
        (done.0@, final(graph)@) == pay_spec(old(graph)@, *payment, retry_times),
        done.1 <= retry_times + 1,
        done.1 == run_spec(
            old(graph)@,
            *payment,
            retry_times,
            start_spec(old(graph)@, *payment),
        ).0.attempts(),
{
    let mut state = start(graph, payment);
    loop
        invariant
            graph.wf(),
            state@.ok(graph@, retry_times),
            run_spec(graph@, *payment, retry_times, state@) == run_spec(
                old(graph)@,
                *payment,
                retry_times,
                start_spec(old(graph)@, *payment),
            ),
        decreases state@.steps_left(retry_times),
    {
        match state {
            PaymentState::Settled { path, total_fee, attempts } => {
                return (PaymentOutcome::Settled { path, total_fee }, attempts);
            },
            PaymentState::Exhausted { reason, attempts } => {
                return (PaymentOutcome::Failed { reason, attempts }, attempts);
            },
            other => {
                state = step(graph, payment, retry_times, other);
            },
        }
    }
}

/// Processes `payments` in order against the graph, each to its outcome
/// before the next begins, and returns the outcomes in the same order.
pub fn simulation(graph: &mut ChannelGraph, payments: &Vec<Payment>, config: &Config) -> (outcomes:
    Vec<PaymentOutcome>)
    requires
        old(graph).wf(),
    ensures
        final(graph).wf(),
        outcomes@.len() == payments@.len(),
        (outcome_views(outcomes@), final(graph)@) == simulate_spec(
            old(graph)@,
            payments@,
            config.retry_times,
            payments@.len() as int,
        ),
{
    let mut outcomes: Vec<PaymentOutcome> = Vec::new();
    let mut i: usize = 0;
    assert(outcome_views(outcomes@) =~= Seq::<OutcomeView>::empty());
    while i < payments.len()
        invariant
            i <= payments@.len(),
            graph.wf(),
            outcomes@.len() == i,
            (outcome_views(outcomes@), graph@) == simulate_spec(
                old(graph)@,
                payments@,
                config.retry_times,
                i as int,
            ),
        decreases payments@.len() - i,
    {
        let ghost earlier = outcome_views(outcomes@);
        let (outcome, _) = pay(graph, &payments[i], config.retry_times);
        outcomes.push(outcome);
        assert(outcome_views(outcomes@) =~= earlier.push(outcome@));
        i += 1;
    }
    outcomes
}

} // verus!
