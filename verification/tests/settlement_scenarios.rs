use pcn_simulation::graph::ChannelGraph;
use pcn_simulation::payment::{pay, simulation, Config, FailureReason, Payment, PaymentOutcome};
use pcn_simulation::router::{check_route, path_hops, route};
use pcn_simulation::settlement::{forward_amounts, process_payment, InsufficientBalance};
use pcn_simulation::snapshot::{aggregate, ChannelRecord};

fn record(src: &str, trg: &str, capacity: u64, fee_base: u64, fee_rate: u64) -> ChannelRecord {
    ChannelRecord {
        enabled: true,
        src: src.to_string(),
        trg: trg.to_string(),
        capacity,
        fee_base,
        fee_rate,
    }
}

/// A (0) -> B (1) -> C (2), balances 100 and 50.
fn line_graph() -> ChannelGraph {
    let records = vec![record("A", "B", 100, 0, 0), record("B", "C", 50, 1000, 0)];
    let (table, indexer) = aggregate(&records, 0).unwrap();
    assert_eq!(indexer.len(), 3);
    ChannelGraph::with_balances(table, 3, 40, vec![100, 50]).unwrap()
}

/// Two routes from 0 to 3: over 1 (cheap, little balance) and over 2 (dear).
fn diamond_graph() -> ChannelGraph {
    let records = vec![
        record("s", "a", 1000, 0, 0),
        record("a", "t", 1000, 1000, 0),
        record("s", "b", 1000, 0, 0),
        record("b", "t", 1000, 5000, 0),
    ];
    let (table, _) = aggregate(&records, 0).unwrap();
    // nodes: s=0, a=1, t=2, b=3
    ChannelGraph::with_balances(table, 4, 100, vec![1000, 10, 1000, 1000]).unwrap()
}

#[test]
fn two_hop_payment_settles_with_fee_of_one() {
    let mut graph = line_graph();
    let payment = Payment { src: 0, trg: 2, amount: 40 };
    let (outcome, attempts) = pay(&mut graph, &payment, 10);
    assert_eq!(outcome, PaymentOutcome::Settled { path: vec![0, 1, 2], total_fee: 1 });
    assert_eq!(attempts, 1);
    assert_eq!(graph.balance(0, 1), Some(59));
    assert_eq!(graph.balance(1, 2), Some(10));
}

#[test]
fn two_hop_payment_forwards_amount_plus_downstream_fee() {
    let graph = line_graph();
    let amounts = forward_amounts(&graph, &vec![0, 1, 2], 40);
    assert_eq!(amounts, vec![41u128, 40u128]);
}

#[test]
fn payment_beyond_balance_fails_with_no_path() {
    let mut graph = line_graph();
    let payment = Payment { src: 0, trg: 2, amount: 60 };
    let (outcome, attempts) = pay(&mut graph, &payment, 10);
    assert_eq!(outcome, PaymentOutcome::Failed { reason: FailureReason::NoPath, attempts: 2 });
    assert_eq!(attempts, 2);
    assert_eq!(graph.balance(0, 1), Some(100));
    assert_eq!(graph.balance(1, 2), Some(50));
}

#[test]
fn failed_settlement_reports_the_edge_and_changes_nothing() {
    let mut graph = line_graph();
    let failed = process_payment(&mut graph, &vec![0, 1, 2], 60);
    assert_eq!(
        failed,
        Err(InsufficientBalance { edge: (1, 2), required: 60, available: 50 })
    );
    assert_eq!(graph.balance(0, 1), Some(100));
    assert_eq!(graph.balance(1, 2), Some(50));
}

#[test]
fn first_failing_hop_in_path_order_is_reported() {
    let records = vec![record("A", "B", 100, 0, 0), record("B", "C", 100, 0, 0)];
    let (table, _) = aggregate(&records, 0).unwrap();
    let mut graph = ChannelGraph::with_balances(table, 3, 1, vec![5, 7]).unwrap();
    let failed = process_payment(&mut graph, &vec![0, 1, 2], 10);
    assert_eq!(failed, Err(InsufficientBalance { edge: (0, 1), required: 10, available: 5 }));
}

#[test]
fn settlement_debits_each_hop_and_leaves_reverse_edge_alone() {
    let records = vec![
        record("A", "B", 100, 0, 0),
        record("B", "A", 100, 0, 0),
        record("B", "C", 100, 2000, 10_000),
    ];
    let (table, _) = aggregate(&records, 0).unwrap();
    let mut graph = ChannelGraph::with_balances(table, 3, 1, vec![80, 20, 90]).unwrap();
    // fee on the last hop: 2000 / 1000 + 10_000 * 50 / 1_000_000 = 2 + 0
    let paid = process_payment(&mut graph, &vec![0, 1, 2], 50);
    assert_eq!(paid, Ok(2));
    assert_eq!(graph.balance(0, 1), Some(28));
    assert_eq!(graph.balance(1, 0), Some(20));
    assert_eq!(graph.balance(1, 2), Some(40));
}

#[test]
fn retry_goes_around_the_edge_that_lacked_balance() {
    let mut graph = diamond_graph();
    let payment = Payment { src: 0, trg: 2, amount: 100 };
    let (outcome, attempts) = pay(&mut graph, &payment, 10);
    assert_eq!(outcome, PaymentOutcome::Settled { path: vec![0, 3, 2], total_fee: 5 });
    assert_eq!(attempts, 2);
    assert_eq!(graph.balance(0, 1), Some(1000));
    assert_eq!(graph.balance(1, 2), Some(10));
    assert_eq!(graph.balance(0, 3), Some(895));
    assert_eq!(graph.balance(3, 2), Some(900));
}

#[test]
fn without_retries_the_first_shortfall_exhausts_the_payment() {
    let mut graph = diamond_graph();
    let payment = Payment { src: 0, trg: 2, amount: 100 };
    let (outcome, attempts) = pay(&mut graph, &payment, 0);
    assert_eq!(
        outcome,
        PaymentOutcome::Failed { reason: FailureReason::RetriesExhausted, attempts: 1 }
    );
    assert_eq!(attempts, 1);
    assert_eq!(graph.balance(0, 3), Some(1000));
}

#[test]
fn attempts_never_exceed_retry_times_plus_one() {
    for retry_times in 0..4u32 {
        let mut graph = diamond_graph();
        let payment = Payment { src: 0, trg: 2, amount: 2000 };
        let (outcome, attempts) = pay(&mut graph, &payment, retry_times);
        assert!(attempts <= retry_times as u64 + 1);
        assert!(matches!(outcome, PaymentOutcome::Failed { .. }));
    }
}

#[test]
fn payment_to_unknown_node_fails_without_routing() {
    let mut graph = line_graph();
    let payment = Payment { src: 0, trg: 9, amount: 1 };
    let (outcome, attempts) = pay(&mut graph, &payment, 10);
    assert_eq!(
        outcome,
        PaymentOutcome::Failed { reason: FailureReason::UnknownAddress, attempts: 0 }
    );
    assert_eq!(attempts, 0);
}

#[test]
fn payment_to_itself_finds_no_path() {
    let mut graph = line_graph();
    let payment = Payment { src: 1, trg: 1, amount: 1 };
    let (outcome, _) = pay(&mut graph, &payment, 10);
    assert_eq!(outcome, PaymentOutcome::Failed { reason: FailureReason::NoPath, attempts: 1 });
}

#[test]
fn later_payments_see_the_balances_left_by_earlier_ones() {
    let mut graph = line_graph();
    let payments = vec![
        Payment { src: 0, trg: 2, amount: 40 },
        Payment { src: 0, trg: 2, amount: 40 },
        Payment { src: 0, trg: 1, amount: 59 },
    ];
    let outcomes = simulation(&mut graph, &payments, &Config { retry_times: 10 });
    assert_eq!(
        outcomes,
        vec![
            PaymentOutcome::Settled { path: vec![0, 1, 2], total_fee: 1 },
            PaymentOutcome::Failed { reason: FailureReason::NoPath, attempts: 2 },
            PaymentOutcome::Settled { path: vec![0, 1], total_fee: 0 },
        ]
    );
    assert_eq!(graph.balance(0, 1), Some(0));
    assert_eq!(graph.balance(1, 2), Some(10));
}

#[test]
fn route_prefers_the_cheaper_of_two_paths() {
    let graph = diamond_graph();
    assert_eq!(route(&graph, 0, 2, &vec![]), Some(vec![0, 1, 2]));
}

#[test]
fn route_avoids_excluded_edges() {
    let graph = diamond_graph();
    assert_eq!(route(&graph, 0, 2, &vec![(1, 2)]), Some(vec![0, 3, 2]));
    assert_eq!(route(&graph, 0, 2, &vec![(1, 2), (0, 3)]), None);
}

#[test]
fn route_is_none_for_equal_or_absent_endpoints() {
    let graph = diamond_graph();
    assert_eq!(route(&graph, 0, 0, &vec![]), None);
    assert_eq!(route(&graph, 0, 4, &vec![]), None);
    assert_eq!(route(&graph, 7, 2, &vec![]), None);
    // edges only lead towards node 2
    assert_eq!(route(&graph, 2, 0, &vec![]), None);
}

#[test]
fn path_hops_pairs_each_node_with_its_successor() {
    assert_eq!(path_hops(&vec![4, 7, 9, 1]), vec![(4, 7), (7, 9), (9, 1)]);
    assert_eq!(path_hops(&vec![4, 7]), vec![(4, 7)]);
    assert_eq!(path_hops(&vec![4]), vec![]);
    assert_eq!(path_hops(&vec![]), vec![]);
}

#[test]
fn check_route_rejects_what_is_no_route() {
    let graph = diamond_graph();
    assert!(check_route(&graph, &vec![], 0, 2, &vec![0, 1, 2]));
    assert!(!check_route(&graph, &vec![(0, 1)], 0, 2, &vec![0, 1, 2]));
    assert!(!check_route(&graph, &vec![], 0, 2, &vec![0, 2]));
    assert!(!check_route(&graph, &vec![], 0, 2, &vec![0]));
    assert!(!check_route(&graph, &vec![], 1, 2, &vec![0, 1, 2]));
    assert!(!check_route(&graph, &vec![], 0, 1, &vec![0, 1, 2]));
}

#[test]
fn larger_amount_never_pays_a_smaller_fee() {
    let records = vec![
        record("A", "B", u64::MAX, 0, 0),
        record("B", "C", u64::MAX, 1500, 2500),
        record("C", "D", u64::MAX, 999, 1_000_000),
    ];
    let (table, _) = aggregate(&records, 0).unwrap();
    let graph =
        ChannelGraph::with_balances(table, 4, 1, vec![u64::MAX, u64::MAX, u64::MAX]).unwrap();
    let path = vec![0, 1, 2, 3];
    let mut last_fee: u128 = 0;
    for amount in [0u64, 1, 399, 400, 1000, 123_456, 1_000_000, 5_000_000_000] {
        let amounts = forward_amounts(&graph, &path, amount);
        let fee = amounts[0] - amount as u128;
        assert!(fee >= last_fee);
        last_fee = fee;
    }
    // last hop charges 0 + amount, the middle hop 1 + 2500 * (2 * amount) / 1_000_000
    let amounts = forward_amounts(&graph, &path, 1_000_000);
    assert_eq!(amounts, vec![2_000_000 + 1 + 5000, 2_000_000, 1_000_000]);
}

#[test]
fn amounts_beyond_sixty_four_bits_are_capped_and_fail() {
    let records = vec![
        record("A", "B", u64::MAX, 0, 0),
        record("B", "C", u64::MAX, 0, u64::MAX),
    ];
    let (table, _) = aggregate(&records, 0).unwrap();
    let mut graph = ChannelGraph::with_balances(table, 3, 1, vec![u64::MAX, u64::MAX]).unwrap();
    let amounts = forward_amounts(&graph, &vec![0, 1, 2], u64::MAX);
    assert_eq!(amounts, vec![1u128 << 64, u64::MAX as u128]);
    let failed = process_payment(&mut graph, &vec![0, 1, 2], u64::MAX);
    assert_eq!(
        failed,
        Err(InsufficientBalance { edge: (0, 1), required: u64::MAX, available: u64::MAX })
    );
}

#[test]
fn default_config_allows_ten_retries() {
    assert_eq!(Config::default(), Config { retry_times: 10 });
}
