use pcn_simulation::channel::ChannelEdge;
use pcn_simulation::fees::{fee_for, FeePolicy};
use pcn_simulation::graph::ChannelGraph;
use pcn_simulation::indexer::{mapping_address, AddressIndexer};
use pcn_simulation::loader::load_graph;
use pcn_simulation::payment::{
    generate_payment, simulation, Config, FailureReason, Payment, PaymentOutcome,
};
use pcn_simulation::report::{summarize, Summary};
use pcn_simulation::random::RandomSource;
use pcn_simulation::search::cheapest_path;
use pcn_simulation::snapshot::{
    aggregate, parse_record, parse_records, ChannelRecord, NumericField, ParseError, RawChannel,
};
use pcn_simulation::text::parse_decimal;

fn raw(enabled: bool, src: &str, trg: &str, capacity: &str, base: &str, rate: &str) -> RawChannel {
    RawChannel {
        enabled,
        src: src.to_string(),
        trg: trg.to_string(),
        capacity: capacity.to_string(),
        fee_base: base.to_string(),
        fee_rate: rate.to_string(),
    }
}

fn record(enabled: bool, src: &str, trg: &str, capacity: u64, base: u64, rate: u64) -> ChannelRecord {
    ChannelRecord {
        enabled,
        src: src.to_string(),
        trg: trg.to_string(),
        capacity,
        fee_base: base,
        fee_rate: rate,
    }
}

fn edges_of(graph: &ChannelGraph) -> Vec<ChannelEdge> {
    (0..graph.edge_count()).map(|i| graph.edge(i)).collect()
}

fn balances_of(graph: &ChannelGraph) -> Vec<u64> {
    (0..graph.edge_count()).map(|i| graph.balance_at(i)).collect()
}

#[test]
fn decimal_fields_are_read_exactly() {
    assert_eq!(parse_decimal("0"), Some(0));
    assert_eq!(parse_decimal("123"), Some(123));
    assert_eq!(parse_decimal("007"), Some(7));
    assert_eq!(parse_decimal("18446744073709551615"), Some(u64::MAX));
}

#[test]
fn malformed_decimal_fields_are_refused() {
    assert_eq!(parse_decimal(""), None);
    assert_eq!(parse_decimal("12a"), None);
    assert_eq!(parse_decimal("-1"), None);
    assert_eq!(parse_decimal("+1"), None);
    assert_eq!(parse_decimal(" 1"), None);
    assert_eq!(parse_decimal("1.5"), None);
    assert_eq!(parse_decimal("18446744073709551616"), None);
    assert_eq!(parse_decimal("99999999999999999999999"), None);
}

#[test]
fn fee_is_base_thousandth_plus_rate_millionth() {
    assert_eq!(fee_for(FeePolicy { fee_base: 1000, fee_rate: 0 }, 40), 1);
    assert_eq!(fee_for(FeePolicy { fee_base: 1999, fee_rate: 0 }, 40), 1);
    assert_eq!(fee_for(FeePolicy { fee_base: 0, fee_rate: 1 }, 999_999), 0);
    assert_eq!(fee_for(FeePolicy { fee_base: 0, fee_rate: 1 }, 1_000_000), 1);
    assert_eq!(fee_for(FeePolicy { fee_base: 1000, fee_rate: 1000 }, 1_000_000), 1001);
    assert_eq!(
        fee_for(FeePolicy { fee_base: u64::MAX, fee_rate: u64::MAX }, u64::MAX),
        (u64::MAX / 1000) as u128 + (u64::MAX as u128 * u64::MAX as u128) / 1_000_000
    );
}

#[test]
fn each_malformed_field_is_named_with_its_record() {
    let good = raw(true, "a", "b", "10", "1", "2");
    let parsed = parse_record(&good, 0).unwrap();
    assert_eq!((parsed.capacity, parsed.fee_base, parsed.fee_rate), (10, 1, 2));
    assert_eq!((parsed.src.as_str(), parsed.trg.as_str(), parsed.enabled), ("a", "b", true));

    let raws = vec![good.clone(), raw(true, "a", "b", "x", "y", "z")];
    assert_eq!(
        parse_records(&raws).unwrap_err(),
        ParseError { field: NumericField::Capacity, record_index: 1 }
    );
    let raws = vec![good.clone(), good.clone(), raw(false, "a", "b", "1", "", "z")];
    assert_eq!(
        parse_records(&raws).unwrap_err(),
        ParseError { field: NumericField::FeeBase, record_index: 2 }
    );
    let raws = vec![raw(true, "a", "b", "1", "2", "3.0"), raw(true, "a", "b", "x", "2", "3")];
    assert_eq!(
        parse_records(&raws).unwrap_err(),
        ParseError { field: NumericField::FeeRate, record_index: 0 }
    );
}

#[test]
fn aggregation_sums_capacity_and_keeps_the_first_fee_policy() {
    let records = vec![
        record(true, "x", "y", 100, 1, 2),
        record(true, "y", "x", 70, 3, 4),
        record(true, "x", "y", 50, 9, 9),
        record(false, "x", "y", 1000, 7, 7),
        record(true, "x", "z", 9, 5, 5),
        record(true, "y", "z", 10, 5, 6),
    ];
    let (table, indexer) = aggregate(&records, 10).unwrap();
    assert_eq!(indexer.len(), 3);
    assert_eq!(indexer.lookup(&"x".to_string()), Some(0));
    assert_eq!(indexer.lookup(&"y".to_string()), Some(1));
    assert_eq!(indexer.lookup(&"z".to_string()), Some(2));
    let edges: Vec<ChannelEdge> = (0..table.len()).map(|i| table.get(i)).collect();
    assert_eq!(
        edges,
        vec![
            ChannelEdge { src: 0, trg: 1, capacity: 150, fee_base: 1, fee_rate: 2 },
            ChannelEdge { src: 1, trg: 0, capacity: 70, fee_base: 3, fee_rate: 4 },
            ChannelEdge { src: 1, trg: 2, capacity: 10, fee_base: 5, fee_rate: 6 },
        ]
    );
    assert_eq!(table.find(1, 2), Some(2));
    assert_eq!(table.find(0, 2), None);
}

#[test]
fn pruned_records_intern_no_address() {
    let records = vec![record(true, "p", "q", 1, 0, 0), record(true, "r", "s", 5, 0, 0)];
    let (table, indexer) = aggregate(&records, 5).unwrap();
    assert_eq!(table.len(), 1);
    assert_eq!(indexer.len(), 2);
    assert_eq!(indexer.lookup(&"r".to_string()), Some(0));
    assert_eq!(indexer.lookup(&"p".to_string()), None);
}

#[test]
fn capacity_sum_beyond_sixty_four_bits_fails_the_load() {
    let records = vec![
        record(true, "x", "y", u64::MAX, 1, 2),
        record(true, "y", "x", 1, 1, 2),
        record(true, "x", "y", 1, 1, 2),
    ];
    assert_eq!(
        aggregate(&records, 0).unwrap_err(),
        ParseError { field: NumericField::Capacity, record_index: 2 }
    );
}

#[test]
fn addresses_get_dense_ids_in_order_of_discovery() {
    let edges = vec![
        ("b".to_string(), "a".to_string(), 1u64),
        ("a".to_string(), "c".to_string(), 1u64),
        ("c".to_string(), "b".to_string(), 1u64),
        ("d".to_string(), "d".to_string(), 1u64),
    ];
    let indexer = mapping_address(&edges);
    assert_eq!(indexer.len(), 4);
    assert_eq!(indexer.lookup(&"b".to_string()), Some(0));
    assert_eq!(indexer.lookup(&"a".to_string()), Some(1));
    assert_eq!(indexer.lookup(&"c".to_string()), Some(2));
    assert_eq!(indexer.lookup(&"d".to_string()), Some(3));
    assert_eq!(indexer.lookup(&"e".to_string()), None);
    assert_eq!(indexer.address(2).map(|s| s.as_str()), Some("c"));
    assert_eq!(indexer.address(4), None);
}

#[test]
fn interning_twice_returns_the_same_id() {
    let mut indexer = AddressIndexer::new();
    assert_eq!(indexer.intern(&"n1".to_string()), 0);
    assert_eq!(indexer.intern(&"n2".to_string()), 1);
    assert_eq!(indexer.intern(&"n1".to_string()), 0);
    assert_eq!(indexer.intern(&"n3".to_string()), 2);
    assert_eq!(indexer.len(), 3);
}

#[test]
fn ratios_stay_in_range_and_follow_the_seed() {
    let mut first = RandomSource::new(42);
    let mut second = RandomSource::new(42);
    let mut other = RandomSource::new(43);
    let mut differs = false;
    for _ in 0..1000 {
        let ratio = first.next_ratio();
        assert!(ratio <= 100);
        assert_eq!(ratio, second.next_ratio());
        differs = differs || ratio != other.next_ratio();
    }
    assert!(differs);
    // state 0 advances to the increment, whose upper half decides the ratio
    let upper = 1442695040888963407u64 >> 32;
    assert_eq!(RandomSource::new(0).next_ratio(), (upper % 101) as u8);
    assert_eq!(RandomSource::new(0).next_below(7), (upper % 7) as u32);
}

#[test]
fn opposite_edges_of_equal_capacity_partition_it() {
    let raws = vec![
        raw(true, "a", "b", "1000", "0", "0"),
        raw(true, "b", "a", "1000", "0", "0"),
        raw(true, "b", "c", "500", "0", "0"),
        raw(true, "c", "a", "300", "0", "0"),
        raw(true, "a", "c", "300", "0", "0"),
    ];
    for seed in 0..50u64 {
        let mut rng = RandomSource::new(seed);
        let (graph, _) = load_graph(&raws, 1, &mut rng).unwrap();
        let ab = graph.balance(0, 1).unwrap();
        let ba = graph.balance(1, 0).unwrap();
        assert_eq!(ab + ba, 1000);
        let ca = graph.balance(2, 0).unwrap();
        let ac = graph.balance(0, 2).unwrap();
        assert_eq!(ca + ac, 300);
        for i in 0..graph.edge_count() {
            assert!(graph.balance_at(i) <= graph.edge(i).capacity);
        }
    }
}

#[test]
fn starting_balances_follow_the_drawn_ratio() {
    let raws = vec![
        raw(true, "a", "b", "1001", "0", "0"),
        raw(true, "b", "a", "77", "0", "0"),
        raw(true, "b", "c", "55", "0", "0"),
    ];
    let mut rng = RandomSource::new(7);
    let (graph, _) = load_graph(&raws, 1, &mut rng).unwrap();
    let mut replay = RandomSource::new(7);
    let first = replay.next_ratio() as u64;
    let second = replay.next_ratio() as u64;
    assert_eq!(graph.balance(0, 1), Some(first * 1001 / 100));
    assert_eq!(graph.balance(1, 0), Some(77 * (100 - first) / 100));
    assert_eq!(graph.balance(1, 2), Some(second * 55 / 100));
}

#[test]
fn loading_prunes_and_reports_errors() {
    let raws = vec![
        raw(true, "a", "b", "10", "1000", "1"),
        raw(false, "b", "c", "10", "0", "0"),
        raw(true, "c", "d", "4", "0", "0"),
    ];
    let mut rng = RandomSource::new(1);
    let (graph, indexer) = load_graph(&raws, 5, &mut rng).unwrap();
    assert_eq!(graph.node_count(), 2);
    assert_eq!(indexer.len(), 2);
    assert_eq!(graph.amount(), 5);
    assert_eq!(
        edges_of(&graph),
        vec![ChannelEdge { src: 0, trg: 1, capacity: 10, fee_base: 1000, fee_rate: 1 }]
    );

    let raws = vec![raw(true, "a", "b", "10", "1000", "1"), raw(false, "b", "c", "ten", "0", "0")];
    let mut rng = RandomSource::new(1);
    assert_eq!(
        load_graph(&raws, 5, &mut rng).unwrap_err(),
        ParseError { field: NumericField::Capacity, record_index: 1 }
    );
}

#[test]
fn same_seed_gives_the_same_run() {
    let raws = vec![
        raw(true, "a", "b", "1000", "1000", "100"),
        raw(true, "b", "a", "1000", "1000", "100"),
        raw(true, "b", "c", "800", "2000", "500"),
        raw(true, "c", "b", "800", "0", "0"),
        raw(true, "a", "c", "600", "9000", "900"),
        raw(true, "c", "d", "700", "0", "10"),
    ];
    let payments = vec![
        Payment { src: 0, trg: 3, amount: 100 },
        Payment { src: 0, trg: 2, amount: 100 },
        Payment { src: 2, trg: 0, amount: 100 },
        Payment { src: 1, trg: 3, amount: 100 },
        Payment { src: 0, trg: 3, amount: 100 },
    ];
    let config = Config { retry_times: 10 };
    let mut rng = RandomSource::new(2024);
    let (mut first, _) = load_graph(&raws, 100, &mut rng).unwrap();
    let mut rng = RandomSource::new(2024);
    let (mut second, _) = load_graph(&raws, 100, &mut rng).unwrap();
    assert_eq!(balances_of(&first), balances_of(&second));
    let first_outcomes = simulation(&mut first, &payments, &config);
    let second_outcomes = simulation(&mut second, &payments, &config);
    assert_eq!(first_outcomes.len(), payments.len());
    assert_eq!(first_outcomes, second_outcomes);
    assert_eq!(balances_of(&first), balances_of(&second));
}

#[test]
fn graph_answers_fee_balance_and_neighbours() {
    let records = vec![
        record(true, "a", "b", 100, 3000, 500_000),
        record(true, "a", "c", 100, 0, u64::MAX),
        record(true, "b", "c", 100, 1000, 0),
    ];
    let (table, _) = aggregate(&records, 0).unwrap();
    let mut graph = ChannelGraph::with_balances(table, 3, 10, vec![10, 20, 30]).unwrap();
    assert_eq!(graph.fee_cost(0, 1), Some(3 + 5));
    assert_eq!(graph.fee_cost(0, 2), Some((u64::MAX as u128 * 10 / 1_000_000) as u64));
    assert_eq!(graph.fee_cost(1, 0), None);
    assert_eq!(graph.balance(1, 2), Some(30));
    assert_eq!(graph.balance(2, 1), None);
    assert_eq!(graph.find(0, 2), Some(1));
    assert_eq!(graph.neighbors(0), vec![(1, 8), (2, (u64::MAX as u128 * 10 / 1_000_000) as u64)]);
    assert_eq!(graph.neighbors(2), vec![]);
    graph.apply_delta(0, 1, 90);
    assert_eq!(graph.balance(0, 1), Some(100));
    graph.apply_delta(0, 1, -100);
    assert_eq!(graph.balance(0, 1), Some(0));
    graph.apply_delta(1, 2, -30);
    assert_eq!(balances_of(&graph), vec![0, 20, 0]);
}

#[test]
fn graph_with_inconsistent_balances_is_refused() {
    let records = vec![record(true, "a", "b", 100, 0, 0)];
    let (table, _) = aggregate(&records, 0).unwrap();
    assert!(ChannelGraph::with_balances(table, 2, 1, vec![101]).is_none());
    let (table, _) = aggregate(&records, 0).unwrap();
    assert!(ChannelGraph::with_balances(table, 2, 1, vec![]).is_none());
    let (table, _) = aggregate(&records, 0).unwrap();
    assert!(ChannelGraph::with_balances(table, 1, 1, vec![5]).is_none());
    let (table, _) = aggregate(&records, 0).unwrap();
    assert!(ChannelGraph::with_balances(table, 2, 1, vec![100]).is_some());
}

#[test]
fn search_returns_cost_and_nodes_of_the_cheapest_path() {
    let edges = vec![(0u32, 1u32, 4u64), (1, 2, 4), (0, 2, 9), (2, 3, 1)];
    assert_eq!(cheapest_path(&edges, 0, 3), Some((9, vec![0, 1, 2, 3])));
    assert_eq!(cheapest_path(&edges, 0, 2), Some((8, vec![0, 1, 2])));
    assert_eq!(cheapest_path(&edges, 3, 0), None);
    let heavy = vec![(0u32, 1u32, u64::MAX), (1, 2, u64::MAX)];
    assert_eq!(cheapest_path(&heavy, 0, 2), Some((2 * (u64::MAX as u128), vec![0, 1, 2])));
}

#[test]
fn generated_payments_stay_among_the_nodes() {
    let mut rng = RandomSource::new(5);
    let payments = generate_payment(200, 7, 1234, &mut rng);
    assert_eq!(payments.len(), 200);
    for payment in &payments {
        assert!(payment.src < 7 && payment.trg < 7);
        assert_eq!(payment.amount, 1234);
    }
    let mut replay = RandomSource::new(5);
    assert_eq!(payments[0].src, replay.next_below(7));
    assert_eq!(payments[0].trg, replay.next_below(7));
    assert_eq!(payments[1].src, replay.next_below(7));
    let mut again = RandomSource::new(5);
    assert_eq!(generate_payment(200, 7, 1234, &mut again), payments);
    assert_eq!(generate_payment(3, 0, 1, &mut again), vec![]);
}

#[test]
fn summary_counts_each_kind_of_outcome() {
    let outcomes = vec![
        PaymentOutcome::Settled { path: vec![0, 1], total_fee: 0 },
        PaymentOutcome::Failed { reason: FailureReason::NoPath, attempts: 1 },
        PaymentOutcome::Settled { path: vec![1, 2], total_fee: 3 },
        PaymentOutcome::Failed { reason: FailureReason::RetriesExhausted, attempts: 11 },
        PaymentOutcome::Failed { reason: FailureReason::UnknownAddress, attempts: 0 },
        PaymentOutcome::Failed { reason: FailureReason::NoPath, attempts: 2 },
        PaymentOutcome::Settled { path: vec![2, 0], total_fee: 1 },
    ];
    assert_eq!(
        summarize(&outcomes),
        Summary { settled: 3, unknown_address: 1, no_path: 2, retries_exhausted: 1 }
    );
    assert_eq!(
        summarize(&vec![]),
        Summary { settled: 0, unknown_address: 0, no_path: 0, retries_exhausted: 0 }
    );
}

#[test]
fn many_addresses_keep_their_ids() {
    let mut indexer = AddressIndexer::new();
    for i in 0..2000u32 {
        assert_eq!(indexer.intern(&format!("node-{i}")), i);
    }
    for i in (0..2000u32).rev() {
        assert_eq!(indexer.intern(&format!("node-{i}")), i);
        assert_eq!(indexer.lookup(&format!("node-{i}")), Some(i));
    }
    assert_eq!(indexer.len(), 2000);
    assert_eq!(indexer.lookup(&"node-2000".to_string()), None);
}
