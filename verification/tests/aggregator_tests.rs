//! Consensus aggregation behavior: quorum, freshness, timestamp spread,
//! deviation, the sanity band, and the bounded store.

use oracle_vm::aggregator::{AggregateOutcome, AggregatorService};

const NOW: u64 = 1_700_000_000;

fn submit(
    svc: &mut AggregatorService,
    price: u64,
    timestamp: u64,
    source: &str,
    node: &str,
    now: u64,
) -> oracle_vm::aggregator::PriceResponse {
    svc.submit_price(price, timestamp, source.to_string(), node.to_string(), now)
}

#[test]
fn aggregate_publishes_mean_with_quorum() {
    let mut svc = AggregatorService::new();
    submit(&mut svc, 50_000, NOW, "binance", "node1", NOW);
    submit(&mut svc, 50_200, NOW + 10, "coinbase", "node2", NOW);
    match svc.aggregate(NOW) {
        AggregateOutcome::Aggregated(a) => {
            assert_eq!(a.mean_price, 50_100);
            assert_eq!(a.contributor_count, 2);
            assert_eq!(a.price_sum, 100_200);
            assert_eq!(a.min_timestamp, NOW);
            assert_eq!(a.max_timestamp, NOW + 10);
            assert_eq!(a.sources, vec!["binance".to_string(), "coinbase".to_string()]);
        }
        other => panic!("expected an aggregate, got {:?}", other),
    }
}

#[test]
fn aggregate_uses_freshest_per_exchange() {
    let mut svc = AggregatorService::new();
    // Two observations from the same exchange: the fresher embedded
    // timestamp wins, the stale price is ignored.
    submit(&mut svc, 40_000, NOW - 50, "binance", "node1", NOW);
    submit(&mut svc, 50_000, NOW, "binance", "node1", NOW);
    submit(&mut svc, 50_000, NOW, "coinbase", "node2", NOW);
    match svc.aggregate(NOW) {
        AggregateOutcome::Aggregated(a) => assert_eq!(a.mean_price, 50_000),
        other => panic!("expected an aggregate, got {:?}", other),
    }
}

#[test]
fn single_exchange_is_insufficient_consensus() {
    let mut svc = AggregatorService::new();
    submit(&mut svc, 50_000, NOW, "binance", "node1", NOW);
    submit(&mut svc, 50_100, NOW + 5, "binance", "node2", NOW);
    match svc.aggregate(NOW) {
        AggregateOutcome::InsufficientConsensus => {}
        other => panic!("expected insufficient consensus, got {:?}", other),
    }
}

#[test]
fn sixty_one_second_spread_is_timestamp_mismatch() {
    let mut svc = AggregatorService::new();
    // Both observations are fresh by receipt time, but their embedded
    // timestamps differ by 61 seconds.
    submit(&mut svc, 50_000, NOW, "binance", "node1", NOW);
    submit(&mut svc, 50_100, NOW + 61, "coinbase", "node2", NOW);
    match svc.aggregate(NOW) {
        AggregateOutcome::TimestampMismatch => {}
        other => panic!("expected a timestamp mismatch, got {:?}", other),
    }
}

#[test]
fn sixty_second_spread_is_accepted() {
    let mut svc = AggregatorService::new();
    submit(&mut svc, 50_000, NOW, "binance", "node1", NOW);
    submit(&mut svc, 50_100, NOW + 60, "coinbase", "node2", NOW);
    match svc.aggregate(NOW) {
        AggregateOutcome::Aggregated(a) => assert_eq!(a.mean_price, 50_050),
        other => panic!("expected an aggregate, got {:?}", other),
    }
}

#[test]
fn deviation_exactly_five_percent_is_accepted() {
    let mut svc = AggregatorService::new();
    // Prices 10500 and 9500: the mean is 10000 and each price deviates by
    // exactly 5.000% of it.
    submit(&mut svc, 10_500, NOW, "binance", "node1", NOW);
    submit(&mut svc, 9_500, NOW + 1, "coinbase", "node2", NOW);
    match svc.aggregate(NOW) {
        AggregateOutcome::Aggregated(a) => assert_eq!(a.mean_price, 10_000),
        other => panic!("expected an aggregate, got {:?}", other),
    }
}

#[test]
fn deviation_just_over_five_percent_is_anomaly() {
    let mut svc = AggregatorService::new();
    // Prices 105001 and 94999: the mean is 100000 and the high price
    // deviates by 5.0001% of it — just past the inclusive bound.
    submit(&mut svc, 105_001, NOW, "binance", "node1", NOW);
    submit(&mut svc, 94_999, NOW + 1, "coinbase", "node2", NOW);
    match svc.aggregate(NOW) {
        AggregateOutcome::PriceAnomaly => {}
        other => panic!("expected a price anomaly, got {:?}", other),
    }
}

#[test]
fn unrealistic_mean_is_rejected() {
    let mut svc = AggregatorService::new();
    submit(&mut svc, 1_000, NOW, "binance", "node1", NOW);
    submit(&mut svc, 1_000, NOW + 1, "coinbase", "node2", NOW);
    match svc.aggregate(NOW) {
        AggregateOutcome::UnrealisticPrice => {}
        other => panic!("expected an unrealistic price, got {:?}", other),
    }
}

#[test]
fn stale_observations_do_not_contribute() {
    let mut svc = AggregatorService::new();
    // Received 121 seconds ago: outside the 120-second freshness window.
    submit(&mut svc, 50_000, NOW - 121, "binance", "node1", NOW - 121);
    submit(&mut svc, 50_100, NOW, "coinbase", "node2", NOW);
    match svc.aggregate(NOW) {
        AggregateOutcome::InsufficientConsensus => {}
        other => panic!("expected insufficient consensus, got {:?}", other),
    }
}

#[test]
fn zero_price_is_rejected_without_side_effect() {
    let mut svc = AggregatorService::new();
    submit(&mut svc, 50_000, NOW, "binance", "node1", NOW);
    let before = svc.observation_count();
    let nodes_before = svc.active_node_count();
    let r = submit(&mut svc, 0, NOW, "coinbase", "node2", NOW);
    assert!(!r.success);
    assert_eq!(r.message, "Price must be positive");
    assert!(r.aggregated_price.is_none());
    assert_eq!(svc.observation_count(), before);
    assert_eq!(svc.active_node_count(), nodes_before);
}

#[test]
fn store_evicts_oldest_beyond_capacity() {
    let mut svc = AggregatorService::new();
    for i in 0..105u64 {
        submit(&mut svc, 50_000 + i, NOW + i, "binance", "node1", NOW);
    }
    assert_eq!(svc.observation_count(), 100);
}

#[test]
fn submit_price_reports_aggregate_when_quorum_met() {
    let mut svc = AggregatorService::new();
    let r1 = submit(&mut svc, 50_000, NOW, "binance", "node1", NOW);
    assert!(r1.success);
    assert_eq!(r1.message, "Price data received");
    assert!(r1.aggregated_price.is_none());
    let r2 = submit(&mut svc, 50_200, NOW + 10, "coinbase", "node2", NOW);
    assert!(r2.success);
    assert_eq!(r2.aggregated_price, Some(50_100));
    assert_eq!(r2.timestamp, NOW);
}

#[test]
fn health_check_counts_live_nodes() {
    let mut svc = AggregatorService::new();
    submit(&mut svc, 50_000, NOW, "binance", "node1", NOW);
    let h = svc.health_check("node2".to_string(), NOW);
    assert!(h.healthy);
    assert_eq!(h.version, "1.0.0");
    assert_eq!(h.timestamp, NOW);
    assert_eq!(h.active_nodes, 2);
    // 121 seconds later only the probing node is still live.
    let h2 = svc.health_check("node3".to_string(), NOW + 121);
    assert_eq!(h2.active_nodes, 1);
}

#[test]
fn get_aggregated_price_success_fields() {
    let mut svc = AggregatorService::new();
    for i in 0..7u64 {
        submit(
            &mut svc,
            50_000,
            NOW + i,
            if i % 2 == 0 { "binance" } else { "coinbase" },
            "node1",
            NOW,
        );
    }
    let r = svc.get_aggregated_price(NOW);
    assert!(r.success);
    assert_eq!(r.aggregated_price, 50_000);
    assert_eq!(r.data_points, 7);
    assert_eq!(r.last_update, NOW);
    assert_eq!(r.recent_prices.len(), 5);
    // Newest first: the last submission carried embedded timestamp NOW + 6.
    assert_eq!(r.recent_prices[0].timestamp, NOW + 6);
    assert_eq!(r.recent_prices[4].timestamp, NOW + 2);
}

#[test]
fn get_aggregated_price_failure_is_empty() {
    let svc = AggregatorService::new();
    let r = svc.get_aggregated_price(NOW);
    assert!(!r.success);
    assert_eq!(r.aggregated_price, 0);
    assert_eq!(r.data_points, 0);
    assert_eq!(r.last_update, 0);
    assert!(r.recent_prices.is_empty());
}
