use router_flow::aggregator::{Aggregator, Ratio};
use router_flow::collector::{ingest_assignment, route_for_path, KnownCouriers, MetricsRoute};

fn value(r: Ratio) -> f64 {
    r.numerator as f64 / r.denominator as f64
}

fn mean(scores: &[u64]) -> f64 {
    if scores.is_empty() {
        return 0.0;
    }
    let sum: f64 = scores.iter().map(|b| f64::from_bits(*b)).sum();
    sum / scores.len() as f64
}

fn bits(x: f64) -> u64 {
    x.to_bits()
}

#[test]
fn empty_aggregator_returns_zeroes() {
    let mut agg = Aggregator::new(60);
    assert_eq!(agg.total_assignments(), 0);
    assert_eq!(agg.total_events_processed(), 0);
    assert!((value(agg.avg_latency_ms()) - 0.0).abs() < f64::EPSILON);
    assert!((agg.latency_percentile(9500) as f64 - 0.0).abs() < f64::EPSILON);
    assert!((mean(&agg.window_scores()) - 0.0).abs() < f64::EPSILON);
    assert_eq!(agg.active_couriers(), 0);
}

#[test]
fn single_assignment_metrics() {
    let mut agg = Aggregator::new(60);
    agg.record_assignment("courier-1".to_string(), bits(0.85), 120);

    assert_eq!(agg.total_assignments(), 1);
    assert!((value(agg.avg_latency_ms()) - 120.0).abs() < f64::EPSILON);
    assert!((agg.latency_percentile(9500) as f64 - 120.0).abs() < f64::EPSILON);
    assert!((mean(&agg.window_scores()) - 0.85).abs() < f64::EPSILON);
    assert_eq!(agg.active_couriers(), 1);
}

#[test]
fn percentile_with_multiple_records() {
    let mut agg = Aggregator::new(60);

    // 10 records with latencies 10, 20, 30, ..., 100
    for i in 1..=10 {
        agg.record_assignment(format!("courier-{}", i % 3), bits(0.5), i * 10);
    }

    assert_eq!(agg.total_assignments(), 10);

    let p95 = agg.latency_percentile(9500);
    // 95th percentile of [10,20,30,40,50,60,70,80,90,100] = index 8 = 90
    assert!((p95 as f64 - 90.0).abs() < f64::EPSILON);

    let p50 = agg.latency_percentile(5000);
    // 50th percentile = index 4 = 50
    assert!((p50 as f64 - 50.0).abs() < f64::EPSILON);
}

#[test]
fn avg_score_computed_correctly() {
    let mut agg = Aggregator::new(60);
    agg.record_assignment("c1".to_string(), bits(0.80), 10);
    agg.record_assignment("c2".to_string(), bits(0.60), 20);
    agg.record_assignment("c3".to_string(), bits(1.00), 30);

    let expected = (0.80 + 0.60 + 1.00) / 3.0;
    assert!((mean(&agg.window_scores()) - expected).abs() < 1e-10);
}

#[test]
fn utilization_tracks_unique_couriers_in_window() {
    let mut agg = Aggregator::new(60);
    agg.record_assignment("c1".to_string(), bits(0.5), 10);
    agg.record_assignment("c1".to_string(), bits(0.6), 20); // same courier
    agg.record_assignment("c2".to_string(), bits(0.7), 30);

    // 2 unique couriers active out of 5 total
    let util = value(agg.courier_utilization_pct(5));
    assert!((util - 40.0).abs() < f64::EPSILON);
}

#[test]
fn window_eviction_works() {
    let mut agg = Aggregator::new(60);

    // An old record, two minutes ago
    let now = chrono::Utc::now().timestamp_millis();
    agg.record_assignment_at("old".to_string(), bits(0.5), 999, now - 120_000);

    // Record a fresh one
    agg.record_assignment("new".to_string(), bits(0.8), 50);

    // The old record should be evicted; window should only have the new one
    assert_eq!(agg.window_len(), 1);
    assert!((value(agg.avg_latency_ms()) - 50.0).abs() < f64::EPSILON);
    // But total is still 2 (all-time)
    assert_eq!(agg.total_assignments(), 2);
}

#[test]
fn percentile_sorts_out_of_order_latencies() {
    let mut agg = Aggregator::new(60);
    let now = 1_000_000;
    for (i, lat) in [70i64, 10, 50, 30, 90].iter().enumerate() {
        agg.record_assignment_at(format!("c{}", i), bits(0.5), *lat, now);
    }
    // sorted: 10 30 50 70 90; p50 -> floor(2.5) - 1 = 1 -> 30
    assert_eq!(agg.latency_percentile_at(now, 5000), 30);
    // p99 -> floor(4.95) - 1 = 3 -> 70
    assert_eq!(agg.latency_percentile_at(now, 9900), 70);
    // p100 -> index 4 -> 90; p0 -> index 0 -> 10
    assert_eq!(agg.latency_percentile_at(now, 10000), 90);
    assert_eq!(agg.latency_percentile_at(now, 0), 10);
    // far above 100% clamps to the largest
    assert_eq!(agg.latency_percentile_at(now, 50000), 90);
}

#[test]
fn exact_average_latency_and_window_expiry() {
    let mut agg = Aggregator::new(1);
    agg.record_assignment_at("a".to_string(), bits(0.1), 10, 0);
    agg.record_assignment_at("b".to_string(), bits(0.2), 11, 500);
    let r = agg.avg_latency_ms_at(900);
    assert_eq!(r, Ratio { numerator: 21, denominator: 2 });
    // at 1200 the record from time 0 is older than the 1000 ms window
    let r = agg.avg_latency_ms_at(1200);
    assert_eq!(r, Ratio { numerator: 11, denominator: 1 });
    assert_eq!(agg.window_len(), 1);
    assert_eq!(agg.window_scores_at(1200), vec![bits(0.2)]);
    assert_eq!(agg.total_events_processed(), 2);
    assert_eq!(agg.active_couriers(), 2);
}

#[test]
fn utilization_with_no_couriers_is_zero() {
    let mut agg = Aggregator::new(60);
    agg.record_assignment_at("a".to_string(), bits(0.1), 10, 0);
    assert_eq!(agg.courier_utilization_pct_at(0, 0), Ratio { numerator: 0, denominator: 1 });
    assert_eq!(agg.courier_utilization_pct_at(0, 4), Ratio { numerator: 100, denominator: 4 });
}

#[test]
fn known_couriers_count_distinct_ids() {
    let mut k = KnownCouriers::new();
    assert!(k.insert("a".to_string()));
    assert!(!k.insert("a".to_string()));
    assert!(k.insert("b".to_string()));
    assert_eq!(k.len(), 2);
}

#[test]
fn ingest_assignment_reports_latency_and_new_couriers() {
    let mut agg = Aggregator::new(60);
    let mut known = KnownCouriers::new();
    let r = ingest_assignment(&mut agg, &mut known, "c1".to_string(), bits(0.9), 1_500, 1_000);
    assert_eq!(r, (500, Some(1)));
    let r = ingest_assignment(&mut agg, &mut known, "c1".to_string(), bits(0.9), 2_000, 1_900);
    assert_eq!(r, (100, None));
    let r = ingest_assignment(&mut agg, &mut known, "c2".to_string(), bits(0.9), 2_000, 2_000);
    assert_eq!(r, (0, Some(2)));
    assert_eq!(agg.total_assignments(), 3);
    assert_eq!(agg.active_couriers(), 2);
}

#[test]
fn metrics_routes() {
    assert_eq!(route_for_path("/metrics"), MetricsRoute::Metrics);
    assert_eq!(route_for_path("/health"), MetricsRoute::Health);
    assert_eq!(route_for_path("/other"), MetricsRoute::NotFound);
    assert_eq!(route_for_path("/metrics/"), MetricsRoute::NotFound);
}

#[test]
fn percentiles_are_ordered_and_taken_from_the_window() {
    let mut agg = Aggregator::new(60);
    let lats = [5i64, 400, 17, 17, 90, 3, 250, 61, 8, 1000, 42];
    for (i, l) in lats.iter().enumerate() {
        agg.record_assignment_at(format!("c{}", i), bits(0.5), *l, 10);
    }
    let p50 = agg.latency_percentile_at(10, 5000);
    let p95 = agg.latency_percentile_at(10, 9500);
    let p99 = agg.latency_percentile_at(10, 9900);
    assert!(p50 <= p95 && p95 <= p99);
    for p in [p50, p95, p99] {
        assert!(lats.contains(&p));
    }
    // 11 values: p50 -> floor(5.5) - 1 = 4 -> sorted [3,5,8,17,17,...][4] = 17
    assert_eq!(p50, 17);
    // p95 -> floor(10.45) - 1 = 9 -> 400
    assert_eq!(p95, 400);
}

#[test]
fn latency_by_rank_clamps_to_the_window() {
    let mut agg = Aggregator::new(60);
    assert_eq!(agg.latency_at_rank_at(10, 3), 0);
    let lats = [40i64, 10, 30, 20];
    for (i, l) in lats.iter().enumerate() {
        agg.record_assignment_at(format!("c{}", i), bits(0.5), *l, 10);
    }
    assert_eq!(agg.latency_at_rank_at(10, 0), 10);
    assert_eq!(agg.latency_at_rank_at(10, 2), 30);
    assert_eq!(agg.latency_at_rank_at(10, 3), 40);
    assert_eq!(agg.latency_at_rank_at(10, 99), 40);
    // a minute and more later the window is empty again
    assert_eq!(agg.latency_at_rank_at(60_011, 0), 0);
}

#[test]
fn a_new_courier_adds_one_active_courier() {
    let mut agg = Aggregator::new(60);
    agg.record_assignment_at("a".to_string(), bits(0.5), 1, 0);
    assert_eq!(agg.active_couriers(), 1);
    agg.record_assignment_at("a".to_string(), bits(0.5), 1, 0);
    assert_eq!(agg.active_couriers(), 1);
    agg.record_assignment_at("b".to_string(), bits(0.5), 1, 0);
    assert_eq!(agg.active_couriers(), 2);
}

#[test]
fn every_processed_event_is_an_assignment() {
    let mut agg = Aggregator::new(60);
    for i in 0..5i64 {
        agg.record_assignment_at(format!("c{}", i % 2), bits(0.5), i, i);
        assert_eq!(agg.total_events_processed(), agg.total_assignments());
    }
    assert_eq!(agg.total_events_processed(), 5);
}
