use router_flow::tui::{
    apply_event, location_batch_event, log_view_range, FocusPanel, KeyInput, LogSource, TuiEvent,
    TuiState, MAX_LOG_ENTRIES,
};

fn last_message(state: &TuiState) -> String {
    state.log_entries.back().unwrap().message.clone()
}

#[test]
fn focus_cycles_through_all_panels() {
    let mut f = FocusPanel::CitySim;
    let mut seen = Vec::new();
    for _ in 0..5 {
        seen.push(f);
        f = f.next();
    }
    assert_eq!(f, FocusPanel::CitySim);
    assert_eq!(
        seen,
        vec![FocusPanel::CitySim, FocusPanel::Optimizer, FocusPanel::OrderGen, FocusPanel::Collector, FocusPanel::Log]
    );
    assert_eq!(FocusPanel::OrderGen.title(), "Order Gen");
}

#[test]
fn log_source_labels() {
    assert_eq!(LogSource::CitySim.label(), "city-sim");
    assert_eq!(LogSource::OrderGen.label(), "order-gen");
    assert_eq!(LogSource::Optimizer.label(), "optimizer");
    assert_eq!(LogSource::Collector.label(), "collector");
    assert_eq!(LogSource::System.label(), "system");
}

#[test]
fn new_state_starts_empty_on_log_panel() {
    let s = TuiState::new();
    assert_eq!(s.focus, FocusPanel::Log);
    assert!(s.auto_scroll);
    assert_eq!(s.log_scroll_offset, 0);
    assert!(s.log_entries.is_empty());
    assert_eq!(s.order_gen.total_orders_seen, 0);
    assert!(!s.collector.connected);
}

#[test]
fn log_keeps_only_the_newest_entries() {
    let mut s = TuiState::new();
    for i in 0..(MAX_LOG_ENTRIES + 3) {
        s.push_log(LogSource::System, format!("m{}", i));
    }
    assert_eq!(s.log_entries.len(), MAX_LOG_ENTRIES);
    assert_eq!(s.log_entries.front().unwrap().message, "m3");
    assert_eq!(last_message(&s), format!("m{}", MAX_LOG_ENTRIES + 2));
}

#[test]
fn new_order_event_updates_panel_and_log() {
    let mut s = TuiState::new();
    apply_event(
        &mut s,
        TuiEvent::NewOrder {
            order_id: "67e55044-10b1-426f-9247-bb680e5fe0c8".to_string(),
            priority: "high".to_string(),
        },
    );
    assert_eq!(s.order_gen.total_orders_seen, 1);
    assert_eq!(s.order_gen.last_order_summary, "order=67e55044 priority=high");
    assert_eq!(last_message(&s), "created order=67e55044 priority=high");
    assert_eq!(s.log_entries.back().unwrap().source, LogSource::OrderGen);
}

#[test]
fn assignment_event_updates_optimizer_panel() {
    let mut s = TuiState::new();
    apply_event(
        &mut s,
        TuiEvent::Assignment {
            order_id: "order-12345678".to_string(),
            courier_id: "c1".to_string(),
            score: 0.8512f64.to_bits(),
            score_text: "0.85".to_string(),
        },
    );
    assert_eq!(s.optimizer.total_assignments, 1);
    assert_eq!(f64::from_bits(s.optimizer.last_score), 0.8512);
    assert_eq!(s.optimizer.last_assignment_summary, "order=order-12 -> courier=c1 score=0.85");
    assert_eq!(last_message(&s), "assigned order=order-12 -> courier=c1 score=0.85");
}

#[test]
fn connection_events_log_messages() {
    let mut s = TuiState::new();
    apply_event(&mut s, TuiEvent::CitySimConnected(true));
    assert!(s.city_sim.connected);
    assert_eq!(last_message(&s), "connected to city simulator");
    apply_event(&mut s, TuiEvent::CollectorConnected(false));
    assert_eq!(last_message(&s), "disconnected from event collector");
    apply_event(&mut s, TuiEvent::OptimizerConnected(true));
    assert_eq!(last_message(&s), "connected to assignment optimizer");
    apply_event(&mut s, TuiEvent::OrderGenConnected(false));
    assert_eq!(last_message(&s), "disconnected from order generator");
    assert_eq!(s.log_entries.len(), 4);
}

#[test]
fn metrics_and_location_events_do_not_log() {
    let mut s = TuiState::new();
    apply_event(&mut s, TuiEvent::LocationBatch { total: 10, idle: 7, en_route: 3 });
    apply_event(
        &mut s,
        TuiEvent::CollectorMetrics {
            total_assignments: 5,
            total_events_processed: 6,
            avg_latency_ms: 12.5f64.to_bits(),
            p95_latency_ms: 20.0f64.to_bits(),
            courier_utilization_pct: 40.0f64.to_bits(),
            avg_score: 0.7f64.to_bits(),
            uptime_seconds: 99,
        },
    );
    assert_eq!(s.city_sim.total_couriers, 10);
    assert_eq!(s.city_sim.idle_count, 7);
    assert_eq!(s.city_sim.en_route_count, 3);
    assert_eq!(s.collector.total_events_processed, 6);
    assert_eq!(f64::from_bits(s.collector.avg_latency_ms), 12.5);
    assert_eq!(s.collector.uptime_seconds, 99);
    assert!(s.log_entries.is_empty());
    apply_event(&mut s, TuiEvent::CollectorEvent { summary: "hello".to_string() });
    assert_eq!(last_message(&s), "hello");
}

#[test]
fn keys_change_focus_scroll_and_quit() {
    let mut s = TuiState::new();
    assert!(!s.handle_key(KeyInput::Tab));
    assert_eq!(s.focus, FocusPanel::CitySim);
    // while following the log, arrows do nothing
    s.handle_key(KeyInput::Up);
    assert_eq!(s.log_scroll_offset, 0);
    s.handle_key(KeyInput::Char('p'));
    assert!(!s.auto_scroll);
    s.handle_key(KeyInput::Up);
    s.handle_key(KeyInput::Up);
    s.handle_key(KeyInput::Down);
    assert_eq!(s.log_scroll_offset, 1);
    s.handle_key(KeyInput::Down);
    s.handle_key(KeyInput::Down);
    assert_eq!(s.log_scroll_offset, 0);
    s.log_scroll_offset = u16::MAX;
    s.handle_key(KeyInput::Up);
    assert_eq!(s.log_scroll_offset, u16::MAX);
    assert!(!s.handle_key(KeyInput::Other));
    assert!(s.handle_key(KeyInput::Char('q')));
}

#[test]
fn location_batches_count_idle_couriers() {
    let statuses = vec![
        "idle".to_string(),
        "en_route_pickup".to_string(),
        "idle".to_string(),
        "en_route_dropoff".to_string(),
        "idle".to_string(),
    ];
    match location_batch_event(&statuses) {
        TuiEvent::LocationBatch { total, idle, en_route } => {
            assert_eq!((total, idle, en_route), (5, 3, 2));
        }
        other => panic!("unexpected event {:?}", other),
    }
}

#[test]
fn log_view_shows_newest_entries_that_fit() {
    assert_eq!(log_view_range(10, 0, 4), (6, 10));
    assert_eq!(log_view_range(10, 3, 4), (3, 7));
    assert_eq!(log_view_range(10, 8, 4), (0, 2));
    assert_eq!(log_view_range(10, 20, 4), (0, 0));
    assert_eq!(log_view_range(3, 0, 10), (0, 3));
}
