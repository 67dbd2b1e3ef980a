use router_flow::dispatch::{
    available_couriers, pending_from_new_order, plan_assignments, score_key, snapshot_from_location,
    to_delivery_order, CourierSnapshot, PendingOrder,
};
use router_flow::models::{Courier, CourierStatus, GeoPoint, OrderStatus, Priority};

fn point(lat: f64, lng: f64) -> GeoPoint {
    GeoPoint { lat: lat.to_bits(), lng: lng.to_bits() }
}

fn courier(id: u128, status: CourierStatus, load: u8, capacity: u8) -> Courier {
    Courier {
        id,
        name: String::new(),
        location: point(0.0, 0.0),
        capacity,
        current_load: load,
        status,
        rating: 4.0f64.to_bits(),
        updated_at_ms: 0,
    }
}

fn s(x: f64) -> u64 {
    x.to_bits()
}

#[test]
fn score_keys_follow_float_total_order() {
    let xs = [f64::NEG_INFINITY, -2.5, -0.0, 0.0, 0.1, 0.85, 1.0, f64::INFINITY];
    for w in xs.windows(2) {
        assert!(score_key(w[0].to_bits()) < score_key(w[1].to_bits()), "{} vs {}", w[0], w[1]);
    }
}

#[test]
fn best_courier_wins_and_is_not_reused() {
    let cs = vec![
        courier(1, CourierStatus::Available, 0, 3),
        courier(2, CourierStatus::Available, 0, 3),
        courier(3, CourierStatus::Available, 0, 3),
    ];
    let scores = vec![
        vec![s(0.5), s(0.9), s(0.7)],
        vec![s(0.5), s(0.95), s(0.7)],
        vec![s(0.1), s(0.2), s(0.3)],
        vec![s(0.1), s(0.2), s(0.3)],
    ];
    let plan = plan_assignments(&cs, &scores);
    assert_eq!(plan, vec![Some(1), Some(2), Some(0), None]);
}

#[test]
fn ties_go_to_the_later_courier() {
    let cs = vec![
        courier(1, CourierStatus::Available, 0, 3),
        courier(2, CourierStatus::Available, 0, 3),
    ];
    let scores = vec![vec![s(0.5), s(0.5)]];
    assert_eq!(plan_assignments(&cs, &scores), vec![Some(1)]);
}

#[test]
fn busy_or_full_couriers_are_skipped() {
    let cs = vec![
        courier(1, CourierStatus::Busy, 0, 3),
        courier(2, CourierStatus::Available, 3, 3),
        courier(3, CourierStatus::Available, 1, 3),
    ];
    let scores = vec![vec![s(0.9), s(0.9), s(0.1)], vec![s(0.9), s(0.9), s(0.1)]];
    assert_eq!(plan_assignments(&cs, &scores), vec![Some(2), None]);
    let none: Vec<Courier> = Vec::new();
    assert_eq!(plan_assignments(&none, &vec![vec![], vec![]]), vec![None, None]);
}

#[test]
fn only_idle_snapshots_are_available() {
    let snaps = vec![
        CourierSnapshot { id: 1, position: point(1.0, 2.0), status: "idle".to_string(), capacity: 2, current_load: 0, rating: s(4.0) },
        CourierSnapshot { id: 2, position: point(1.0, 2.0), status: "en_route_pickup".to_string(), capacity: 2, current_load: 1, rating: s(4.0) },
        CourierSnapshot { id: 3, position: point(3.0, 4.0), status: "idle".to_string(), capacity: 5, current_load: 2, rating: s(3.5) },
    ];
    let cs = available_couriers(&snaps);
    assert_eq!(cs.len(), 2);
    assert_eq!(cs[0].id, 1);
    assert_eq!(cs[1].id, 3);
    assert_eq!(cs[1].capacity, 5);
    assert_eq!(cs[1].current_load, 2);
    assert_eq!(cs[1].location, point(3.0, 4.0));
    assert!(cs.iter().all(|c| c.status == CourierStatus::Available && c.name.is_empty()));
    assert_eq!(snaps[1].to_courier().status, CourierStatus::Busy);
}

#[test]
fn location_snapshots_need_uuid_and_position() {
    let ok = snapshot_from_location(
        "67e55044-10b1-426f-9247-bb680e5fe0c8",
        Some(point(1.0, 2.0)),
        "idle".to_string(),
        258,
        1,
        s(4.2),
    )
    .unwrap();
    assert_eq!(ok.id, 0x67e5_5044_10b1_426f_9247_bb68_0e5f_e0c8);
    assert_eq!(ok.capacity, 2);
    assert_eq!(ok.current_load, 1);
    assert!(snapshot_from_location("not-a-uuid", Some(point(1.0, 2.0)), "idle".to_string(), 2, 0, s(4.0)).is_none());
    assert!(snapshot_from_location("67e55044-10b1-426f-9247-bb680e5fe0c8", None, "idle".to_string(), 2, 0, s(4.0)).is_none());
}

#[test]
fn pending_orders_need_both_locations() {
    let p = point(1.0, 1.0);
    let o = pending_from_new_order("o1".to_string(), Some(p), Some(p), "high".to_string(), 5).unwrap();
    assert_eq!(o.order_id, "o1");
    assert_eq!(o.priority, "high");
    assert_eq!(o.created_at_ms, 5);
    assert!(pending_from_new_order("o1".to_string(), None, Some(p), "high".to_string(), 5).is_none());
    assert!(pending_from_new_order("o1".to_string(), Some(p), None, "high".to_string(), 5).is_none());
}

#[test]
fn delivery_order_from_pending_order() {
    let pending = PendingOrder {
        order_id: "67e55044-10b1-426f-9247-bb680e5fe0c8".to_string(),
        pickup: point(1.0, 2.0),
        dropoff: point(3.0, 4.0),
        priority: "urgent".to_string(),
        created_at_ms: 1_700_000_000_000,
    };
    let o = to_delivery_order(&pending);
    assert_eq!(o.id, 0x67e5_5044_10b1_426f_9247_bb68_0e5f_e0c8);
    assert_eq!(o.priority, Priority::Urgent);
    assert_eq!(o.status, OrderStatus::Pending);
    assert_eq!(o.assigned_courier, None);
    assert_eq!(o.created_at_ms, 1_700_000_000_000);
    assert_eq!(o.pickup, point(1.0, 2.0));

    let odd = PendingOrder { order_id: "x".to_string(), priority: "weird".to_string(), created_at_ms: i64::MAX, ..pending };
    let o = to_delivery_order(&odd);
    assert_eq!(o.priority, Priority::Normal);
    assert_ne!(o.created_at_ms, i64::MAX);
}

#[test]
fn creation_times_at_the_ends_of_chrono_range_are_kept() {
    let base = PendingOrder {
        order_id: "67e55044-10b1-426f-9247-bb680e5fe0c8".to_string(),
        pickup: point(0.0, 0.0),
        dropoff: point(0.0, 0.0),
        priority: "low".to_string(),
        created_at_ms: 0,
    };
    let last = 8_210_266_876_799_999i64;
    let first = -8_334_601_228_800_000i64;
    let kept = |ms: i64| to_delivery_order(&PendingOrder { created_at_ms: ms, ..base.clone() }).created_at_ms;
    assert_eq!(kept(last), last);
    assert_eq!(kept(first), first);
    assert_ne!(kept(last + 1), last + 1);
    assert_ne!(kept(first - 1), first - 1);
}

#[test]
fn batch_assigns_as_many_leading_orders_as_ready_couriers() {
    let cs = vec![
        courier(1, CourierStatus::Available, 0, 3),
        courier(2, CourierStatus::Busy, 0, 3),
        courier(3, CourierStatus::Available, 3, 3),
        courier(4, CourierStatus::Available, 1, 2),
        courier(5, CourierStatus::Available, 0, 1),
    ];
    let row = vec![s(0.4), s(0.9), s(0.8), s(0.6), s(0.5)];
    let scores = vec![row.clone(), row.clone(), row.clone(), row.clone(), row];
    let plan = plan_assignments(&cs, &scores);
    assert_eq!(plan, vec![Some(3), Some(4), Some(0), None, None]);

    let fewer = vec![vec![s(0.4), s(0.9), s(0.8), s(0.6), s(0.5)]];
    assert_eq!(plan_assignments(&cs, &fewer), vec![Some(3)]);
}
