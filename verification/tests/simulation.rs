use router_flow::models::GeoPoint;
use router_flow::simulation::{assign_courier, AssignCourierError, MovementState, SimCourier};

fn point(lat: f64, lng: f64) -> GeoPoint {
    GeoPoint { lat: lat.to_bits(), lng: lng.to_bits() }
}

fn lat_of(p: &GeoPoint) -> f64 {
    f64::from_bits(p.lat)
}

fn lng_of(p: &GeoPoint) -> f64 {
    f64::from_bits(p.lng)
}

fn test_courier(id: u128) -> SimCourier {
    SimCourier {
        id,
        position: point(52.52, 13.405),
        waypoint: point(52.521, 13.406),
        state: MovementState::Idle,
        capacity: 3,
        current_load: 0,
        rating: 4.5f64.to_bits(),
    }
}

#[test]
fn idle_courier_picks_new_waypoint_on_arrival() {
    let mut courier = test_courier(1);
    courier.state = MovementState::Idle;
    let old_waypoint = courier.waypoint;

    courier.on_waypoint_reached(point(52.51, 13.39));

    let changed = (lat_of(&courier.waypoint) - lat_of(&old_waypoint)).abs() > 1e-10
        || (lng_of(&courier.waypoint) - lng_of(&old_waypoint)).abs() > 1e-10;
    assert!(changed, "idle courier should get a new waypoint");
}

#[test]
fn assign_courier_transitions_to_dropoff_on_pickup_arrival() {
    let mut courier = test_courier(1);
    let dropoff = point(52.53, 13.41);

    courier.state = MovementState::EnRoutePickup {
        order_id: "order-1".to_string(),
        pickup: courier.position,
        dropoff,
    };

    courier.on_waypoint_reached(point(52.50, 13.40));

    assert!(matches!(courier.state, MovementState::EnRouteDropoff { .. }));
    assert_eq!(courier.current_load, 1);
    assert!((lat_of(&courier.waypoint) - lat_of(&dropoff)).abs() < 1e-10);
}

#[test]
fn courier_returns_to_idle_after_dropoff() {
    let mut courier = test_courier(1);
    courier.current_load = 1;
    courier.state = MovementState::EnRouteDropoff {
        order_id: "order-1".to_string(),
        dropoff: courier.position,
    };

    courier.on_waypoint_reached(point(52.50, 13.40));

    assert!(matches!(courier.state, MovementState::Idle));
    assert_eq!(courier.current_load, 0);
}

#[test]
fn load_saturates_at_both_ends() {
    let mut courier = test_courier(1);
    courier.current_load = 255;
    courier.state = MovementState::EnRoutePickup {
        order_id: "o".to_string(),
        pickup: courier.position,
        dropoff: courier.position,
    };
    courier.on_waypoint_reached(point(0.0, 0.0));
    assert_eq!(courier.current_load, 255);

    let mut courier = test_courier(2);
    courier.current_load = 0;
    courier.state = MovementState::EnRouteDropoff { order_id: "o".to_string(), dropoff: courier.position };
    courier.on_waypoint_reached(point(1.0, 1.0));
    assert_eq!(courier.current_load, 0);
    assert_eq!(courier.waypoint, point(1.0, 1.0));
}

#[test]
fn status_strings_follow_movement_state() {
    let mut courier = test_courier(1);
    assert_eq!(courier.status_str(), "idle");
    courier.state = MovementState::EnRoutePickup {
        order_id: "o".to_string(),
        pickup: courier.position,
        dropoff: courier.position,
    };
    assert_eq!(courier.status_str(), "en_route_pickup");
    courier.on_waypoint_reached(point(0.0, 0.0));
    assert_eq!(courier.status_str(), "en_route_dropoff");
}

#[test]
fn assign_courier_finds_courier_by_uuid_text() {
    let id: u128 = 0x67e5_5044_10b1_426f_9247_bb68_0e5f_e0c8;
    let mut couriers = vec![test_courier(7), test_courier(id)];
    let pickup = point(52.6, 13.5);
    let dropoff = point(52.4, 13.3);
    let r = assign_courier(
        &mut couriers,
        "67e55044-10b1-426f-9247-bb680e5fe0c8",
        "order-9".to_string(),
        Some(pickup),
        Some(dropoff),
    );
    assert_eq!(r, Ok(true));
    assert_eq!(couriers[1].waypoint, pickup);
    match &couriers[1].state {
        MovementState::EnRoutePickup { order_id, pickup: p, dropoff: d } => {
            assert_eq!(order_id, "order-9");
            assert_eq!(*p, pickup);
            assert_eq!(*d, dropoff);
        }
        other => panic!("unexpected state {:?}", other),
    }
    assert!(matches!(couriers[0].state, MovementState::Idle));
}

#[test]
fn assign_courier_unknown_or_incomplete_requests() {
    let mut couriers = vec![test_courier(7)];
    let p = point(1.0, 1.0);
    // the integer value as decimal is not the UUID's text
    assert_eq!(assign_courier(&mut couriers, "7", "o".to_string(), Some(p), Some(p)), Ok(false));
    assert_eq!(
        assign_courier(&mut couriers, "00000000-0000-0000-0000-000000000007", "o".to_string(), None, Some(p)),
        Err(AssignCourierError::MissingPickup)
    );
    assert_eq!(
        assign_courier(&mut couriers, "00000000-0000-0000-0000-000000000007", "o".to_string(), Some(p), None),
        Err(AssignCourierError::MissingDropoff)
    );
    assert_eq!(AssignCourierError::MissingPickup.message(), "pickup location required");
    assert_eq!(AssignCourierError::MissingDropoff.message(), "dropoff location required");
    assert!(matches!(couriers[0].state, MovementState::Idle));
    assert_eq!(
        assign_courier(&mut couriers, "00000000-0000-0000-0000-000000000007", "o".to_string(), Some(p), Some(p)),
        Ok(true)
    );
}

#[test]
fn delivery_round_trip_restores_load() {
    let mut courier = test_courier(3);
    courier.current_load = 2;
    let dropoff = point(52.53, 13.41);
    courier.state = MovementState::EnRoutePickup { order_id: "o".to_string(), pickup: courier.position, dropoff };
    courier.on_waypoint_reached(point(0.0, 0.0));
    assert_eq!(courier.current_load, 3);
    assert_eq!(courier.waypoint, dropoff);
    let fresh = point(52.5, 13.3);
    courier.on_waypoint_reached(fresh);
    assert!(matches!(courier.state, MovementState::Idle));
    assert_eq!(courier.current_load, 2);
    assert_eq!(courier.waypoint, fresh);
}

#[test]
fn courier_id_text_reads_back_as_the_same_courier() {
    let courier = test_courier(0x67e5_5044_10b1_426f_9247_bb68_0e5f_e0c8);
    let text = courier.id_text();
    assert_eq!(text, "67e55044-10b1-426f-9247-bb680e5fe0c8");
    let snap = router_flow::dispatch::snapshot_from_location(
        &text,
        Some(courier.position),
        courier.status_str().to_string(),
        courier.capacity as u32,
        courier.current_load as u32,
        courier.rating,
    )
    .unwrap();
    assert_eq!(snap.id, courier.id);
    assert_eq!(test_courier(1).id_text(), "00000000-0000-0000-0000-000000000001");
}
