use vstd::prelude::*;

use crate::text::str_eq;

verus! {

/// The IEEE-754 bit pattern of a 64-bit float that the library carries
/// (positions, ratings, scores, metric values) but never computes with.
pub type FloatBits = u64;

/// A point on the map, as the bit patterns of its latitude and longitude.
#[derive(Debug, Clone, Copy, PartialEq, Eq, Structural)]
pub struct GeoPoint {
    pub lat: FloatBits,
    pub lng: FloatBits,
}

/// Whether a courier can take new work.
#[derive(Debug, Clone, Copy, PartialEq, Eq, Structural)]
pub enum CourierStatus {
    Available,
    Busy,
    Offline,
}

/// A courier as the assignment engine sees it.
#[derive(Debug, Clone)]
pub struct Courier {
    /// The courier's UUID as a 128-bit integer.
    pub id: u128,
    pub name: String,
    pub location: GeoPoint,
    pub capacity: u8,
    pub current_load: u8,
    pub status: CourierStatus,
    /// Bit pattern of the courier's rating.
    pub rating: FloatBits,
    /// When this view of the courier was taken (epoch milliseconds).
    pub updated_at_ms: i64,
}

/// Urgency of a delivery order.
#[derive(Debug, Clone, Copy, PartialEq, Eq, Structural)]
pub enum Priority {
    Low,
    Normal,
    High,
    Urgent,
}

/// Lifecycle of a delivery order.
#[derive(Debug, Clone, Copy, PartialEq, Eq, Structural)]
pub enum OrderStatus {
    Pending,
    Assigned,
    InTransit,
    Delivered,
}

/// A delivery order as the assignment engine scores it.
#[derive(Debug, Clone, Copy, PartialEq, Eq, Structural)]
pub struct DeliveryOrder {
    /// The order's UUID as a 128-bit integer.
    pub id: u128,
    pub pickup: GeoPoint,
    pub dropoff: GeoPoint,
    pub priority: Priority,
    pub status: OrderStatus,
    pub assigned_courier: Option<u128>,
    /// When the order was created (epoch milliseconds).
    pub created_at_ms: i64,
}

/// The priority named by a wire label: `"low"`, `"high"` and `"urgent"` name
/// their level, every other label means normal.
pub open spec fn priority_of_label(label: Seq<char>) -> Priority {
    if label == "low"@ {
        Priority::Low
    } else if label == "high"@ {
        Priority::High
    } else if label == "urgent"@ {
        Priority::Urgent
    } else {
        Priority::Normal
    }
}

/// Reads the priority of a pending order from its wire label.
pub fn parse_priority(label: &str) -> (p: Priority)
    ensures
        p == priority_of_label(label@),
{
    if str_eq(label, "low") {
        Priority::Low
    } else if str_eq(label, "high") {
        Priority::High
    } else if str_eq(label, "urgent") {
        Priority::Urgent
    } else {
        Priority::Normal
    }
}

/// The wire label of a priority level.
pub open spec fn priority_label_spec(p: Priority) -> Seq<char> {
    match p {
        Priority::Low => "low"@,
        Priority::Normal => "normal"@,
        Priority::High => "high"@,
        Priority::Urgent => "urgent"@,
    }
}

impl Priority {
    /// The wire label of this priority level.
    pub fn label(&self) -> (s: &'static str)
        ensures
            s@ == priority_label_spec(*self),
    {
        match self {
            Priority::Low => "low",
            Priority::Normal => "normal",
            Priority::High => "high",
            Priority::Urgent => "urgent",
        }
    }
}

/// The status that a courier snapshot's movement label stands for: an idle
/// courier is available, any other is busy.
pub open spec fn status_of_snapshot_label(label: Seq<char>) -> CourierStatus {
    if label == "idle"@ {
        CourierStatus::Available
    } else {
        CourierStatus::Busy
    }
}

/// Only the label `idle` makes a courier available; every other label,
/// such as `en_route_pickup` or `en_route_dropoff`, makes it busy.
pub proof fn lemma_only_idle_label_is_available(label: Seq<char>)
    ensures
        status_of_snapshot_label(label) == CourierStatus::Available <==> label == "idle"@,
        label != "idle"@ ==> status_of_snapshot_label(label) == CourierStatus::Busy,
{
}

/// Maps a courier snapshot's movement label to its courier status.
pub fn courier_status_from_label(label: &str) -> (s: CourierStatus)
    ensures
        s == status_of_snapshot_label(label@),
{
    if str_eq(label, "idle") {
        CourierStatus::Available
    } else {
        CourierStatus::Busy
    }
}

} // verus!
