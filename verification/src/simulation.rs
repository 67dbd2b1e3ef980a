//! Courier movement in the city simulation: what a courier is doing, what
//! happens when it reaches its waypoint, and how a courier takes an order.

use vstd::prelude::*;
use vstd::arithmetic::power2::pow2;

use crate::dispatch::parsed_uuid;
use crate::models::{FloatBits, GeoPoint};
use crate::text::str_eq;

verus! {

/// What a courier is currently doing.
#[derive(Debug, Clone)]
pub enum MovementState {
    /// Wandering randomly.
    Idle,
    /// Moving toward the pickup location of an order.
    EnRoutePickup { order_id: String, pickup: GeoPoint, dropoff: GeoPoint },
    /// Picked up, moving toward the dropoff location.
    EnRouteDropoff { order_id: String, dropoff: GeoPoint },
}

/// A courier with movement state for the simulation.
#[derive(Debug, Clone)]
pub struct SimCourier {
    /// The courier's UUID as a 128-bit integer.
    pub id: u128,
    pub position: GeoPoint,
    pub waypoint: GeoPoint,
    pub state: MovementState,
    pub capacity: u8,
    pub current_load: u8,
    /// Bit pattern of the courier's rating.
    pub rating: FloatBits,
}

/// The status string reported for a movement state.
pub open spec fn status_spec(s: MovementState) -> Seq<char> {
    match s {
        MovementState::Idle => "idle"@,
        MovementState::EnRoutePickup { .. } => "en_route_pickup"@,
        MovementState::EnRouteDropoff { .. } => "en_route_dropoff"@,
    }
}

/// The courier after it reaches its waypoint, with `fresh_waypoint` as the
/// random point it heads for next when it has no order: an idle courier
/// wanders on; at a pickup it loads the order and heads for the dropoff; at
/// a dropoff it unloads and becomes idle.
pub open spec fn after_waypoint(c: SimCourier, fresh_waypoint: GeoPoint) -> SimCourier {
    match c.state {
        MovementState::Idle => SimCourier { waypoint: fresh_waypoint, ..c },
        MovementState::EnRoutePickup { order_id, dropoff, .. } => SimCourier {
            current_load: if c.current_load == u8::MAX {
                u8::MAX
            } else {
                (c.current_load + 1) as u8
            },
            waypoint: dropoff,
            state: MovementState::EnRouteDropoff { order_id, dropoff },
            ..c
        },
        MovementState::EnRouteDropoff { .. } => SimCourier {
            current_load: if c.current_load == 0 {
                0
            } else {
                (c.current_load - 1) as u8
            },
            state: MovementState::Idle,
            waypoint: fresh_waypoint,
            ..c
        },
    }
}

impl SimCourier {
    /// Returns the status string reported in location batches.
    pub fn status_str(&self) -> (s: &'static str)
        ensures
            s@ == status_spec(self.state),
    {
        match &self.state {
            MovementState::Idle => "idle",
            MovementState::EnRoutePickup { .. } => "en_route_pickup",
            MovementState::EnRouteDropoff { .. } => "en_route_dropoff",
        }
    }

    /// Handles waypoint arrival according to the current movement state;
    /// `fresh_waypoint` is the random point within the city that an idle
    /// courier heads for next.
    pub fn on_waypoint_reached(&mut self, fresh_waypoint: GeoPoint)
        ensures
            *final(self) == after_waypoint(*old(self), fresh_waypoint),
    {
        let next = match &self.state {
            MovementState::Idle => None,
            MovementState::EnRoutePickup { dropoff, order_id, .. } => Some((order_id.clone(), *dropoff)),
            MovementState::EnRouteDropoff { .. } => None,
        };
        match next {
            Some((order_id, dropoff)) => {
                self.current_load = self.current_load.saturating_add(1);
                self.waypoint = dropoff;
                self.state = MovementState::EnRouteDropoff { order_id, dropoff };
            },
            None => {
                if let MovementState::EnRouteDropoff { .. } = &self.state {
                    self.current_load = self.current_load.saturating_sub(1);
                    self.state = MovementState::Idle;
                }
                self.waypoint = fresh_waypoint;
            },
        }
    }
}

/// What reaching a waypoint does, state by state: an idle courier only
/// heads for the fresh waypoint and keeps its load; at a pickup the load
/// grows by one (at most to the largest `u8`) and the courier heads for the
/// order's dropoff; at a dropoff the load shrinks by one (not below zero)
/// and the courier goes idle toward the fresh waypoint. Its id, position,
/// capacity and rating never change.
pub proof fn lemma_waypoint_arrival(c: SimCourier, w: GeoPoint)
    ensures
        ({
            let n = after_waypoint(c, w);
            &&& n.id == c.id
            &&& n.position == c.position
            &&& n.capacity == c.capacity
            &&& n.rating == c.rating
            &&& c.state is Idle ==> n.state == c.state && n.current_load == c.current_load
                && n.waypoint == w
            &&& c.state is EnRoutePickup ==> {
                &&& n.state == (MovementState::EnRouteDropoff {
                    order_id: c.state->EnRoutePickup_order_id,
                    dropoff: c.state->EnRoutePickup_dropoff,
                })
                &&& n.waypoint == c.state->EnRoutePickup_dropoff
                &&& n.current_load == (if c.current_load < u8::MAX {
                    c.current_load + 1
                } else {
                    c.current_load as int
                })
            }
            &&& c.state is EnRouteDropoff ==> {
                &&& n.state is Idle
                &&& n.waypoint == w
                &&& n.current_load == (if c.current_load > 0 {
                    c.current_load - 1
                } else {
                    0int
                })
            }
        }),
{
}

/// An idle courier that reaches its waypoint stays idle and carries what it
/// carried: only its waypoint moves, to the fresh one.
pub proof fn lemma_idle_courier_only_wanders(c: SimCourier, w: GeoPoint)
    requires
        c.state is Idle,
    ensures
        after_waypoint(c, w) == (SimCourier { waypoint: w, ..c }),
{
}

/// A delivery round trip: a courier on its way to a pickup that reaches the
/// pickup and then the dropoff ends up idle, carrying what it carried before
/// (when it had room for the order), and heading for the fresh waypoint.
pub proof fn lemma_delivery_round_trip(c: SimCourier, w1: GeoPoint, w2: GeoPoint)
    requires
        c.state is EnRoutePickup,
        c.current_load < u8::MAX,
    ensures
        ({
            let at_pickup = after_waypoint(c, w1);
            let at_dropoff = after_waypoint(at_pickup, w2);
            &&& at_pickup.state is EnRouteDropoff
            &&& at_pickup.current_load == c.current_load + 1
            &&& at_pickup.waypoint == c.state->EnRoutePickup_dropoff
            &&& at_dropoff.state is Idle
            &&& at_dropoff.current_load == c.current_load
            &&& at_dropoff.waypoint == w2
            &&& at_dropoff.id == c.id && at_dropoff.position == c.position
        }),
{
}

/// The lowercase hexadecimal digit for `n` in `0..16`.
pub open spec fn hex_digit(n: int) -> char {
    if n < 10 {
        (48 + n) as char
    } else {
        (87 + n) as char
    }
}

/// The `k`-th of the 32 hexadecimal digits of `id`, most significant first.
pub open spec fn uuid_nibble(id: u128, k: int) -> int {
    (id as int / pow2((4 * (31 - k)) as nat) as int) % 16
}

/// How many hyphens precede position `i` of the hyphenated form.
pub open spec fn hyphens_before(i: int) -> int {
    if i < 8 {
        0
    } else if i < 13 {
        1
    } else if i < 18 {
        2
    } else if i < 23 {
        3
    } else {
        4
    }
}

/// A UUID's lowercase hyphenated text: its 32 hexadecimal digits, most
/// significant first, with hyphens after digits 8, 12, 16 and 20.
pub open spec fn uuid_hyphenated(id: u128) -> Seq<char> {
    Seq::new(
        36,
        |i: int|
            if i == 8 || i == 13 || i == 18 || i == 23 {
                '-'
            } else {
                hex_digit(uuid_nibble(id, i - hyphens_before(i)))
            },
    )
}

/// Calls `uuid::Uuid::from_u128` and the `Display` impl of `Uuid` (through
/// `to_string`): the UUID whose big-endian value is `id`, written in
/// lowercase hyphenated form, which the uuid crate's parser reads back as
/// the same UUID.
#[verifier::external_body]
fn uuid_text(id: u128) -> (s: String)
    ensures
        s@ == uuid_hyphenated(id),
        parsed_uuid(s@) == Some(id),
{
    uuid::Uuid::from_u128(id).to_string()
}

impl SimCourier {
    /// The courier id sent with the courier's location: its UUID in
    /// hyphenated form, which reads back as the courier's id.
    pub fn id_text(&self) -> (s: String)
        ensures
            s@ == uuid_hyphenated(self.id),
            parsed_uuid(s@) == Some(self.id),
    {
        uuid_text(self.id)
    }
}

/// Why a courier assignment request was refused.
#[derive(Debug, Clone, Copy, PartialEq, Eq, Structural)]
pub enum AssignCourierError {
    MissingPickup,
    MissingDropoff,
}

impl AssignCourierError {
    /// The message sent back with the refusal.
    pub fn message(&self) -> (s: &'static str)
        ensures
            s@ == (match *self {
                AssignCourierError::MissingPickup => "pickup location required"@,
                AssignCourierError::MissingDropoff => "dropoff location required"@,
            }),
    {
        match self {
            AssignCourierError::MissingPickup => "pickup location required",
            AssignCourierError::MissingDropoff => "dropoff location required",
        }
    }
}

/// The index of the first courier whose UUID text is `courier_id`.
pub open spec fn first_match(cs: Seq<SimCourier>, courier_id: Seq<char>, i: int) -> bool {
    &&& 0 <= i < cs.len()
    &&& uuid_hyphenated(cs[i].id) == courier_id
    &&& forall|k: int| 0 <= k < i ==> uuid_hyphenated((#[trigger] cs[k]).id) != courier_id
}

/// Sends the courier named `courier_id` toward the pickup of an order.
/// Refused when a location is missing; `Ok(false)` when no courier has that
/// id, `Ok(true)` when the first courier with that id now heads for the
/// pickup.
pub fn assign_courier(
    couriers: &mut Vec<SimCourier>,
    courier_id: &str,
    order_id: String,
    pickup: Option<GeoPoint>,
    dropoff: Option<GeoPoint>,
) -> (r: Result<bool, AssignCourierError>)
    ensures
        pickup is None ==> r == Err::<bool, AssignCourierError>(AssignCourierError::MissingPickup),
        pickup is Some && dropoff is None ==> r == Err::<bool, AssignCourierError>(
            AssignCourierError::MissingDropoff,
        ),
        r is Err ==> final(couriers)@ == old(couriers)@,
        r == Ok::<bool, AssignCourierError>(false) ==> final(couriers)@ == old(couriers)@ && forall|
            k: int,
        | 0 <= k < old(couriers)@.len() ==> uuid_hyphenated((#[trigger] old(couriers)@[k]).id)
            != courier_id@,
        pickup is Some && dropoff is Some ==> r is Ok,
        r == Ok::<bool, AssignCourierError>(true) ==> exists|i: int|
            first_match(old(couriers)@, courier_id@, i) && final(couriers)@ == old(couriers)@.update(
                i,
                SimCourier {
                    waypoint: pickup->0,
                    state: MovementState::EnRoutePickup {
                        order_id,
                        pickup: pickup->0,
                        dropoff: dropoff->0,
                    },
                    ..old(couriers)@[i]
                },
            ),
{
    let pickup_point = match pickup {
        Some(p) => p,
        None => {
            return Err(AssignCourierError::MissingPickup);
        },
    };
    let dropoff_point = match dropoff {
        Some(d) => d,
        None => {
            return Err(AssignCourierError::MissingDropoff);
        },
    };
    let mut i: usize = 0;
    while i < couriers.len()
        invariant
            i <= couriers.len(),
            couriers@ == old(couriers)@,
            pickup == Some(pickup_point),
            dropoff == Some(dropoff_point),
            forall|k: int| 0 <= k < i ==> uuid_hyphenated((#[trigger] couriers@[k]).id) != courier_id@,
        decreases couriers.len() - i,
    {
        let text = uuid_text(couriers[i].id);
        if str_eq(text.as_str(), courier_id) {
            let ghost before = couriers@;
            couriers[i].waypoint = pickup_point;
            couriers[i].state = MovementState::EnRoutePickup {
                order_id,
                pickup: pickup_point,
                dropoff: dropoff_point,
            };
            proof {
                assert(first_match(before, courier_id@, i as int));
            }
            return Ok(true);
        }
        i += 1;
    }
    Ok(false)
}

} // verus!
