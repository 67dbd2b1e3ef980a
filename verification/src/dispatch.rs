//! The assignment engine's decisions: courier snapshots from the location
//! stream, pending orders from the order stream, the couriers available to a
//! batch, and the batch plan, which gives each pending order the available
//! courier with the highest score that has not yet been given an order in
//! the same batch.

use vstd::prelude::*;

use crate::clock::{checked_timestamp_millis, chrono_representable, now_millis};
use crate::models::{
    Courier, CourierStatus, DeliveryOrder, FloatBits, GeoPoint, OrderStatus, courier_status_from_label,
    parse_priority, priority_of_label, status_of_snapshot_label,
};

verus! {

/// Lightweight courier view built from the location stream.
#[derive(Debug, Clone)]
pub struct CourierSnapshot {
    /// The courier's UUID as a 128-bit integer.
    pub id: u128,
    pub position: GeoPoint,
    pub status: String,
    pub capacity: u8,
    pub current_load: u8,
    /// Bit pattern of the courier's rating.
    pub rating: FloatBits,
}

/// A pending order waiting to be assigned.
#[derive(Debug, Clone)]
pub struct PendingOrder {
    pub order_id: String,
    pub pickup: GeoPoint,
    pub dropoff: GeoPoint,
    pub priority: String,
    pub created_at_ms: i64,
}

/// `c` is the courier that `snap` describes, taken at `updated_at_ms`:
/// unnamed, and available when the snapshot is idle, busy otherwise.
pub open spec fn courier_of_snapshot(c: Courier, snap: CourierSnapshot, updated_at_ms: i64) -> bool {
    &&& c.name@ == Seq::<char>::empty()
    &&& c.id == snap.id
    &&& c.location == snap.position
    &&& c.capacity == snap.capacity
    &&& c.current_load == snap.current_load
    &&& c.status == status_of_snapshot_label(snap.status@)
    &&& c.rating == snap.rating
    &&& c.updated_at_ms == updated_at_ms
}

impl CourierSnapshot {
    /// Converts to the courier view used for scoring, stamped now.
    pub fn to_courier(&self) -> (c: Courier)
        ensures
            courier_from_snapshot(c, *self),
    {
        let status = courier_status_from_label(self.status.as_str());
        let updated_at_ms = now_millis();
        let c = Courier {
            id: self.id,
            name: String::new(),
            location: self.position,
            capacity: self.capacity,
            current_load: self.current_load,
            status,
            rating: self.rating,
            updated_at_ms,
        };
        assert(courier_of_snapshot(c, *self, updated_at_ms));
        c
    }
}

/// The UUID that a string names, as the uuid crate's parser reads it
/// (`None` when the string is no UUID).
pub uninterp spec fn parsed_uuid(s: Seq<char>) -> Option<u128>;

/// Calls `str::parse::<uuid::Uuid>` (uuid's `FromStr`) and `Uuid::as_u128`.
/// Claimed: the result is what the parser reads from the text, which depends
/// on the text alone; which texts it accepts is not stated here.
#[verifier::external_body]
fn parse_uuid(s: &str) -> (r: Option<u128>)
    ensures
        r == parsed_uuid(s@),
{
    match s.parse::<uuid::Uuid>() {
        Ok(u) => Some(u.as_u128()),
        Err(_) => None,
    }
}

/// Calls `uuid::Uuid::new_v4` and `Uuid::as_u128`: a fresh random UUID, of
/// which nothing is stated.
#[verifier::external_body]
fn random_uuid() -> (id: u128) {
    uuid::Uuid::new_v4().as_u128()
}

/// The order to score for a pending order: its priority read from the
/// label, pending and unassigned. The id is the order's UUID, or a fresh
/// random one when the order id is no UUID; the creation time is kept when
/// chrono can represent it, and is the current time otherwise.
pub fn to_delivery_order(pending: &PendingOrder) -> (o: DeliveryOrder)
    ensures
        o.pickup == pending.pickup,
        o.dropoff == pending.dropoff,
        o.priority == priority_of_label(pending.priority@),
        o.status == OrderStatus::Pending,
        o.assigned_courier is None,
        parsed_uuid(pending.order_id@) is Some ==> o.id == parsed_uuid(pending.order_id@)->0,
        chrono_representable(pending.created_at_ms as int) ==> o.created_at_ms == pending.created_at_ms,
{
    let priority = parse_priority(pending.priority.as_str());
    let id = match parse_uuid(pending.order_id.as_str()) {
        Some(id) => id,
        None => random_uuid(),
    };
    let created_at_ms = match checked_timestamp_millis(pending.created_at_ms) {
        Some(ms) => ms,
        None => now_millis(),
    };
    DeliveryOrder {
        id,
        pickup: pending.pickup,
        dropoff: pending.dropoff,
        priority,
        status: OrderStatus::Pending,
        assigned_courier: None,
        created_at_ms,
    }
}

/// The snapshot for one courier location of a batch; `None` (the location
/// is skipped) when the id is no UUID or the position is missing. Counts
/// arrive as 32-bit values and are kept modulo 256.
pub fn snapshot_from_location(
    courier_id: &str,
    position: Option<GeoPoint>,
    status: String,
    capacity: u32,
    current_load: u32,
    rating: FloatBits,
) -> (r: Option<CourierSnapshot>)
    ensures
        r is Some <==> parsed_uuid(courier_id@) is Some && position is Some,
        r is Some ==> {
            let s = r->0;
            &&& s.id == parsed_uuid(courier_id@)->0
            &&& s.position == position->0
            &&& s.status@ == status@
            &&& s.capacity == capacity as u8
            &&& s.current_load == current_load as u8
            &&& s.rating == rating
        },
{
    let id = match parse_uuid(courier_id) {
        Some(id) => id,
        None => {
            return None;
        },
    };
    let position = match position {
        Some(p) => p,
        None => {
            return None;
        },
    };
    Some(
        CourierSnapshot {
            id,
            position,
            status,
            capacity: capacity as u8,
            current_load: current_load as u8,
            rating,
        },
    )
}

/// The pending order for a newly generated order; `None` (the order is
/// skipped) when a location is missing.
pub fn pending_from_new_order(
    order_id: String,
    pickup: Option<GeoPoint>,
    dropoff: Option<GeoPoint>,
    priority: String,
    created_at_ms: i64,
) -> (r: Option<PendingOrder>)
    ensures
        r is Some <==> pickup is Some && dropoff is Some,
        r is Some ==> {
            let o = r->0;
            &&& o.order_id@ == order_id@
            &&& o.pickup == pickup->0
            &&& o.dropoff == dropoff->0
            &&& o.priority@ == priority@
            &&& o.created_at_ms == created_at_ms
        },
{
    let pickup = match pickup {
        Some(p) => p,
        None => {
            return None;
        },
    };
    let dropoff = match dropoff {
        Some(d) => d,
        None => {
            return None;
        },
    };
    Some(PendingOrder { order_id, pickup, dropoff, priority, created_at_ms })
}

/// `c` is the courier that `snap` describes, taken at some time.
pub open spec fn courier_from_snapshot(c: Courier, snap: CourierSnapshot) -> bool {
    exists|now_ms: i64| courier_of_snapshot(c, snap, now_ms)
}

/// The snapshots whose status is idle, in order.
pub open spec fn idle_snapshots(s: Seq<CourierSnapshot>) -> Seq<CourierSnapshot>
    decreases s.len(),
{
    if s.len() == 0 {
        Seq::empty()
    } else {
        let p = idle_snapshots(s.drop_last());
        if s.last().status@ == "idle"@ {
            p.push(s.last())
        } else {
            p
        }
    }
}

/// The snapshots a batch considers are exactly those whose status label is
/// `idle`, in snapshot order: every snapshot with another label (a courier
/// still on its way to a pickup or a dropoff) is left out.
pub proof fn lemma_only_idle_snapshots_are_considered(s: Seq<CourierSnapshot>)
    ensures
        idle_snapshots(s) == s.filter(|x: CourierSnapshot| x.status@ == "idle"@),
        forall|i: int| 0 <= i < idle_snapshots(s).len() ==> (#[trigger] idle_snapshots(s)[i]).status@
            == "idle"@,
        forall|i: int|
            0 <= i < s.len() && (#[trigger] s[i]).status@ == "idle"@ ==> idle_snapshots(s).contains(s[i]),
    decreases s.len(),
{
    let f = |x: CourierSnapshot| x.status@ == "idle"@;
    reveal(Seq::filter);
    if s.len() > 0 {
        lemma_only_idle_snapshots_are_considered(s.drop_last());
        assert(idle_snapshots(s) == s.filter(f));
        assert forall|i: int| 0 <= i < s.len() && (#[trigger] s[i]).status@ == "idle"@ implies idle_snapshots(
            s,
        ).contains(s[i]) by {
            if i < s.len() - 1 {
                assert(s.drop_last()[i] == s[i]);
                let p = idle_snapshots(s.drop_last());
                let k = choose|k: int| 0 <= k < p.len() && p[k] == s[i];
                if s.last().status@ == "idle"@ {
                    assert(idle_snapshots(s)[k] == s[i]);
                }
            } else {
                assert(idle_snapshots(s).last() == s[i]);
            }
        }
        assert forall|i: int| 0 <= i < idle_snapshots(s).len() implies (#[trigger] idle_snapshots(
            s,
        )[i]).status@ == "idle"@ by {
            let p = idle_snapshots(s.drop_last());
            if i < p.len() {
                assert(idle_snapshots(s)[i] == p[i]);
            }
        }
    } else {
        assert(idle_snapshots(s) =~= s.filter(f));
    }
}

/// The couriers that an assignment batch may consider: the snapshots whose
/// status is idle, in snapshot order, converted to couriers.
pub fn available_couriers(snapshots: &Vec<CourierSnapshot>) -> (cs: Vec<Courier>)
    ensures
        cs.len() == idle_snapshots(snapshots@).len(),
        forall|i: int|
            0 <= i < cs.len() ==> courier_from_snapshot(
                #[trigger] cs@[i],
                idle_snapshots(snapshots@)[i],
            ),
        forall|i: int| 0 <= i < cs.len() ==> (#[trigger] cs@[i]).status == CourierStatus::Available,
{
    let idle = String::from_str("idle");
    let mut cs: Vec<Courier> = Vec::new();
    let mut i: usize = 0;
    while i < snapshots.len()
        invariant
            i <= snapshots.len(),
            idle@ == "idle"@,
            cs.len() == idle_snapshots(snapshots@.take(i as int)).len(),
            forall|k: int|
                0 <= k < cs.len() ==> courier_from_snapshot(
                    #[trigger] cs@[k],
                    idle_snapshots(snapshots@.take(i as int))[k],
                ),
            forall|k: int| 0 <= k < cs.len() ==> (#[trigger] cs@[k]).status == CourierStatus::Available,
        decreases snapshots.len() - i,
    {
        let ghost before = snapshots@.take(i as int);
        let ghost old_cs = cs@;
        proof {
            assert(snapshots@.take(i + 1).drop_last() =~= before);
            assert(snapshots@.take(i + 1).last() == snapshots@[i as int]);
        }
        if snapshots[i].status == idle {
            let c = snapshots[i].to_courier();
            cs.push(c);
            proof {
                let f = idle_snapshots(snapshots@.take(i + 1));
                assert(f == idle_snapshots(before).push(snapshots@[i as int]));
                assert forall|k: int| 0 <= k < cs.len() implies courier_from_snapshot(
                    #[trigger] cs@[k],
                    f[k],
                ) by {
                    if k < cs.len() - 1 {
                        assert(cs@[k] == old_cs[k]);
                        assert(f[k] == idle_snapshots(before)[k]);
                    } else {
                        assert(cs@[k] == c);
                        assert(f[k] == snapshots@[i as int]);
                    }
                }
            }
        } else {
            proof {
                let f = idle_snapshots(snapshots@.take(i + 1));
                assert(f == idle_snapshots(before));
            }
        }
        i += 1;
    }
    proof {
        assert(snapshots@.take(snapshots.len() as int) =~= snapshots@);
    }
    cs
}

/// The key by which the standard library's total order on 64-bit floats
/// (`total_cmp`) ranks a bit pattern: keys compare as signed integers.
pub open spec fn score_key_spec(bits: FloatBits) -> i64 {
    let s = bits as i64;
    s ^ ((((s >> 63u64) as u64) >> 1u64) as i64)
}

/// Computes the total-order key of a score's bit pattern.
pub fn score_key(bits: FloatBits) -> (k: i64)
    ensures
        k == score_key_spec(bits),
{
    let s = bits as i64;
    s ^ ((((s >> 63u64) as u64) >> 1u64) as i64)
}

/// The key ranks bit patterns as the IEEE 754 total order ranks the floats
/// they encode: among patterns with the sign bit clear a larger pattern is a
/// larger float; among patterns with the sign bit set a larger pattern is a
/// smaller float (a larger magnitude below zero); every pattern with the
/// sign bit set is below every pattern with it clear. So distinct patterns
/// get distinct keys, and a higher score always gets a higher key.
pub proof fn lemma_score_key_follows_float_total_order(a: FloatBits, b: FloatBits)
    ensures
        a < 0x8000_0000_0000_0000u64 && b < 0x8000_0000_0000_0000u64 && a < b ==> score_key_spec(a)
            < score_key_spec(b),
        a >= 0x8000_0000_0000_0000u64 && b >= 0x8000_0000_0000_0000u64 && a < b ==> score_key_spec(
            b,
        ) < score_key_spec(a),
        a >= 0x8000_0000_0000_0000u64 && b < 0x8000_0000_0000_0000u64 ==> score_key_spec(a)
            < score_key_spec(b),
        a != b ==> score_key_spec(a) != score_key_spec(b),
{
    assert(a < 0x8000_0000_0000_0000u64 && b < 0x8000_0000_0000_0000u64 && a < b ==> score_key_spec(a)
        < score_key_spec(b)) by (bit_vector);
    assert(a >= 0x8000_0000_0000_0000u64 && b >= 0x8000_0000_0000_0000u64 && a < b ==> score_key_spec(b)
        < score_key_spec(a)) by (bit_vector);
    assert(a >= 0x8000_0000_0000_0000u64 && b < 0x8000_0000_0000_0000u64 ==> score_key_spec(a)
        < score_key_spec(b)) by (bit_vector);
    assert(a != b ==> score_key_spec(a) != score_key_spec(b)) by (bit_vector);
}

/// A courier may take an order when it is available, has spare capacity and
/// has not been given an order earlier in the batch.
pub open spec fn eligible(c: Courier, taken: Set<u128>) -> bool {
    &&& c.status == CourierStatus::Available
    &&& c.current_load < c.capacity
    &&& !taken.contains(c.id)
}

/// Some courier of the snapshot may take an order.
pub open spec fn has_eligible(cs: Seq<Courier>, taken: Set<u128>) -> bool {
    exists|k: int| 0 <= k < cs.len() && eligible(#[trigger] cs[k], taken)
}

/// `j` is the courier that the batch gives the order to: an eligible courier
/// of highest score, the last one among equal highest scores.
pub open spec fn is_best_choice(
    cs: Seq<Courier>,
    row: Seq<FloatBits>,
    taken: Set<u128>,
    j: int,
) -> bool {
    &&& 0 <= j < cs.len()
    &&& eligible(cs[j], taken)
    &&& forall|k: int|
        0 <= k < cs.len() && eligible(#[trigger] cs[k], taken) ==> score_key_spec(row[k])
            <= score_key_spec(row[j])
    &&& forall|k: int|
        j < k < cs.len() && eligible(#[trigger] cs[k], taken) ==> score_key_spec(row[k])
            < score_key_spec(row[j])
}

/// The decision for one order: the best eligible courier, or none (the order
/// goes back to the queue) when no courier is eligible.
#[verifier::opaque]
pub open spec fn step_ok(
    cs: Seq<Courier>,
    row: Seq<FloatBits>,
    taken: Set<u128>,
    choice: Option<usize>,
) -> bool {
    match choice {
        Some(j) => is_best_choice(cs, row, taken, j as int),
        None => !has_eligible(cs, taken),
    }
}

/// The couriers given an order among the first `i` orders of a plan.
pub open spec fn taken_before(
    cs: Seq<Courier>,
    plan: Seq<Option<usize>>,
    i: int,
) -> Set<u128>
    decreases i,
{
    if i <= 0 {
        Set::empty()
    } else {
        let prev = taken_before(cs, plan, i - 1);
        match plan[i - 1] {
            Some(j) => prev.insert(cs[j as int].id),
            None => prev,
        }
    }
}

/// `plan` is the batch plan for `scores` (one row of courier scores per
/// order, in queue order): each order gets the best courier not taken by an
/// earlier order, or none.
pub open spec fn is_batch_plan(
    cs: Seq<Courier>,
    scores: Seq<Vec<FloatBits>>,
    plan: Seq<Option<usize>>,
) -> bool {
    &&& plan.len() == scores.len()
    &&& forall|i: int|
        0 <= i < plan.len() ==> step_ok(cs, scores[i]@, taken_before(cs, plan, i), #[trigger] plan[i])
}

proof fn lemma_taken_before_prefix(
    cs: Seq<Courier>,
    plan: Seq<Option<usize>>,
    x: Option<usize>,
    i: int,
)
    requires
        0 <= i <= plan.len(),
    ensures
        taken_before(cs, plan.push(x), i) == taken_before(cs, plan, i),
    decreases i,
{
    if i > 0 {
        lemma_taken_before_prefix(cs, plan, x, i - 1);
        assert(plan.push(x)[i - 1] == plan[i - 1]);
    }
}

proof fn lemma_taken_before_contains(
    cs: Seq<Courier>,
    plan: Seq<Option<usize>>,
    i: int,
    k: int,
)
    requires
        0 <= i < k <= plan.len(),
        plan[i] is Some,
    ensures
        taken_before(cs, plan, k).contains(cs[plan[i]->0 as int].id),
    decreases k,
{
    if k - 1 > i {
        lemma_taken_before_contains(cs, plan, i, k - 1);
    }
}

fn contains_id(ids: &Vec<u128>, id: u128) -> (r: bool)
    ensures
        r == ids@.contains(id),
{
    let mut i: usize = 0;
    while i < ids.len()
        invariant
            i <= ids.len(),
            forall|k: int| 0 <= k < i ==> ids@[k] != id,
        decreases ids.len() - i,
    {
        if ids[i] == id {
            return true;
        }
        i += 1;
    }
    false
}

/// The courier that one order of the batch is given, scanning the snapshot
/// as the engine does (a later courier replaces the current best on an equal
/// score).
fn best_candidate(cs: &Vec<Courier>, row: &Vec<FloatBits>, taken: &Vec<u128>) -> (r:
    Option<usize>)
    requires
        row.len() == cs.len(),
    ensures
        step_ok(cs@, row@, taken@.to_set(), r),
{
    let ghost t = taken@.to_set();
    let mut best: Option<usize> = None;
    let mut best_key: i64 = 0;
    let mut j: usize = 0;
    while j < cs.len()
        invariant
            j <= cs.len(),
            row.len() == cs.len(),
            t == taken@.to_set(),
            match best {
                None => forall|k: int| 0 <= k < j ==> !eligible(#[trigger] cs@[k], t),
                Some(b) => {
                    &&& b < j
                    &&& eligible(cs@[b as int], t)
                    &&& best_key == score_key_spec(row@[b as int])
                    &&& forall|k: int|
                        0 <= k < j && eligible(#[trigger] cs@[k], t) ==> score_key_spec(row@[k])
                            <= best_key
                    &&& forall|k: int|
                        b < k < j && eligible(#[trigger] cs@[k], t) ==> score_key_spec(row@[k])
                            < best_key
                },
            },
        decreases cs.len() - j,
    {
        let c = &cs[j];
        let free = !contains_id(taken, c.id);
        proof {
            assert(free == !t.contains(c.id));
        }
        if c.status == CourierStatus::Available && c.current_load < c.capacity && free {
            let k = score_key(row[j]);
            match best {
                None => {
                    best = Some(j);
                    best_key = k;
                },
                Some(_) => {
                    if k >= best_key {
                        best = Some(j);
                        best_key = k;
                    }
                },
            }
        }
        j += 1;
    }
    proof {
        reveal(step_ok);
    }
    best
}

/// Plans one assignment batch. `couriers` is the snapshot of couriers; row
/// `i` of `scores` holds the score of each courier for the `i`-th pending
/// order. Entry `i` of the result is the index of the courier given order
/// `i`, or `None` when the order goes back to the queue.
pub fn plan_assignments(couriers: &Vec<Courier>, scores: &Vec<Vec<FloatBits>>) -> (plan:
    Vec<Option<usize>>)
    requires
        forall|i: int| 0 <= i < scores.len() ==> (#[trigger] scores@[i]).len() == couriers.len(),
    ensures
        is_batch_plan(couriers@, scores@, plan@),
{
    let mut plan: Vec<Option<usize>> = Vec::new();
    let mut taken: Vec<u128> = Vec::new();
    let mut i: usize = 0;
    while i < scores.len()
        invariant
            i <= scores.len(),
            plan.len() == i,
            forall|k: int| 0 <= k < scores.len() ==> (#[trigger] scores@[k]).len() == couriers.len(),
            taken@.to_set() == taken_before(couriers@, plan@, i as int),
            forall|k: int|
                0 <= k < i ==> step_ok(
                    couriers@,
                    scores@[k]@,
                    taken_before(couriers@, plan@, k),
                    #[trigger] plan@[k],
                ),
        decreases scores.len() - i,
    {
        let choice = best_candidate(couriers, &scores[i], &taken);
        proof {
            reveal(step_ok);
        }
        let ghost old_plan = plan@;
        let ghost old_taken = taken@;
        plan.push(choice);
        proof {
            assert forall|k: int| 0 <= k <= i implies taken_before(couriers@, plan@, k)
                == taken_before(couriers@, old_plan, k) by {
                lemma_taken_before_prefix(couriers@, old_plan, choice, k);
            }
            assert(plan@[i as int] == choice);
        }
        match choice {
            Some(j) => {
                taken.push(couriers[j].id);
                proof {
                    assert(taken@ == old_taken.push(couriers@[j as int].id));
                    old_taken.lemma_push_to_set_commute(couriers@[j as int].id);
                    assert(taken@.to_set() =~= old_taken.to_set().insert(couriers@[j as int].id));
                }
            },
            None => {},
        }
        i += 1;
    }
    plan
}

/// In a batch plan no courier is given two orders, and every courier that
/// is given an order was available and below capacity.
pub proof fn lemma_plan_gives_each_courier_at_most_one_order(
    cs: Seq<Courier>,
    scores: Seq<Vec<FloatBits>>,
    plan: Seq<Option<usize>>,
)
    requires
        is_batch_plan(cs, scores, plan),
    ensures
        forall|i: int, k: int|
            0 <= i < k < plan.len() && (#[trigger] plan[i]) is Some && (#[trigger] plan[k]) is Some
                ==> cs[plan[i]->0 as int].id != cs[plan[k]->0 as int].id,
        forall|i: int|
            0 <= i < plan.len() && (#[trigger] plan[i]) is Some ==> {
                let c = cs[plan[i]->0 as int];
                c.status == CourierStatus::Available && c.current_load < c.capacity
            },
{
    reveal(step_ok);
    assert forall|i: int, k: int|
        0 <= i < k < plan.len() && (#[trigger] plan[i]) is Some && (#[trigger] plan[k]) is Some
            implies cs[plan[i]->0 as int].id != cs[plan[k]->0 as int].id by {
        lemma_taken_before_contains(cs, plan, i, k);
        assert(step_ok(cs, scores[k]@, taken_before(cs, plan, k), plan[k]));
    }
    assert forall|i: int| 0 <= i < plan.len() && (#[trigger] plan[i]) is Some implies {
        let c = cs[plan[i]->0 as int];
        c.status == CourierStatus::Available && c.current_load < c.capacity
    } by {
        assert(step_ok(cs, scores[i]@, taken_before(cs, plan, i), plan[i]));
    }
}

/// A courier that can take an order at all: available and below capacity.
pub open spec fn ready(c: Courier) -> bool {
    c.status == CourierStatus::Available && c.current_load < c.capacity
}

/// The ids of the couriers of the snapshot that can take an order.
pub open spec fn ready_ids(cs: Seq<Courier>) -> Set<u128> {
    Set::new(|id: u128| exists|k: int| 0 <= k < cs.len() && ready(#[trigger] cs[k]) && cs[k].id == id)
}

proof fn lemma_ready_ids_finite(cs: Seq<Courier>)
    ensures
        ready_ids(cs).finite(),
{
    let all = cs.map_values(|c: Courier| c.id).to_set();
    vstd::seq_lib::seq_to_set_is_finite(cs.map_values(|c: Courier| c.id));
    assert forall|id: u128| ready_ids(cs).contains(id) implies all.contains(id) by {
        let k = choose|k: int| 0 <= k < cs.len() && ready(#[trigger] cs[k]) && cs[k].id == id;
        assert(cs.map_values(|c: Courier| c.id)[k] == id);
    }
    vstd::set_lib::lemma_set_subset_finite(all, ready_ids(cs));
}

spec fn min_int(a: int, b: int) -> int {
    if a <= b {
        a
    } else {
        b
    }
}

proof fn lemma_batch_step(cs: Seq<Courier>, row: Seq<FloatBits>, t: Set<u128>, choice: Option<usize>)
    requires
        step_ok(cs, row, t, choice),
        t.subset_of(ready_ids(cs)),
        t.finite(),
        ready_ids(cs).finite(),
    ensures
        choice is Some <==> t.len() < ready_ids(cs).len(),
        choice is Some ==> ready_ids(cs).contains(cs[choice->0 as int].id) && !t.contains(
            cs[choice->0 as int].id,
        ),
{
    reveal(step_ok);
    let r = ready_ids(cs);
    if t.len() < r.len() {
        if r.subset_of(t) {
            vstd::set_lib::lemma_len_subset(r, t);
        }
        let id = choose|id: u128| r.contains(id) && !t.contains(id);
        let k = choose|k: int| 0 <= k < cs.len() && ready(#[trigger] cs[k]) && cs[k].id == id;
        assert(eligible(cs[k], t));
    } else {
        vstd::set_lib::lemma_len_subset(t, r);
        vstd::set_lib::lemma_subset_equality(t, r);
    }
    if let Some(j) = choice {
        assert(eligible(cs[j as int], t));
        assert(ready(cs[j as int]));
    }
}

proof fn lemma_batch_prefix(
    cs: Seq<Courier>,
    scores: Seq<Vec<FloatBits>>,
    plan: Seq<Option<usize>>,
    i: int,
)
    requires
        is_batch_plan(cs, scores, plan),
        0 <= i <= plan.len(),
    ensures
        ready_ids(cs).finite(),
        taken_before(cs, plan, i).subset_of(ready_ids(cs)),
        taken_before(cs, plan, i).finite(),
        taken_before(cs, plan, i).len() == min_int(i, ready_ids(cs).len() as int),
        forall|k: int| 0 <= k < i ==> ((#[trigger] plan[k]) is Some <==> k < ready_ids(cs).len()),
    decreases i,
{
    lemma_ready_ids_finite(cs);
    if i > 0 {
        let p = i - 1;
        lemma_batch_prefix(cs, scores, plan, p);
        let t = taken_before(cs, plan, p);
        assert(step_ok(cs, scores[p]@, t, plan[p]));
        lemma_batch_step(cs, scores[p]@, t, plan[p]);
        match plan[p] {
            Some(j) => {
                assert(taken_before(cs, plan, i) == t.insert(cs[j as int].id));
            },
            None => {
                assert(taken_before(cs, plan, i) == t);
            },
        }
    } else {
        assert(taken_before(cs, plan, 0) =~= Set::<u128>::empty());
    }
}

/// A batch assigns exactly as many orders as there are couriers able to take
/// one, when the batch is that large: the first orders of the queue, up to
/// the number of ready couriers, are each given a courier, and every later
/// order goes back to the queue.
pub proof fn lemma_batch_assigns_leading_orders(
    cs: Seq<Courier>,
    scores: Seq<Vec<FloatBits>>,
    plan: Seq<Option<usize>>,
)
    requires
        is_batch_plan(cs, scores, plan),
    ensures
        ready_ids(cs).finite(),
        forall|i: int|
            0 <= i < plan.len() ==> ((#[trigger] plan[i]) is Some <==> i < ready_ids(cs).len()),
{
    lemma_batch_prefix(cs, scores, plan, plan.len() as int);
}

} // verus!

verus! {

proof fn lemma_best_choice_unique(
    cs: Seq<Courier>,
    row: Seq<FloatBits>,
    taken: Set<u128>,
    j1: int,
    j2: int,
)
    requires
        is_best_choice(cs, row, taken, j1),
        is_best_choice(cs, row, taken, j2),
    ensures
        j1 == j2,
{
    if j1 < j2 {
        assert(eligible(cs[j2], taken));
        assert(eligible(cs[j1], taken));
    } else if j2 < j1 {
        assert(eligible(cs[j2], taken));
        assert(eligible(cs[j1], taken));
    }
}

proof fn lemma_step_unique(
    cs: Seq<Courier>,
    row: Seq<FloatBits>,
    taken: Set<u128>,
    a: Option<usize>,
    b: Option<usize>,
)
    requires
        step_ok(cs, row, taken, a),
        step_ok(cs, row, taken, b),
    ensures
        a == b,
{
    reveal(step_ok);
    match (a, b) {
        (Some(x), Some(y)) => lemma_best_choice_unique(cs, row, taken, x as int, y as int),
        (Some(x), None) => {
            assert(eligible(cs[x as int], taken));
        },
        (None, Some(y)) => {
            assert(eligible(cs[y as int], taken));
        },
        (None, None) => {},
    }
}

proof fn lemma_taken_before_agree(
    cs: Seq<Courier>,
    p: Seq<Option<usize>>,
    q: Seq<Option<usize>>,
    i: int,
)
    requires
        0 <= i <= p.len(),
        i <= q.len(),
        forall|k: int| 0 <= k < i ==> p[k] == q[k],
    ensures
        taken_before(cs, p, i) == taken_before(cs, q, i),
    decreases i,
{
    if i > 0 {
        lemma_taken_before_agree(cs, p, q, i - 1);
    }
}

proof fn lemma_plans_agree_upto(
    cs: Seq<Courier>,
    scores: Seq<Vec<FloatBits>>,
    p: Seq<Option<usize>>,
    q: Seq<Option<usize>>,
    i: int,
)
    requires
        is_batch_plan(cs, scores, p),
        is_batch_plan(cs, scores, q),
        0 <= i <= p.len(),
    ensures
        forall|k: int| 0 <= k < i ==> p[k] == q[k],
    decreases i,
{
    if i > 0 {
        lemma_plans_agree_upto(cs, scores, p, q, i - 1);
        lemma_taken_before_agree(cs, p, q, i - 1);
        assert(step_ok(cs, scores[i - 1]@, taken_before(cs, p, i - 1), p[i - 1]));
        assert(step_ok(cs, scores[i - 1]@, taken_before(cs, q, i - 1), q[i - 1]));
        lemma_step_unique(cs, scores[i - 1]@, taken_before(cs, p, i - 1), p[i - 1], q[i - 1]);
    }
}

/// The batch plan is determined by the courier snapshot and the scores:
/// two plans for the same batch are the same plan.
pub proof fn lemma_batch_plan_unique(
    cs: Seq<Courier>,
    scores: Seq<Vec<FloatBits>>,
    p: Seq<Option<usize>>,
    q: Seq<Option<usize>>,
)
    requires
        is_batch_plan(cs, scores, p),
        is_batch_plan(cs, scores, q),
    ensures
        p == q,
{
    lemma_plans_agree_upto(cs, scores, p, q, p.len() as int);
    assert(p =~= q);
}

} // verus!
