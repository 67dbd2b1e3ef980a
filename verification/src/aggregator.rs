//! Sliding-window assignment metrics.
//!
//! Keeps a window of recent assignment records and computes the all-time
//! totals, the average and percentiles of assignment latency in the window,
//! the scores in the window, and the share of couriers that received an
//! assignment in the window.

use vstd::prelude::*;
use vstd::relations::{sorted_by, total_ordering};
use std::collections::VecDeque;

use crate::clock::now_millis;
use crate::models::FloatBits;

verus! {

/// A single recorded assignment.
#[derive(Debug, Clone)]
pub struct AssignmentRecord {
    pub courier_id: String,
    /// Bit pattern of the assignment score.
    pub score: FloatBits,
    /// Milliseconds from order creation to assignment.
    pub latency_ms: i64,
    /// When the assignment was recorded (epoch milliseconds).
    pub recorded_at_ms: i64,
}

/// An exact quotient `numerator / denominator` (the denominator is never 0).
#[derive(Debug, Clone, Copy, PartialEq, Eq, Structural)]
pub struct Ratio {
    pub numerator: i128,
    pub denominator: u128,
}

struct CourierCount {
    courier_id: String,
    count: u64,
}

/// Sliding-window metric aggregator.
pub struct Aggregator {
    total_assignments: u64,
    total_events_processed: u64,
    window: VecDeque<AssignmentRecord>,
    window_ms: i64,
    courier_assignment_counts: Vec<CourierCount>,
}

spec fn count_keys(s: Seq<CourierCount>) -> Seq<Seq<char>> {
    s.map_values(|c: CourierCount| c.courier_id@)
}

spec fn counts_map(s: Seq<CourierCount>) -> Map<Seq<char>, u64>
    decreases s.len(),
{
    if s.len() == 0 {
        Map::empty()
    } else {
        counts_map(s.drop_last()).insert(s.last().courier_id@, s.last().count)
    }
}

/// The window left after dropping, from its front, the records older than
/// `cutoff`.
pub open spec fn evict_spec(w: Seq<AssignmentRecord>, cutoff: int) -> Seq<AssignmentRecord>
    decreases w.len(),
{
    if w.len() > 0 && w[0].recorded_at_ms < cutoff {
        evict_spec(w.drop_first(), cutoff)
    } else {
        w
    }
}

/// The sum of the latencies in a window.
pub open spec fn latency_sum(w: Seq<AssignmentRecord>) -> int
    decreases w.len(),
{
    if w.len() == 0 {
        0
    } else {
        latency_sum(w.drop_last()) + w.last().latency_ms
    }
}

/// The latencies of a window in ascending order.
pub open spec fn sorted_latencies(w: Seq<AssignmentRecord>) -> Seq<i64> {
    w.map_values(|r: AssignmentRecord| r.latency_ms).sort_by(|a: i64, b: i64| a <= b)
}

/// The index into `n` sorted values that the percentile `pct_basis_points`
/// (hundredths of a percent) selects: `pct * n - 1`, rounded down and
/// clamped to the valid indices.
pub open spec fn percentile_index(n: int, pct_basis_points: int) -> int {
    let t = pct_basis_points * n / 10000;
    if t <= 0 {
        0
    } else if t - 1 > n - 1 {
        n - 1
    } else {
        t - 1
    }
}

/// The number of distinct couriers that appear in a window.
pub open spec fn distinct_couriers(w: Seq<AssignmentRecord>) -> nat {
    w.map_values(|r: AssignmentRecord| r.courier_id@).to_set().len()
}

/// The average latency of a window (0 for an empty window).
pub open spec fn avg_latency_spec(w: Seq<AssignmentRecord>) -> Ratio {
    if w.len() == 0 {
        Ratio { numerator: 0, denominator: 1 }
    } else {
        Ratio { numerator: latency_sum(w) as i128, denominator: w.len() as u128 }
    }
}

/// The latency percentile of a window (0 for an empty window).
pub open spec fn latency_percentile_spec(w: Seq<AssignmentRecord>, pct_basis_points: int) -> i64 {
    if w.len() == 0 {
        0
    } else {
        sorted_latencies(w)[percentile_index(w.len() as int, pct_basis_points)]
    }
}

/// The latency of rank `rank` (0 for the lowest) in a window, the highest
/// for a rank past the end, and 0 for an empty window.
pub open spec fn latency_at_rank_spec(w: Seq<AssignmentRecord>, rank: int) -> i64 {
    if w.len() == 0 {
        0
    } else {
        sorted_latencies(w)[if rank < w.len() {
            rank
        } else {
            w.len() - 1
        }]
    }
}

/// The percentage of `total_couriers` that received an assignment in the
/// window (0 when there are no couriers).
pub open spec fn utilization_spec(w: Seq<AssignmentRecord>, total_couriers: int) -> Ratio {
    if total_couriers == 0 {
        Ratio { numerator: 0, denominator: 1 }
    } else {
        Ratio {
            numerator: (100 * distinct_couriers(w)) as i128,
            denominator: total_couriers as u128,
        }
    }
}

/// Calls the standard library's `slice::sort_unstable` on the vector: it
/// leaves the same values, in ascending order.
#[verifier::external_body]
fn sort_ascending(v: &mut Vec<i64>)
    ensures
        final(v)@.to_multiset() == old(v)@.to_multiset(),
        sorted_by(final(v)@, |a: i64, b: i64| a <= b),
{
    v.sort_unstable();
}

proof fn lemma_counts_map_update(s: Seq<CourierCount>, i: int, c: CourierCount)
    requires
        0 <= i < s.len(),
        count_keys(s).no_duplicates(),
        s[i].courier_id@ == c.courier_id@,
    ensures
        counts_map(s.update(i, c)) == counts_map(s).insert(c.courier_id@, c.count),
    decreases s.len(),
{
    let t = s.update(i, c);
    if i == s.len() - 1 {
        assert(t.drop_last() =~= s.drop_last());
        assert(counts_map(t) =~= counts_map(s).insert(c.courier_id@, c.count));
    } else {
        let d = s.drop_last();
        assert(count_keys(d) =~= count_keys(s).drop_last());
        assert(t.drop_last() =~= d.update(i, c));
        lemma_counts_map_update(d, i, c);
        assert(count_keys(s)[i] != count_keys(s)[s.len() - 1]);
        assert(counts_map(t) =~= counts_map(s).insert(c.courier_id@, c.count));
    }
}

proof fn lemma_counts_map_dom(s: Seq<CourierCount>)
    requires
        count_keys(s).no_duplicates(),
    ensures
        counts_map(s).dom() == count_keys(s).to_set(),
        forall|i: int| 0 <= i < s.len() ==> counts_map(s)[#[trigger] s[i].courier_id@] == s[i].count,
    decreases s.len(),
{
    if s.len() > 0 {
        let d = s.drop_last();
        assert(count_keys(d) =~= count_keys(s).drop_last());
        lemma_counts_map_dom(d);
        assert(count_keys(s) =~= count_keys(d).push(s.last().courier_id@));
        count_keys(d).lemma_push_to_set_commute(s.last().courier_id@);
        assert(counts_map(s).dom() =~= count_keys(s).to_set());
        assert forall|i: int| 0 <= i < s.len() implies counts_map(s)[#[trigger] s[i].courier_id@]
            == s[i].count by {
            if i < s.len() - 1 {
                assert(count_keys(s)[i] != count_keys(s)[s.len() - 1]);
                assert(d[i] == s[i]);
            }
        }
    } else {
        assert(counts_map(s).dom() =~= count_keys(s).to_set());
    }
}

proof fn lemma_counts_map_len(s: Seq<CourierCount>)
    requires
        count_keys(s).no_duplicates(),
    ensures
        counts_map(s).dom().finite(),
        counts_map(s).dom().len() == s.len(),
{
    lemma_counts_map_dom(s);
    vstd::seq_lib::seq_to_set_is_finite(count_keys(s));
    count_keys(s).unique_seq_to_set();
}

proof fn lemma_latency_sum_take(w: Seq<AssignmentRecord>, i: int)
    requires
        0 <= i < w.len(),
    ensures
        latency_sum(w.take(i + 1)) == latency_sum(w.take(i)) + w[i].latency_ms,
{
    assert(w.take(i + 1).drop_last() =~= w.take(i));
}

proof fn lemma_i64_order_total()
    ensures
        total_ordering(|a: i64, b: i64| a <= b),
{
}

/// Dropping expired records removes a prefix of the window, every record
/// that it removes is older than the cutoff, and the record left at the
/// front (if any) is not.
pub proof fn lemma_evict_drops_expired_prefix(w: Seq<AssignmentRecord>, cutoff: int)
    ensures
        exists|k: int|
            0 <= k <= w.len() && evict_spec(w, cutoff) == w.skip(k) && (forall|i: int|
                0 <= i < k ==> (#[trigger] w[i]).recorded_at_ms < cutoff),
        evict_spec(w, cutoff).len() > 0 ==> evict_spec(w, cutoff)[0].recorded_at_ms >= cutoff,
    decreases w.len(),
{
    if w.len() > 0 && w[0].recorded_at_ms < cutoff {
        lemma_evict_drops_expired_prefix(w.drop_first(), cutoff);
        let k = choose|k: int|
            0 <= k <= w.drop_first().len() && evict_spec(w.drop_first(), cutoff)
                == w.drop_first().skip(k) && (forall|i: int|
                0 <= i < k ==> (#[trigger] w.drop_first()[i]).recorded_at_ms < cutoff);
        assert(w.drop_first().skip(k) =~= w.skip(k + 1));
        assert forall|i: int| 0 <= i < k + 1 implies (#[trigger] w[i]).recorded_at_ms < cutoff by {
            if i > 0 {
                assert(w[i] == w.drop_first()[i - 1]);
            }
        }
    } else {
        assert(w.skip(0) =~= w);
    }
}

/// When the records of the window are in time order (as the clock gives
/// them), eviction keeps exactly the records recorded at or after the
/// cutoff: every record it drops is older, every record it keeps is not.
pub proof fn lemma_eviction_keeps_exactly_recent_records(w: Seq<AssignmentRecord>, cutoff: int)
    requires
        in_time_order(w),
    ensures
        exists|k: int|
            0 <= k <= w.len() && evict_spec(w, cutoff) == w.skip(k) && (forall|i: int|
                0 <= i < k ==> (#[trigger] w[i]).recorded_at_ms < cutoff),
        forall|i: int|
            0 <= i < evict_spec(w, cutoff).len() ==> (#[trigger] evict_spec(w, cutoff)[i]).recorded_at_ms
                >= cutoff,
{
    lemma_evict_drops_expired_prefix(w, cutoff);
    let e = evict_spec(w, cutoff);
    let k = choose|k: int|
        0 <= k <= w.len() && evict_spec(w, cutoff) == w.skip(k) && (forall|i: int|
            0 <= i < k ==> (#[trigger] w[i]).recorded_at_ms < cutoff);
    assert forall|i: int| 0 <= i < e.len() implies (#[trigger] e[i]).recorded_at_ms >= cutoff by {
        assert(e[i] == w[k + i]);
        assert(e[0] == w[k]);
        assert(w[k].recorded_at_ms <= w[k + i].recorded_at_ms);
    }
}

fn find_courier(counts: &Vec<CourierCount>, id: &String) -> (r: Option<usize>)
    ensures
        match r {
            Some(i) => i < counts.len() && counts@[i as int].courier_id@ == id@,
            None => forall|k: int| 0 <= k < counts.len() ==> (#[trigger] counts@[k]).courier_id@ != id@,
        },
{
    let mut i: usize = 0;
    while i < counts.len()
        invariant
            i <= counts.len(),
            forall|k: int| 0 <= k < i ==> (#[trigger] counts@[k]).courier_id@ != id@,
        decreases counts.len() - i,
    {
        if counts[i].courier_id == *id {
            return Some(i);
        }
        i += 1;
    }
    None
}

fn contains_name(names: &Vec<String>, id: &String) -> (r: bool)
    ensures
        r == names@.map_values(|s: String| s@).contains(id@),
{
    let ghost v = names@.map_values(|s: String| s@);
    let mut i: usize = 0;
    while i < names.len()
        invariant
            i <= names.len(),
            v == names@.map_values(|s: String| s@),
            forall|k: int| 0 <= k < i ==> v[k] != id@,
        decreases names.len() - i,
    {
        if names[i] == *id {
            assert(v[i as int] == id@);
            return true;
        }
        i += 1;
    }
    false
}

impl Aggregator {
    /// Well-formedness: every processed event is an assignment, courier
    /// names are listed once, and no courier has more assignments than the
    /// total.
    pub closed spec fn wf(self) -> bool {
        &&& self.total_events_processed == self.total_assignments
        &&& count_keys(self.courier_assignment_counts@).no_duplicates()
        &&& forall|i: int|
            0 <= i < self.courier_assignment_counts@.len()
                ==> (#[trigger] self.courier_assignment_counts@[i]).count <= self.total_assignments
    }

    /// Assignments recorded since creation.
    pub closed spec fn total_assignments_spec(self) -> u64 {
        self.total_assignments
    }

    /// Events processed since creation.
    pub closed spec fn total_events_processed_spec(self) -> u64 {
        self.total_events_processed
    }

    /// The records in the window, oldest first.
    pub closed spec fn window_spec(self) -> Seq<AssignmentRecord> {
        self.window@
    }

    /// The window length in milliseconds.
    pub closed spec fn window_ms_spec(self) -> i64 {
        self.window_ms
    }

    /// How many assignments each courier has received since creation.
    pub closed spec fn courier_counts(self) -> Map<Seq<char>, u64> {
        counts_map(self.courier_assignment_counts@)
    }

    /// Every event the aggregator has processed is an assignment: the two
    /// all-time counters are equal in every state.
    pub proof fn lemma_events_are_assignments(self)
        requires
            self.wf(),
        ensures
            self.total_events_processed_spec() == self.total_assignments_spec(),
    {
    }

    /// A well-formed aggregator has seen finitely many couriers.
    pub proof fn lemma_courier_counts_finite(self)
        requires
            self.wf(),
        ensures
            self.courier_counts().dom().finite(),
    {
        lemma_counts_map_len(self.courier_assignment_counts@);
    }

    /// Everything but the window is as in `old`.
    pub open spec fn same_totals(self, old: Aggregator) -> bool {
        &&& self.total_assignments_spec() == old.total_assignments_spec()
        &&& self.total_events_processed_spec() == old.total_events_processed_spec()
        &&& self.window_ms_spec() == old.window_ms_spec()
        &&& self.courier_counts() == old.courier_counts()
    }

    /// `self` is `old` after evicting, at time `now_ms`, the records older
    /// than the window.
    pub open spec fn evicted_from(self, old: Aggregator, now_ms: int) -> bool {
        &&& self.same_totals(old)
        &&& self.window_spec() == evict_spec(old.window_spec(), now_ms - old.window_ms_spec())
    }

    /// `self` is `old` after recording, at time `now_ms`, an assignment of
    /// `courier_id` with the given score and latency.
    pub open spec fn recorded_from(
        self,
        old: Aggregator,
        courier_id: Seq<char>,
        score: FloatBits,
        latency_ms: i64,
        now_ms: i64,
    ) -> bool {
        &&& self.total_assignments_spec() == old.total_assignments_spec() + 1
        &&& self.total_events_processed_spec() == old.total_events_processed_spec() + 1
        &&& self.window_ms_spec() == old.window_ms_spec()
        &&& self.courier_counts() == old.courier_counts().insert(
            courier_id,
            if old.courier_counts().contains_key(courier_id) {
                (old.courier_counts()[courier_id] + 1) as u64
            } else {
                1u64
            },
        )
        &&& self.window_spec().len() > 0 ==> self.window_spec().last().courier_id@ == courier_id
        &&& exists|r: AssignmentRecord|
            #![trigger old.window_spec().push(r)]
            r.courier_id@ == courier_id && r.score == score && r.latency_ms == latency_ms
                && r.recorded_at_ms == now_ms && self.window_spec() == evict_spec(
                old.window_spec().push(r),
                now_ms - old.window_ms_spec(),
            )
    }

    /// An aggregator with an empty window of `window_size_secs` seconds.
    pub fn new(window_size_secs: u64) -> (agg: Aggregator)
        requires
            window_size_secs * 1000 <= u64::MAX,
        ensures
            agg.wf(),
            agg.total_assignments_spec() == 0,
            agg.total_events_processed_spec() == 0,
            agg.window_spec().len() == 0,
            agg.window_ms_spec() == (window_size_secs * 1000) as i64,
            agg.courier_counts() == Map::<Seq<char>, u64>::empty(),
            agg.courier_counts().dom().finite(),
    {
        let agg = Aggregator {
            total_assignments: 0,
            total_events_processed: 0,
            window: VecDeque::new(),
            window_ms: (window_size_secs * 1000) as i64,
            courier_assignment_counts: Vec::new(),
        };
        proof {
            assert(count_keys(agg.courier_assignment_counts@) =~= Seq::empty());
        }
        agg
    }

    /// Removes the records outside the sliding window at time `now_ms`.
    pub fn evict_expired(&mut self, now_ms: i64)
        requires
            old(self).wf(),
        ensures
            final(self).wf(),
            final(self).evicted_from(*old(self), now_ms as int),
    {
        let cutoff: i128 = now_ms as i128 - self.window_ms as i128;
        while self.window.len() > 0 && (self.window[0].recorded_at_ms as i128) < cutoff
            invariant
                cutoff == now_ms - old(self).window_ms_spec(),
                self.same_totals(*old(self)),
                self.wf(),
                evict_spec(self.window@, cutoff as int) == evict_spec(
                    old(self).window_spec(),
                    cutoff as int,
                ),
            decreases self.window@.len(),
        {
            let ghost w = self.window@;
            self.window.pop_front();
            proof {
                assert(self.window@ =~= w.drop_first());
            }
        }
    }

    /// Records an assignment at time `now_ms` and evicts expired records.
    pub fn record_assignment_at(
        &mut self,
        courier_id: String,
        score: FloatBits,
        latency_ms: i64,
        now_ms: i64,
    )
        requires
            old(self).wf(),
            old(self).total_assignments_spec() < u64::MAX,
        ensures
            final(self).wf(),
            final(self).recorded_from(*old(self), courier_id@, score, latency_ms, now_ms),
            final(self).courier_counts().dom().finite(),
            final(self).courier_counts().dom().len() == old(self).courier_counts().dom().len() + (
            if old(self).courier_counts().contains_key(courier_id@) {
                0int
            } else {
                1int
            }),
    {
        proof {
            lemma_counts_map_len(self.courier_assignment_counts@);
        }
        let ghost old_counts = self.courier_assignment_counts@;
        let ghost id = courier_id@;
        let pos = find_courier(&self.courier_assignment_counts, &courier_id);
        let found = pos.is_some();
        let i: usize = match pos { Some(p) => p, None => 0 };
        proof {
            lemma_counts_map_dom(old_counts);
        }
        self.total_assignments = self.total_assignments + 1;
        self.total_events_processed = self.total_events_processed + 1;
        if found {
            proof {
                assert(old_counts[i as int].count <= old(self).total_assignments);
            }
            let c = self.courier_assignment_counts[i].count + 1;
            let entry = CourierCount { courier_id: courier_id.clone(), count: c };
            proof {
                assert(count_keys(old_counts)[i as int] == id);
                assert(count_keys(old_counts).contains(id));
                lemma_counts_map_update(old_counts, i as int, entry);
                assert(count_keys(old_counts.update(i as int, entry)) =~= count_keys(old_counts));
            }
            self.courier_assignment_counts.set(i, entry);
        } else {
            let entry = CourierCount { courier_id: courier_id.clone(), count: 1 };
            proof {
                assert(!count_keys(old_counts).contains(id));
                assert(!counts_map(old_counts).contains_key(id));
                assert(count_keys(old_counts.push(entry)) =~= count_keys(old_counts).push(id));
                assert(old_counts.push(entry).drop_last() =~= old_counts);
            }
            self.courier_assignment_counts.push(entry);
        }
        let record = AssignmentRecord { courier_id, score, latency_ms, recorded_at_ms: now_ms };
        let ghost pushed = self.window@.push(record);
        self.window.push_back(record);
        self.evict_expired(now_ms);
        proof {
            assert(self.courier_counts() == old(self).courier_counts().insert(
                id,
                if old(self).courier_counts().contains_key(id) {
                    (old(self).courier_counts()[id] + 1) as u64
                } else {
                    1u64
                },
            ));
            assert(self.window_spec() == evict_spec(
                old(self).window_spec().push(record),
                now_ms - old(self).window_ms_spec(),
            ));
            let w = self.window@;
            lemma_evict_drops_expired_prefix(pushed, now_ms - self.window_ms);
            if w.len() > 0 {
                let k = choose|k: int|
                    0 <= k <= pushed.len() && evict_spec(pushed, now_ms - self.window_ms)
                        == pushed.skip(k) && (forall|j: int|
                        0 <= j < k ==> (#[trigger] pushed[j]).recorded_at_ms < now_ms
                            - self.window_ms);
                assert(w.last() == pushed.last());
            }
            lemma_counts_map_len(self.courier_assignment_counts@);
        }
    }

    /// Records an assignment now and evicts expired records.
    pub fn record_assignment(&mut self, courier_id: String, score: FloatBits, latency_ms: i64)
        requires
            old(self).wf(),
            old(self).total_assignments_spec() < u64::MAX,
        ensures
            final(self).wf(),
            exists|now_ms: i64|
                final(self).recorded_from(*old(self), courier_id@, score, latency_ms, now_ms),
            final(self).courier_counts().dom().finite(),
            final(self).courier_counts().dom().len() == old(self).courier_counts().dom().len() + (
            if old(self).courier_counts().contains_key(courier_id@) {
                0int
            } else {
                1int
            }),
    {
        let now_ms = now_millis();
        self.record_assignment_at(courier_id, score, latency_ms, now_ms);
    }

    /// Total assignments (all-time).
    pub fn total_assignments(&self) -> (n: u64)
        ensures
            n == self.total_assignments_spec(),
    {
        self.total_assignments
    }

    /// Total events processed (all-time).
    pub fn total_events_processed(&self) -> (n: u64)
        ensures
            n == self.total_events_processed_spec(),
            self.wf() ==> n == self.total_assignments_spec(),
    {
        self.total_events_processed
    }

    /// Number of distinct couriers that received assignments (all-time).
    pub fn active_couriers(&self) -> (n: usize)
        requires
            self.wf(),
        ensures
            n == self.courier_counts().dom().len(),
            self.courier_counts().dom().finite(),
    {
        proof {
            lemma_counts_map_len(self.courier_assignment_counts@);
        }
        self.courier_assignment_counts.len()
    }

    /// Current window size.
    pub fn window_len(&self) -> (n: usize)
        ensures
            n == self.window_spec().len(),
    {
        self.window.len()
    }

    /// Average assignment latency in ms over the window at time `now_ms`.
    pub fn avg_latency_ms_at(&mut self, now_ms: i64) -> (avg: Ratio)
        requires
            old(self).wf(),
        ensures
            final(self).wf(),
            final(self).evicted_from(*old(self), now_ms as int),
            avg == avg_latency_spec(final(self).window_spec()),
    {
        self.evict_expired(now_ms);
        let n = self.window.len();
        if n == 0 {
            return Ratio { numerator: 0, denominator: 1 };
        }
        let ghost w = self.window@;
        let mut sum: i128 = 0;
        let mut i: usize = 0;
        while i < n
            invariant
                n == w.len(),
                w == self.window@,
                i <= n,
                sum == latency_sum(w.take(i as int)),
                -(i as int) * 0x8000_0000_0000_0000 <= sum <= (i as int) * 0x7fff_ffff_ffff_ffff,
            decreases n - i,
        {
            proof {
                lemma_latency_sum_take(w, i as int);
            }
            sum = sum + self.window[i].latency_ms as i128;
            i += 1;
        }
        proof {
            assert(w.take(n as int) =~= w);
        }
        Ratio { numerator: sum, denominator: n as u128 }
    }

    /// Latency percentile over the window at time `now_ms`;
    /// `pct_basis_points` is the percentile in hundredths of a percent.
    ///
    /// The rank is computed exactly, as `pct * n - 1` rounded down and
    /// clamped to the window. A rank computed in 64-bit floating point can
    /// come out one lower where the float product rounds just below an
    /// integer (the 29th percentile of 100 latencies: rank 28 here, 27 in
    /// floating point); a caller that needs the float rank computes it and
    /// calls `latency_at_rank_at`.
    pub fn latency_percentile_at(&mut self, now_ms: i64, pct_basis_points: u32) -> (p: i64)
        requires
            old(self).wf(),
        ensures
            final(self).wf(),
            final(self).evicted_from(*old(self), now_ms as int),
            p == latency_percentile_spec(final(self).window_spec(), pct_basis_points as int),
    {
        self.evict_expired(now_ms);
        let n = self.window.len();
        if n == 0 {
            return 0;
        }
        let latencies = self.sorted_window_latencies();
        proof {
            assert(pct_basis_points as int * n as int <= 0xffff_ffff * 0xffff_ffff_ffff_ffff)
                by (nonlinear_arith)
                requires
                    pct_basis_points <= 0xffff_ffff,
                    n <= 0xffff_ffff_ffff_ffff,
            ;
        }
        let t: u128 = (pct_basis_points as u128 * n as u128) / 10000;
        let idx: usize = if t == 0 {
            0
        } else if t - 1 > (n - 1) as u128 {
            n - 1
        } else {
            (t - 1) as usize
        };
        latencies[idx]
    }

    /// The latency of the given rank (0 for the lowest) among the window's
    /// latencies at time `now_ms`; a rank past the end gives the highest
    /// latency, and an empty window gives 0.
    pub fn latency_at_rank_at(&mut self, now_ms: i64, rank: usize) -> (p: i64)
        requires
            old(self).wf(),
        ensures
            final(self).wf(),
            final(self).evicted_from(*old(self), now_ms as int),
            p == latency_at_rank_spec(final(self).window_spec(), rank as int),
    {
        self.evict_expired(now_ms);
        let n = self.window.len();
        if n == 0 {
            return 0;
        }
        let latencies = self.sorted_window_latencies();
        let idx: usize = if rank < n {
            rank
        } else {
            n - 1
        };
        latencies[idx]
    }

    /// The latencies of the window in ascending order.
    fn sorted_window_latencies(&self) -> (v: Vec<i64>)
        ensures
            v@ == sorted_latencies(self.window_spec()),
            v.len() == self.window_spec().len(),
    {
        let n = self.window.len();
        let ghost w = self.window@;
        let ghost lat = w.map_values(|r: AssignmentRecord| r.latency_ms);
        let mut latencies: Vec<i64> = Vec::new();
        let mut i: usize = 0;
        while i < n
            invariant
                n == w.len(),
                w == self.window@,
                lat == w.map_values(|r: AssignmentRecord| r.latency_ms),
                i <= n,
                latencies@ == lat.take(i as int),
            decreases n - i,
        {
            latencies.push(self.window[i].latency_ms);
            proof {
                assert(lat.take(i + 1) =~= lat.take(i as int).push(lat[i as int]));
            }
            i += 1;
        }
        proof {
            assert(lat.take(n as int) =~= lat);
        }
        sort_ascending(&mut latencies);
        proof {
            let leq = |a: i64, b: i64| a <= b;
            lemma_i64_order_total();
            lat.lemma_sort_by_ensures(leq);
            vstd::seq_lib::lemma_sorted_unique(latencies@, lat.sort_by(leq), leq);
            latencies@.to_multiset_ensures();
            lat.to_multiset_ensures();
        }
        latencies
    }

    /// The scores in the window at time `now_ms`, oldest first.
    pub fn window_scores_at(&mut self, now_ms: i64) -> (scores: Vec<FloatBits>)
        requires
            old(self).wf(),
        ensures
            final(self).wf(),
            final(self).evicted_from(*old(self), now_ms as int),
            scores@ == final(self).window_spec().map_values(|r: AssignmentRecord| r.score),
    {
        self.evict_expired(now_ms);
        let n = self.window.len();
        let ghost w = self.window@;
        let mut scores: Vec<FloatBits> = Vec::new();
        let mut i: usize = 0;
        while i < n
            invariant
                n == w.len(),
                w == self.window@,
                i <= n,
                scores@ == w.map_values(|r: AssignmentRecord| r.score).take(i as int),
            decreases n - i,
        {
            scores.push(self.window[i].score);
            proof {
                let s = w.map_values(|r: AssignmentRecord| r.score);
                assert(s.take(i + 1) =~= s.take(i as int).push(s[i as int]));
            }
            i += 1;
        }
        proof {
            let s = w.map_values(|r: AssignmentRecord| r.score);
            assert(s.take(n as int) =~= s);
        }
        scores
    }

    /// Courier utilization at time `now_ms`: the percentage of
    /// `total_couriers` with an assignment in the window.
    pub fn courier_utilization_pct_at(&mut self, now_ms: i64, total_couriers: usize) -> (u: Ratio)
        requires
            old(self).wf(),
        ensures
            final(self).wf(),
            final(self).evicted_from(*old(self), now_ms as int),
            u == utilization_spec(final(self).window_spec(), total_couriers as int),
    {
        self.evict_expired(now_ms);
        if total_couriers == 0 {
            return Ratio { numerator: 0, denominator: 1 };
        }
        let n = self.window.len();
        let ghost w = self.window@;
        let ghost ids = w.map_values(|r: AssignmentRecord| r.courier_id@);
        let mut seen: Vec<String> = Vec::new();
        let mut i: usize = 0;
        while i < n
            invariant
                n == w.len(),
                w == self.window@,
                ids == w.map_values(|r: AssignmentRecord| r.courier_id@),
                i <= n,
                seen@.map_values(|s: String| s@).no_duplicates(),
                seen@.map_values(|s: String| s@).to_set() == ids.take(i as int).to_set(),
                seen.len() <= i,
            decreases n - i,
        {
            let id = &self.window[i].courier_id;
            let ghost sv = seen@.map_values(|s: String| s@);
            let present = contains_name(&seen, id);
            proof {
                assert(ids.take(i + 1) =~= ids.take(i as int).push(ids[i as int]));
                ids.take(i as int).lemma_push_to_set_commute(ids[i as int]);
                assert(ids[i as int] == id@);
                if present {
                    assert(sv.contains(id@));
                    assert(sv.to_set().contains(id@));
                    assert(ids.take(i + 1).to_set() =~= ids.take(i as int).to_set());
                }
            }
            if !present {
                seen.push(id.clone());
                proof {
                    assert(seen@.map_values(|s: String| s@) =~= sv.push(id@));
                    sv.lemma_push_to_set_commute(id@);
                    assert(!sv.contains(id@));
                }
            }
            i += 1;
        }
        proof {
            assert(ids.take(n as int) =~= ids);
            seen@.map_values(|s: String| s@).unique_seq_to_set();
        }
        let active = seen.len();
        Ratio { numerator: 100 * active as i128, denominator: total_couriers as u128 }
    }

    /// Average assignment latency in ms over the current window.
    pub fn avg_latency_ms(&mut self) -> (avg: Ratio)
        requires
            old(self).wf(),
        ensures
            final(self).wf(),
            exists|now_ms: i64|
                final(self).evicted_from(*old(self), now_ms as int) && avg == avg_latency_spec(
                    final(self).window_spec(),
                ),
    {
        let now_ms = now_millis();
        self.avg_latency_ms_at(now_ms)
    }

    /// Latency percentile over the current window (`pct_basis_points` in
    /// hundredths of a percent), with the exact rank of
    /// `latency_percentile_at`.
    pub fn latency_percentile(&mut self, pct_basis_points: u32) -> (p: i64)
        requires
            old(self).wf(),
        ensures
            final(self).wf(),
            exists|now_ms: i64|
                final(self).evicted_from(*old(self), now_ms as int) && p == latency_percentile_spec(
                    final(self).window_spec(),
                    pct_basis_points as int,
                ),
    {
        let now_ms = now_millis();
        self.latency_percentile_at(now_ms, pct_basis_points)
    }

    /// The scores in the current window, oldest first.
    pub fn window_scores(&mut self) -> (scores: Vec<FloatBits>)
        requires
            old(self).wf(),
        ensures
            final(self).wf(),
            exists|now_ms: i64|
                final(self).evicted_from(*old(self), now_ms as int)
                    && scores@ == final(self).window_spec().map_values(
                    |r: AssignmentRecord| r.score,
                ),
    {
        let now_ms = now_millis();
        self.window_scores_at(now_ms)
    }

    /// Courier utilization over the current window, as a percentage of
    /// `total_couriers`.
    pub fn courier_utilization_pct(&mut self, total_couriers: usize) -> (u: Ratio)
        requires
            old(self).wf(),
        ensures
            final(self).wf(),
            exists|now_ms: i64|
                final(self).evicted_from(*old(self), now_ms as int) && u == utilization_spec(
                    final(self).window_spec(),
                    total_couriers as int,
                ),
    {
        let now_ms = now_millis();
        self.courier_utilization_pct_at(now_ms, total_couriers)
    }
}

} // verus!

verus! {

/// A percentile of a non-empty window is one of the latencies in the window,
/// and a higher percentile is never below a lower one (p50 <= p95 <= p99).
/// The rank that a percentile selects among `n` sorted values, for a
/// percentile `p` in hundredths of a percent: the largest rank `r` with
/// `(r + 1) / n` at most `p` (so `r + 1 <= p * n / 10000` exactly), held
/// within the values, and the lowest rank when `p * n` is under one whole
/// value.
pub proof fn lemma_percentile_rank_is_exact(n: int, p: int)
    requires
        n >= 1,
        p >= 0,
    ensures
        0 <= percentile_index(n, p) < n,
        p * n < 10000 ==> percentile_index(n, p) == 0,
        p * n >= 10000 ==> (percentile_index(n, p) + 1) * 10000 <= p * n,
        p * n >= 10000 && percentile_index(n, p) < n - 1 ==> p * n < (percentile_index(n, p) + 2)
            * 10000,
{
    let q = p * n;
    let t = q / 10000;
    let r = percentile_index(n, p);
    assert(q >= 0) by (nonlinear_arith)
        requires
            p >= 0,
            n >= 1,
            q == p * n,
    ;
    vstd::arithmetic::div_mod::lemma_fundamental_div_mod(q, 10000);
    assert(t * 10000 <= q < (t + 1) * 10000);
    if q >= 10000 {
        assert(t >= 1);
        if t - 1 > n - 1 {
            assert(r == n - 1);
            assert((r + 1) * 10000 <= t * 10000) by (nonlinear_arith)
                requires
                    r + 1 <= t,
            ;
        } else {
            assert(r == t - 1);
        }
    } else {
        assert(t == 0);
    }
}

pub proof fn lemma_percentile_is_window_latency_and_monotone(
    w: Seq<AssignmentRecord>,
    pct_low: int,
    pct_high: int,
)
    requires
        w.len() > 0,
        0 <= pct_low <= pct_high,
    ensures
        w.map_values(|r: AssignmentRecord| r.latency_ms).contains(
            latency_percentile_spec(w, pct_low),
        ),
        latency_percentile_spec(w, pct_low) <= latency_percentile_spec(w, pct_high),
{
    let leq = |a: i64, b: i64| a <= b;
    let lat = w.map_values(|r: AssignmentRecord| r.latency_ms);
    let n = w.len() as int;
    lemma_i64_order_total();
    lat.lemma_sort_by_ensures(leq);
    let sorted = lat.sort_by(leq);
    lat.to_multiset_ensures();
    sorted.to_multiset_ensures();
    let i = percentile_index(n, pct_low);
    let j = percentile_index(n, pct_high);
    vstd::arithmetic::mul::lemma_mul_inequality(pct_low, pct_high, n);
    vstd::arithmetic::div_mod::lemma_div_is_ordered(pct_low * n, pct_high * n, 10000);
    assert(0 <= i <= j < n);
    assert(sorted.contains(sorted[i]));
    assert(leq(sorted[i], sorted[j]));
}

} // verus!

verus! {

/// The records of a window are in time order.
pub open spec fn in_time_order(w: Seq<AssignmentRecord>) -> bool {
    forall|i: int, j: int|
        0 <= i <= j < w.len() ==> (#[trigger] w[i]).recorded_at_ms <= (#[trigger] w[j]).recorded_at_ms
}

/// With a clock that does not run backwards the window stays in time order:
/// recording at a time no earlier than the newest record, and evicting, keeps
/// the records in time order (so eviction keeps exactly the recent ones, by
/// `lemma_eviction_keeps_exactly_recent_records`).
pub proof fn lemma_recording_keeps_time_order(
    w: Seq<AssignmentRecord>,
    r: AssignmentRecord,
    cutoff: int,
)
    requires
        in_time_order(w),
        w.len() > 0 ==> w.last().recorded_at_ms <= r.recorded_at_ms,
    ensures
        in_time_order(w.push(r)),
        in_time_order(evict_spec(w.push(r), cutoff)),
{
    let p = w.push(r);
    assert forall|i: int, j: int| 0 <= i <= j < p.len() implies (#[trigger] p[i]).recorded_at_ms
        <= (#[trigger] p[j]).recorded_at_ms by {
        if j == p.len() - 1 && i < j {
            assert(w[i].recorded_at_ms <= w[w.len() - 1].recorded_at_ms);
        }
    }
    lemma_evict_drops_expired_prefix(p, cutoff);
    let k = choose|k: int|
        0 <= k <= p.len() && evict_spec(p, cutoff) == p.skip(k) && (forall|i: int|
            0 <= i < k ==> (#[trigger] p[i]).recorded_at_ms < cutoff);
    let e = evict_spec(p, cutoff);
    assert forall|i: int, j: int| 0 <= i <= j < e.len() implies (#[trigger] e[i]).recorded_at_ms
        <= (#[trigger] e[j]).recorded_at_ms by {
        assert(e[i] == p[k + i]);
        assert(e[j] == p[k + j]);
    }
}

} // verus!
