//! The event collector's handling of one assignment event: latency, the
//! metric window, and the count of couriers seen so far.

use vstd::prelude::*;

use crate::aggregator::Aggregator;
use crate::models::FloatBits;
use crate::text::str_eq;

verus! {

/// The set of courier ids seen so far, each kept once.
pub struct KnownCouriers {
    names: Vec<String>,
}

impl KnownCouriers {
    /// Well-formedness: no id is kept twice.
    pub closed spec fn wf(self) -> bool {
        self.names@.map_values(|s: String| s@).no_duplicates()
    }

    /// The ids seen so far.
    pub closed spec fn view(self) -> Set<Seq<char>> {
        self.names@.map_values(|s: String| s@).to_set()
    }

    /// No courier seen yet.
    pub fn new() -> (k: KnownCouriers)
        ensures
            k.wf(),
            k@ == Set::<Seq<char>>::empty(),
            k@.finite(),
    {
        let k = KnownCouriers { names: Vec::new() };
        proof {
            assert(k.names@.map_values(|s: String| s@) =~= Seq::<Seq<char>>::empty());
            assert(k@ =~= Set::<Seq<char>>::empty());
        }
        k
    }

    /// Adds a courier id; returns whether it was new.
    pub fn insert(&mut self, id: String) -> (added: bool)
        requires
            old(self).wf(),
        ensures
            final(self).wf(),
            added == !old(self)@.contains(id@),
            final(self)@ == old(self)@.insert(id@),
            final(self)@.finite(),
            final(self)@.len() == old(self)@.len() + (if added {
                1int
            } else {
                0int
            }),
    {
        proof {
            vstd::seq_lib::seq_to_set_is_finite(self.names@.map_values(|s: String| s@));
        }
        let ghost v = self.names@.map_values(|s: String| s@);
        let mut i: usize = 0;
        while i < self.names.len()
            invariant
                i <= self.names.len(),
                self.names@ == old(self).names@,
                old(self).wf(),
                v == self.names@.map_values(|s: String| s@),
                forall|k: int| 0 <= k < i ==> v[k] != id@,
            decreases self.names.len() - i,
        {
            if self.names[i] == id {
                proof {
                    assert(v[i as int] == id@);
                    assert(v.contains(id@));
                    assert(v.to_set().insert(id@) =~= v.to_set());
                }
                return false;
            }
            i += 1;
        }
        let ghost idv = id@;
        self.names.push(id);
        proof {
            assert(self.names@.map_values(|s: String| s@) =~= v.push(idv));
            v.lemma_push_to_set_commute(idv);
            assert(!v.contains(idv));
        }
        true
    }

    /// A well-formed set of known couriers is finite.
    pub proof fn lemma_view_finite(self)
        requires
            self.wf(),
        ensures
            self@.finite(),
    {
        vstd::seq_lib::seq_to_set_is_finite(self.names@.map_values(|s: String| s@));
    }

    /// How many distinct courier ids have been seen.
    pub fn len(&self) -> (n: usize)
        requires
            self.wf(),
        ensures
            n == self@.len(),
            self@.finite(),
    {
        proof {
            self.lemma_view_finite();
        }
        proof {
            self.names@.map_values(|s: String| s@).unique_seq_to_set();
        }
        self.names.len()
    }
}

/// What the metrics HTTP endpoint serves for a request path.
#[derive(Debug, Clone, Copy, PartialEq, Eq, Structural)]
pub enum MetricsRoute {
    /// `/metrics`: the metrics in Prometheus text format.
    Metrics,
    /// `/health`: a liveness answer.
    Health,
    /// Any other path: not found.
    NotFound,
}

/// The route for a request path.
pub open spec fn route_spec(path: Seq<char>) -> MetricsRoute {
    if path == "/metrics"@ {
        MetricsRoute::Metrics
    } else if path == "/health"@ {
        MetricsRoute::Health
    } else {
        MetricsRoute::NotFound
    }
}

/// Chooses what to serve for a request path.
pub fn route_for_path(path: &str) -> (r: MetricsRoute)
    ensures
        r == route_spec(path@),
{
    if str_eq(path, "/metrics") {
        MetricsRoute::Metrics
    } else if str_eq(path, "/health") {
        MetricsRoute::Health
    } else {
        MetricsRoute::NotFound
    }
}

/// Records one assignment event in the collector: the latency from order
/// creation to assignment is recorded in the aggregator with the score, and
/// the courier joins the known couriers. Returns the latency and, when the
/// courier was new, the new number of known couriers.
pub fn ingest_assignment(
    aggregator: &mut Aggregator,
    known: &mut KnownCouriers,
    courier_id: String,
    score: FloatBits,
    assigned_at_ms: i64,
    order_created_at_ms: i64,
) -> (r: (i64, Option<usize>))
    requires
        old(aggregator).wf(),
        old(known).wf(),
        old(aggregator).total_assignments_spec() < u64::MAX,
        i64::MIN <= assigned_at_ms - order_created_at_ms <= i64::MAX,
    ensures
        r.0 == assigned_at_ms - order_created_at_ms,
        final(aggregator).wf(),
        exists|now_ms: i64|
            final(aggregator).recorded_from(*old(aggregator), courier_id@, score, r.0, now_ms),
        final(known).wf(),
        final(known)@ == old(known)@.insert(courier_id@),
        r.1 == (if old(known)@.contains(courier_id@) {
            None::<usize>
        } else {
            Some(final(known)@.len() as usize)
        }),
        !old(known)@.contains(courier_id@) ==> final(known)@.len() == old(known)@.len() + 1,
        old(known)@.contains(courier_id@) ==> final(known)@.len() == old(known)@.len(),
        final(known)@.finite(),
        final(aggregator).courier_counts().dom().len() == old(aggregator).courier_counts().dom().len()
            + (if old(aggregator).courier_counts().contains_key(courier_id@) {
            0int
        } else {
            1int
        }),
{
    let latency_ms = assigned_at_ms - order_created_at_ms;
    let id_for_known = courier_id.clone();
    aggregator.record_assignment(courier_id, score, latency_ms);
    let added = known.insert(id_for_known);
    if added {
        (latency_ms, Some(known.len()))
    } else {
        (latency_ms, None)
    }
}

} // verus!
