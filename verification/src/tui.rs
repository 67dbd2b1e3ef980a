//! State of the terminal monitor: the panels' statistics, the bounded event
//! log, keyboard focus, and how stream events and key presses change them.

use vstd::prelude::*;
use std::collections::VecDeque;

use crate::clock::now_millis;
use crate::models::FloatBits;
use crate::text::{short_id, short_id_defined, short_id_spec};

verus! {

/// Maximum number of log entries kept in the monitor.
pub const MAX_LOG_ENTRIES: usize = 500;

/// Which service produced a log entry.
#[derive(Debug, Clone, Copy, PartialEq, Eq, Structural)]
pub enum LogSource {
    CitySim,
    OrderGen,
    Optimizer,
    Collector,
    System,
}

/// The label shown for a log source.
pub open spec fn source_label_spec(s: LogSource) -> Seq<char> {
    match s {
        LogSource::CitySim => "city-sim"@,
        LogSource::OrderGen => "order-gen"@,
        LogSource::Optimizer => "optimizer"@,
        LogSource::Collector => "collector"@,
        LogSource::System => "system"@,
    }
}

impl LogSource {
    /// The label shown for this source in the log panel.
    pub fn label(&self) -> (s: &'static str)
        ensures
            s@ == source_label_spec(*self),
    {
        match self {
            LogSource::CitySim => "city-sim",
            LogSource::OrderGen => "order-gen",
            LogSource::Optimizer => "optimizer",
            LogSource::Collector => "collector",
            LogSource::System => "system",
        }
    }
}

/// A single entry in the unified event log.
#[derive(Debug, Clone)]
pub struct LogEntry {
    /// When the entry was logged (epoch milliseconds).
    pub timestamp_ms: i64,
    pub source: LogSource,
    pub message: String,
}

/// Stats from the City Simulator panel.
#[derive(Debug, Clone, Copy, PartialEq, Eq, Structural)]
pub struct CitySimStats {
    pub total_couriers: u32,
    pub idle_count: u32,
    pub en_route_count: u32,
    pub connected: bool,
}

/// Stats from the Order Generator panel.
#[derive(Debug, Clone)]
pub struct OrderGenStats {
    pub total_orders_seen: u64,
    pub last_order_summary: String,
    pub connected: bool,
}

/// Stats from the Assignment Optimizer panel.
#[derive(Debug, Clone)]
pub struct OptimizerStats {
    pub total_assignments: u64,
    pub last_assignment_summary: String,
    /// Bit pattern of the last assignment score.
    pub last_score: FloatBits,
    pub connected: bool,
}

/// Stats from the Event Collector panel; the latency, utilization and score
/// fields hold the bit patterns of the collector's values.
#[derive(Debug, Clone, Copy, PartialEq, Eq, Structural)]
pub struct CollectorStats {
    pub total_assignments: i64,
    pub total_events_processed: i64,
    pub avg_latency_ms: FloatBits,
    pub p95_latency_ms: FloatBits,
    pub courier_utilization_pct: FloatBits,
    pub avg_score: FloatBits,
    pub uptime_seconds: i64,
    pub connected: bool,
}

impl Default for CitySimStats {
    fn default() -> (s: Self)
        ensures
            s == (CitySimStats { total_couriers: 0, idle_count: 0, en_route_count: 0, connected: false }),
    {
        CitySimStats { total_couriers: 0, idle_count: 0, en_route_count: 0, connected: false }
    }
}

impl Default for OrderGenStats {
    fn default() -> (s: Self)
        ensures
            s.total_orders_seen == 0,
            s.last_order_summary@ == Seq::<char>::empty(),
            !s.connected,
    {
        OrderGenStats { total_orders_seen: 0, last_order_summary: String::new(), connected: false }
    }
}

impl Default for OptimizerStats {
    fn default() -> (s: Self)
        ensures
            s.total_assignments == 0,
            s.last_assignment_summary@ == Seq::<char>::empty(),
            s.last_score == 0,
            !s.connected,
    {
        OptimizerStats {
            total_assignments: 0,
            last_assignment_summary: String::new(),
            last_score: 0,
            connected: false,
        }
    }
}

impl Default for CollectorStats {
    fn default() -> (s: Self)
        ensures
            s == (CollectorStats {
                total_assignments: 0,
                total_events_processed: 0,
                avg_latency_ms: 0,
                p95_latency_ms: 0,
                courier_utilization_pct: 0,
                avg_score: 0,
                uptime_seconds: 0,
                connected: false,
            }),
    {
        CollectorStats {
            total_assignments: 0,
            total_events_processed: 0,
            avg_latency_ms: 0,
            p95_latency_ms: 0,
            courier_utilization_pct: 0,
            avg_score: 0,
            uptime_seconds: 0,
            connected: false,
        }
    }
}

/// Focused panel for keyboard navigation.
#[derive(Debug, Clone, Copy, PartialEq, Eq, Structural)]
pub enum FocusPanel {
    CitySim,
    OrderGen,
    Optimizer,
    Collector,
    Log,
}

impl FocusPanel {
    /// The panel that follows `p` in the Tab cycle.
    pub open spec fn spec_next(p: FocusPanel) -> FocusPanel {
        match p {
            FocusPanel::CitySim => FocusPanel::Optimizer,
            FocusPanel::Optimizer => FocusPanel::OrderGen,
            FocusPanel::OrderGen => FocusPanel::Collector,
            FocusPanel::Collector => FocusPanel::Log,
            FocusPanel::Log => FocusPanel::CitySim,
        }
    }

    /// The name of `p` in the status bar.
    pub open spec fn spec_title(p: FocusPanel) -> Seq<char> {
        match p {
            FocusPanel::CitySim => "City Sim"@,
            FocusPanel::OrderGen => "Order Gen"@,
            FocusPanel::Optimizer => "Optimizer"@,
            FocusPanel::Collector => "Collector"@,
            FocusPanel::Log => "Log"@,
        }
    }

    /// The panel that receives focus after this one.
    pub fn next(self) -> (r: FocusPanel)
        ensures
            r == Self::spec_next(self),
    {
        match self {
            FocusPanel::CitySim => FocusPanel::Optimizer,
            FocusPanel::Optimizer => FocusPanel::OrderGen,
            FocusPanel::OrderGen => FocusPanel::Collector,
            FocusPanel::Collector => FocusPanel::Log,
            FocusPanel::Log => FocusPanel::CitySim,
        }
    }

    /// The name of this panel in the status bar.
    pub fn title(self) -> (s: &'static str)
        ensures
            s@ == Self::spec_title(self),
    {
        match self {
            FocusPanel::CitySim => "City Sim",
            FocusPanel::OrderGen => "Order Gen",
            FocusPanel::Optimizer => "Optimizer",
            FocusPanel::Collector => "Collector",
            FocusPanel::Log => "Log",
        }
    }
}

/// The focus after `n` presses of Tab starting from `p`.
pub open spec fn focus_after(p: FocusPanel, n: nat) -> FocusPanel
    decreases n,
{
    if n == 0 {
        p
    } else {
        FocusPanel::spec_next(focus_after(p, (n - 1) as nat))
    }
}

/// Tab cycles through all five panels: five presses return to the start,
/// and every panel is reached from every other within four presses.
pub proof fn lemma_focus_cycle(p: FocusPanel, q: FocusPanel)
    ensures
        focus_after(p, 5) == p,
        exists|n: nat| n < 5 && focus_after(p, n) == q,
{
    reveal_with_fuel(focus_after, 6);
    let fs = seq![
        focus_after(p, 0),
        focus_after(p, 1),
        focus_after(p, 2),
        focus_after(p, 3),
        focus_after(p, 4),
    ];
    assert(fs.contains(q)) by {
        match p {
            FocusPanel::CitySim => {},
            FocusPanel::OrderGen => {},
            FocusPanel::Optimizer => {},
            FocusPanel::Collector => {},
            FocusPanel::Log => {},
        }
        match q {
            FocusPanel::CitySim => {},
            FocusPanel::OrderGen => {},
            FocusPanel::Optimizer => {},
            FocusPanel::Collector => {},
            FocusPanel::Log => {},
        }
    }
    let i = choose|i: int| 0 <= i < 5 && fs[i] == q;
    assert(focus_after(p, i as nat) == q);
}

/// The log after appending `e` and dropping the oldest entries beyond the
/// maximum.
pub open spec fn bounded_push(log: Seq<LogEntry>, e: LogEntry) -> Seq<LogEntry> {
    let s = log.push(e);
    if s.len() > MAX_LOG_ENTRIES {
        s.skip(s.len() - MAX_LOG_ENTRIES)
    } else {
        s
    }
}

/// `new_log` is `old_log` with an entry from `source` saying `message`
/// appended (at some time) and the oldest entries beyond the maximum dropped.
pub open spec fn logged(
    old_log: Seq<LogEntry>,
    new_log: Seq<LogEntry>,
    source: LogSource,
    message: Seq<char>,
) -> bool {
    exists|e: LogEntry|
        #![trigger bounded_push(old_log, e)]
        e.source == source && e.message@ == message && new_log == bounded_push(old_log, e)
}

/// All monitor state, changed by stream events and key presses and read by
/// the renderer.
pub struct TuiState {
    pub city_sim: CitySimStats,
    pub order_gen: OrderGenStats,
    pub optimizer: OptimizerStats,
    pub collector: CollectorStats,
    pub log_entries: VecDeque<LogEntry>,
    pub focus: FocusPanel,
    pub auto_scroll: bool,
    pub log_scroll_offset: u16,
}

/// Events funneled from the service streams into the monitor.
#[derive(Debug)]
pub enum TuiEvent {
    /// A batch of courier locations from City Simulator.
    LocationBatch { total: u32, idle: u32, en_route: u32 },
    /// City Simulator connection state changed.
    CitySimConnected(bool),
    /// A new order from Order Generator.
    NewOrder { order_id: String, priority: String },
    /// Order Generator connection state changed.
    OrderGenConnected(bool),
    /// An assignment from Assignment Optimizer; `score_text` is the score
    /// written with two decimals.
    Assignment { order_id: String, courier_id: String, score: FloatBits, score_text: String },
    /// Optimizer connection state changed.
    OptimizerConnected(bool),
    /// A collector event (human-readable summary).
    CollectorEvent { summary: String },
    /// Updated metrics from the Event Collector.
    CollectorMetrics {
        total_assignments: i64,
        total_events_processed: i64,
        avg_latency_ms: FloatBits,
        p95_latency_ms: FloatBits,
        courier_utilization_pct: FloatBits,
        avg_score: FloatBits,
        uptime_seconds: i64,
    },
    /// Collector connection state changed.
    CollectorConnected(bool),
}

/// The summary of a new order.
pub open spec fn order_summary(order_id: Seq<char>, priority: Seq<char>) -> Seq<char> {
    "order="@ + short_id_spec(order_id) + " priority="@ + priority
}

/// The summary of an assignment.
pub open spec fn assignment_summary(
    order_id: Seq<char>,
    courier_id: Seq<char>,
    score_text: Seq<char>,
) -> Seq<char> {
    "order="@ + short_id_spec(order_id) + " -> courier="@ + short_id_spec(courier_id) + " score="@
        + score_text
}

/// The log message for a connection change.
pub open spec fn connection_message(connected: bool, service: Seq<char>) -> Seq<char> {
    if connected {
        "connected to "@ + service
    } else {
        "disconnected from "@ + service
    }
}

/// The event can be applied: the counters it bumps are below their maximum
/// and its identifiers can be shortened.
pub open spec fn event_applicable(state: &TuiState, event: TuiEvent) -> bool {
    match event {
        TuiEvent::NewOrder { order_id, .. } => state.order_gen.total_orders_seen < u64::MAX
            && short_id_defined(order_id@),
        TuiEvent::Assignment { order_id, courier_id, .. } => state.optimizer.total_assignments
            < u64::MAX && short_id_defined(order_id@) && short_id_defined(courier_id@),
        _ => true,
    }
}

/// The panels and log of `new` are those of `old` after `event`; focus and
/// scrolling are unchanged.
pub open spec fn event_applied(old: &TuiState, new: &TuiState, event: TuiEvent) -> bool {
    &&& new.focus == old.focus
    &&& new.auto_scroll == old.auto_scroll
    &&& new.log_scroll_offset == old.log_scroll_offset
    &&& match event {
        TuiEvent::LocationBatch { total, idle, en_route } => {
            &&& new.city_sim == CitySimStats {
                total_couriers: total,
                idle_count: idle,
                en_route_count: en_route,
                ..old.city_sim
            }
            &&& new.order_gen == old.order_gen
            &&& new.optimizer == old.optimizer
            &&& new.collector == old.collector
            &&& new.log_entries@ == old.log_entries@
        },
        TuiEvent::CitySimConnected(c) => {
            &&& new.city_sim == CitySimStats { connected: c, ..old.city_sim }
            &&& new.order_gen == old.order_gen
            &&& new.optimizer == old.optimizer
            &&& new.collector == old.collector
            &&& logged(
                old.log_entries@,
                new.log_entries@,
                LogSource::CitySim,
                connection_message(c, "city simulator"@),
            )
        },
        TuiEvent::NewOrder { order_id, priority } => {
            let summary = order_summary(order_id@, priority@);
            &&& new.city_sim == old.city_sim
            &&& new.order_gen.total_orders_seen == old.order_gen.total_orders_seen + 1
            &&& new.order_gen.last_order_summary@ == summary
            &&& new.order_gen.connected == old.order_gen.connected
            &&& new.optimizer == old.optimizer
            &&& new.collector == old.collector
            &&& logged(old.log_entries@, new.log_entries@, LogSource::OrderGen, "created "@ + summary)
        },
        TuiEvent::OrderGenConnected(c) => {
            &&& new.city_sim == old.city_sim
            &&& new.order_gen.total_orders_seen == old.order_gen.total_orders_seen
            &&& new.order_gen.last_order_summary == old.order_gen.last_order_summary
            &&& new.order_gen.connected == c
            &&& new.optimizer == old.optimizer
            &&& new.collector == old.collector
            &&& logged(
                old.log_entries@,
                new.log_entries@,
                LogSource::OrderGen,
                connection_message(c, "order generator"@),
            )
        },
        TuiEvent::Assignment { order_id, courier_id, score, score_text } => {
            let summary = assignment_summary(order_id@, courier_id@, score_text@);
            &&& new.city_sim == old.city_sim
            &&& new.order_gen == old.order_gen
            &&& new.optimizer.total_assignments == old.optimizer.total_assignments + 1
            &&& new.optimizer.last_score == score
            &&& new.optimizer.last_assignment_summary@ == summary
            &&& new.optimizer.connected == old.optimizer.connected
            &&& new.collector == old.collector
            &&& logged(old.log_entries@, new.log_entries@, LogSource::Optimizer, "assigned "@ + summary)
        },
        TuiEvent::OptimizerConnected(c) => {
            &&& new.city_sim == old.city_sim
            &&& new.order_gen == old.order_gen
            &&& new.optimizer.total_assignments == old.optimizer.total_assignments
            &&& new.optimizer.last_score == old.optimizer.last_score
            &&& new.optimizer.last_assignment_summary == old.optimizer.last_assignment_summary
            &&& new.optimizer.connected == c
            &&& new.collector == old.collector
            &&& logged(
                old.log_entries@,
                new.log_entries@,
                LogSource::Optimizer,
                connection_message(c, "assignment optimizer"@),
            )
        },
        TuiEvent::CollectorEvent { summary } => {
            &&& new.city_sim == old.city_sim
            &&& new.order_gen == old.order_gen
            &&& new.optimizer == old.optimizer
            &&& new.collector == old.collector
            &&& logged(old.log_entries@, new.log_entries@, LogSource::Collector, summary@)
        },
        TuiEvent::CollectorMetrics {
            total_assignments,
            total_events_processed,
            avg_latency_ms,
            p95_latency_ms,
            courier_utilization_pct,
            avg_score,
            uptime_seconds,
        } => {
            &&& new.city_sim == old.city_sim
            &&& new.order_gen == old.order_gen
            &&& new.optimizer == old.optimizer
            &&& new.collector == CollectorStats {
                total_assignments,
                total_events_processed,
                avg_latency_ms,
                p95_latency_ms,
                courier_utilization_pct,
                avg_score,
                uptime_seconds,
                connected: old.collector.connected,
            }
            &&& new.log_entries@ == old.log_entries@
        },
        TuiEvent::CollectorConnected(c) => {
            &&& new.city_sim == old.city_sim
            &&& new.order_gen == old.order_gen
            &&& new.optimizer == old.optimizer
            &&& new.collector == CollectorStats { connected: c, ..old.collector }
            &&& logged(
                old.log_entries@,
                new.log_entries@,
                LogSource::Collector,
                connection_message(c, "event collector"@),
            )
        },
    }
}

/// Each stream event shows its own values in its own panel: the collector
/// panel takes every metric from a metrics event under the same name, the
/// city panel takes the three courier counts from a location batch, an
/// assignment sets the optimizer's last score and adds one assignment, a new
/// order adds one order, and a connection event sets its service's flag.
pub proof fn lemma_events_show_their_values(old: TuiState, new: TuiState, event: TuiEvent)
    requires
        event_applied(&old, &new, event),
    ensures
        event matches TuiEvent::CollectorMetrics {
            total_assignments,
            total_events_processed,
            avg_latency_ms,
            p95_latency_ms,
            courier_utilization_pct,
            avg_score,
            uptime_seconds,
        } ==> {
            &&& new.collector.total_assignments == total_assignments
            &&& new.collector.total_events_processed == total_events_processed
            &&& new.collector.avg_latency_ms == avg_latency_ms
            &&& new.collector.p95_latency_ms == p95_latency_ms
            &&& new.collector.courier_utilization_pct == courier_utilization_pct
            &&& new.collector.avg_score == avg_score
            &&& new.collector.uptime_seconds == uptime_seconds
            &&& new.collector.connected == old.collector.connected
            &&& new.city_sim == old.city_sim
            &&& new.order_gen == old.order_gen
            &&& new.optimizer == old.optimizer
            &&& new.log_entries@ == old.log_entries@
        },
        event matches TuiEvent::LocationBatch { total, idle, en_route } ==> {
            &&& new.city_sim.total_couriers == total
            &&& new.city_sim.idle_count == idle
            &&& new.city_sim.en_route_count == en_route
            &&& new.city_sim.connected == old.city_sim.connected
            &&& new.order_gen == old.order_gen
            &&& new.optimizer == old.optimizer
            &&& new.collector == old.collector
            &&& new.log_entries@ == old.log_entries@
        },
        event matches TuiEvent::Assignment { score, .. } ==> {
            &&& new.optimizer.last_score == score
            &&& new.optimizer.total_assignments == old.optimizer.total_assignments + 1
        },
        event is NewOrder ==> new.order_gen.total_orders_seen == old.order_gen.total_orders_seen + 1,
        event matches TuiEvent::CitySimConnected(c) ==> new.city_sim.connected == c,
        event matches TuiEvent::OrderGenConnected(c) ==> new.order_gen.connected == c,
        event matches TuiEvent::OptimizerConnected(c) ==> new.optimizer.connected == c,
        event matches TuiEvent::CollectorConnected(c) ==> new.collector.connected == c,
{
}

/// A key press, as the monitor reads it.
#[derive(Debug, Clone, Copy, PartialEq, Eq, Structural)]
pub enum KeyInput {
    Char(char),
    Tab,
    Up,
    Down,
    Other,
}

/// The state after a key press (`q` quits and changes nothing).
pub open spec fn key_applied(old: &TuiState, new: &TuiState, key: KeyInput) -> bool {
    &&& new.city_sim == old.city_sim
    &&& new.order_gen == old.order_gen
    &&& new.optimizer == old.optimizer
    &&& new.collector == old.collector
    &&& new.log_entries@ == old.log_entries@
    &&& new.focus == (if key == KeyInput::Tab {
        FocusPanel::spec_next(old.focus)
    } else {
        old.focus
    })
    &&& new.auto_scroll == (if key == KeyInput::Char('p') {
        !old.auto_scroll
    } else {
        old.auto_scroll
    })
    &&& new.log_scroll_offset == (if key == KeyInput::Up && !old.auto_scroll {
        if old.log_scroll_offset == u16::MAX {
            u16::MAX
        } else {
            (old.log_scroll_offset + 1) as u16
        }
    } else if key == KeyInput::Down && !old.auto_scroll {
        if old.log_scroll_offset == 0 {
            0
        } else {
            (old.log_scroll_offset - 1) as u16
        }
    } else {
        old.log_scroll_offset
    })
}

impl TuiState {
    /// Initial state: empty panels, empty log, focus on the log, following
    /// new entries.
    pub fn new() -> (s: TuiState)
        ensures
            s.city_sim == (CitySimStats {
                total_couriers: 0,
                idle_count: 0,
                en_route_count: 0,
                connected: false,
            }),
            s.order_gen.total_orders_seen == 0,
            s.order_gen.last_order_summary@ == Seq::<char>::empty(),
            !s.order_gen.connected,
            s.optimizer.total_assignments == 0,
            s.optimizer.last_assignment_summary@ == Seq::<char>::empty(),
            s.optimizer.last_score == 0,
            !s.optimizer.connected,
            s.collector == (CollectorStats {
                total_assignments: 0,
                total_events_processed: 0,
                avg_latency_ms: 0,
                p95_latency_ms: 0,
                courier_utilization_pct: 0,
                avg_score: 0,
                uptime_seconds: 0,
                connected: false,
            }),
            s.log_entries@.len() == 0,
            s.focus == FocusPanel::Log,
            s.auto_scroll,
            s.log_scroll_offset == 0,
    {
        TuiState {
            city_sim: CitySimStats::default(),
            order_gen: OrderGenStats::default(),
            optimizer: OptimizerStats::default(),
            collector: CollectorStats::default(),
            log_entries: VecDeque::new(),
            focus: FocusPanel::Log,
            auto_scroll: true,
            log_scroll_offset: 0,
        }
    }

    /// Appends a log entry stamped `timestamp_ms`, evicting the oldest
    /// entries if over capacity.
    pub fn push_log_at(&mut self, source: LogSource, message: String, timestamp_ms: i64)
        ensures
            final(self).log_entries@ == bounded_push(
                old(self).log_entries@,
                LogEntry { timestamp_ms, source, message },
            ),
            final(self).city_sim == old(self).city_sim,
            final(self).order_gen == old(self).order_gen,
            final(self).optimizer == old(self).optimizer,
            final(self).collector == old(self).collector,
            final(self).focus == old(self).focus,
            final(self).auto_scroll == old(self).auto_scroll,
            final(self).log_scroll_offset == old(self).log_scroll_offset,
    {
        let entry = LogEntry { timestamp_ms, source, message };
        let ghost s = old(self).log_entries@.push(entry);
        self.log_entries.push_back(entry);
        let ghost mut dropped: int = 0;
        while self.log_entries.len() > MAX_LOG_ENTRIES
            invariant
                0 <= dropped <= s.len(),
                self.log_entries@ == s.skip(dropped),
                dropped > 0 ==> s.len() - dropped >= MAX_LOG_ENTRIES,
                self.city_sim == old(self).city_sim,
                self.order_gen == old(self).order_gen,
                self.optimizer == old(self).optimizer,
                self.collector == old(self).collector,
                self.focus == old(self).focus,
                self.auto_scroll == old(self).auto_scroll,
                self.log_scroll_offset == old(self).log_scroll_offset,
            decreases self.log_entries@.len(),
        {
            self.log_entries.pop_front();
            proof {
                assert(s.skip(dropped + 1) =~= s.skip(dropped).drop_first());
                dropped = dropped + 1;
            }
        }
        proof {
            if dropped == 0 {
                assert(s.skip(0) =~= s);
            }
        }
    }

    /// Appends a log entry stamped with the current time, evicting the
    /// oldest entries if over capacity.
    pub fn push_log(&mut self, source: LogSource, message: String)
        ensures
            logged(old(self).log_entries@, final(self).log_entries@, source, message@),
            final(self).city_sim == old(self).city_sim,
            final(self).order_gen == old(self).order_gen,
            final(self).optimizer == old(self).optimizer,
            final(self).collector == old(self).collector,
            final(self).focus == old(self).focus,
            final(self).auto_scroll == old(self).auto_scroll,
            final(self).log_scroll_offset == old(self).log_scroll_offset,
    {
        let ghost m = message;
        let now = now_millis();
        self.push_log_at(source, message, now);
        proof {
            let e = LogEntry { timestamp_ms: now, source, message: m };
            assert(self.log_entries@ == bounded_push(old(self).log_entries@, e));
        }
    }

    /// Applies a key press; returns whether the monitor should quit.
    pub fn handle_key(&mut self, key: KeyInput) -> (quit: bool)
        ensures
            quit == (key == KeyInput::Char('q')),
            quit ==> final(self).focus == old(self).focus && final(self).auto_scroll == old(
                self,
            ).auto_scroll && final(self).log_scroll_offset == old(self).log_scroll_offset,
            key_applied(old(self), final(self), key),
    {
        match key {
            KeyInput::Char(c) => {
                if c == 'q' {
                    return true;
                } else if c == 'p' {
                    self.auto_scroll = !self.auto_scroll;
                }
            },
            KeyInput::Tab => {
                self.focus = self.focus.next();
            },
            KeyInput::Up => {
                if !self.auto_scroll {
                    self.log_scroll_offset = self.log_scroll_offset.saturating_add(1);
                }
            },
            KeyInput::Down => {
                if !self.auto_scroll {
                    self.log_scroll_offset = self.log_scroll_offset.saturating_sub(1);
                }
            },
            KeyInput::Other => {},
        }
        false
    }
}

fn concat(mut s: String, tail: &str) -> (r: String)
    ensures
        r@ == s@ + tail@,
{
    s.append(tail);
    s
}

fn connection_log(state: &mut TuiState, source: LogSource, connected: bool, service: &str)
    ensures
        logged(
            old(state).log_entries@,
            final(state).log_entries@,
            source,
            connection_message(connected, service@),
        ),
        final(state).city_sim == old(state).city_sim,
        final(state).order_gen == old(state).order_gen,
        final(state).optimizer == old(state).optimizer,
        final(state).collector == old(state).collector,
        final(state).focus == old(state).focus,
        final(state).auto_scroll == old(state).auto_scroll,
        final(state).log_scroll_offset == old(state).log_scroll_offset,
{
    let msg = if connected {
        concat(String::from_str("connected to "), service)
    } else {
        concat(String::from_str("disconnected from "), service)
    };
    state.push_log(source, msg);
}

/// Applies a stream event to the monitor state.
pub fn apply_event(state: &mut TuiState, event: TuiEvent)
    requires
        event_applicable(old(state), event),
    ensures
        event_applied(old(state), final(state), event),
{
    match event {
        TuiEvent::LocationBatch { total, idle, en_route } => {
            state.city_sim.total_couriers = total;
            state.city_sim.idle_count = idle;
            state.city_sim.en_route_count = en_route;
        },
        TuiEvent::CitySimConnected(connected) => {
            state.city_sim.connected = connected;
            connection_log(state, LogSource::CitySim, connected, "city simulator");
        },
        TuiEvent::NewOrder { order_id, priority } => {
            state.order_gen.total_orders_seen = state.order_gen.total_orders_seen + 1;
            let s = concat(String::from_str("order="), short_id(order_id.as_str()));
            let s = concat(s, " priority=");
            let summary = concat(s, priority.as_str());
            state.order_gen.last_order_summary = summary.clone();
            let msg = concat(String::from_str("created "), summary.as_str());
            state.push_log(LogSource::OrderGen, msg);
        },
        TuiEvent::OrderGenConnected(connected) => {
            state.order_gen.connected = connected;
            connection_log(state, LogSource::OrderGen, connected, "order generator");
        },
        TuiEvent::Assignment { order_id, courier_id, score, score_text } => {
            state.optimizer.total_assignments = state.optimizer.total_assignments + 1;
            state.optimizer.last_score = score;
            let s = concat(String::from_str("order="), short_id(order_id.as_str()));
            let s = concat(s, " -> courier=");
            let s = concat(s, short_id(courier_id.as_str()));
            let s = concat(s, " score=");
            let summary = concat(s, score_text.as_str());
            state.optimizer.last_assignment_summary = summary.clone();
            let msg = concat(String::from_str("assigned "), summary.as_str());
            state.push_log(LogSource::Optimizer, msg);
        },
        TuiEvent::OptimizerConnected(connected) => {
            state.optimizer.connected = connected;
            connection_log(state, LogSource::Optimizer, connected, "assignment optimizer");
        },
        TuiEvent::CollectorEvent { summary } => {
            state.push_log(LogSource::Collector, summary);
        },
        TuiEvent::CollectorMetrics {
            total_assignments,
            total_events_processed,
            avg_latency_ms,
            p95_latency_ms,
            courier_utilization_pct,
            avg_score,
            uptime_seconds,
        } => {
            state.collector.total_assignments = total_assignments;
            state.collector.total_events_processed = total_events_processed;
            state.collector.avg_latency_ms = avg_latency_ms;
            state.collector.p95_latency_ms = p95_latency_ms;
            state.collector.courier_utilization_pct = courier_utilization_pct;
            state.collector.avg_score = avg_score;
            state.collector.uptime_seconds = uptime_seconds;
        },
        TuiEvent::CollectorConnected(connected) => {
            state.collector.connected = connected;
            connection_log(state, LogSource::Collector, connected, "event collector");
        },
    }
}

/// Counts the couriers of a location batch by movement status: all of them,
/// the idle ones, and the others (en route).
pub open spec fn idle_count(statuses: Seq<Seq<char>>) -> nat
    decreases statuses.len(),
{
    if statuses.len() == 0 {
        0
    } else {
        idle_count(statuses.drop_last()) + if statuses.last() == "idle"@ {
            1nat
        } else {
            0nat
        }
    }
}

proof fn lemma_idle_count_bound(statuses: Seq<Seq<char>>)
    ensures
        idle_count(statuses) <= statuses.len(),
    decreases statuses.len(),
{
    if statuses.len() > 0 {
        lemma_idle_count_bound(statuses.drop_last());
    }
}

/// The monitor event for a batch of courier locations with the given
/// movement statuses.
pub fn location_batch_event(statuses: &Vec<String>) -> (e: TuiEvent)
    requires
        statuses.len() <= u32::MAX,
    ensures
        ({
            let v = statuses@.map_values(|s: String| s@);
            e == TuiEvent::LocationBatch {
                total: statuses.len() as u32,
                idle: idle_count(v) as u32,
                en_route: (statuses.len() - idle_count(v)) as u32,
            }
        }),
{
    let ghost v = statuses@.map_values(|s: String| s@);
    let idle_label = String::from_str("idle");
    let mut idle: u32 = 0;
    let mut i: usize = 0;
    while i < statuses.len()
        invariant
            i <= statuses.len(),
            statuses.len() <= u32::MAX,
            v == statuses@.map_values(|s: String| s@),
            idle_label@ == "idle"@,
            idle == idle_count(v.take(i as int)),
            idle <= i,
        decreases statuses.len() - i,
    {
        proof {
            assert(v.take(i + 1).drop_last() =~= v.take(i as int));
        }
        if statuses[i] == idle_label {
            idle = idle + 1;
        }
        i += 1;
    }
    proof {
        assert(v.take(statuses.len() as int) =~= v);
    }
    let total = statuses.len() as u32;
    TuiEvent::LocationBatch { total, idle, en_route: total - idle }
}

/// The range of log indices shown in a log panel `height` lines tall when
/// scrolled back by `scroll_offset` entries: the newest entries that fit,
/// oldest first.
pub open spec fn log_view_range_spec(len: int, scroll_offset: int, height: int) -> (int, int) {
    let end = if len > scroll_offset {
        len - scroll_offset
    } else {
        0
    };
    let start = if end > height {
        end - height
    } else {
        0
    };
    (start, end)
}

/// Which log entries the log panel shows, as a half-open index range.
pub fn log_view_range(len: usize, scroll_offset: u16, height: usize) -> (r: (usize, usize))
    ensures
        r.0 as int == log_view_range_spec(len as int, scroll_offset as int, height as int).0,
        r.1 as int == log_view_range_spec(len as int, scroll_offset as int, height as int).1,
        r.0 <= r.1 <= len,
        r.1 - r.0 <= height,
{
    let end = len.saturating_sub(scroll_offset as usize);
    let start = end.saturating_sub(height);
    (start, end)
}

} // verus!

verus! {

/// The log never holds more than `MAX_LOG_ENTRIES` entries: appending to a
/// log within the bound keeps it within the bound, puts the new entry last,
/// keeps every earlier entry when there was room, and otherwise drops
/// exactly the oldest one.
pub proof fn lemma_log_stays_bounded(log: Seq<LogEntry>, e: LogEntry)
    requires
        log.len() <= MAX_LOG_ENTRIES,
    ensures
        bounded_push(log, e).len() <= MAX_LOG_ENTRIES,
        bounded_push(log, e).last() == e,
        log.len() < MAX_LOG_ENTRIES ==> bounded_push(log, e) == log.push(e),
        log.len() == MAX_LOG_ENTRIES ==> bounded_push(log, e) == log.drop_first().push(e),
{
    if log.len() == MAX_LOG_ENTRIES {
        assert(log.push(e).skip(1) =~= log.drop_first().push(e));
    }
}

} // verus!
