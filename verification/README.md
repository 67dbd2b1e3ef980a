# router_flow

A delivery-dispatch system: a city simulator moves couriers, an order
generator creates orders, an assignment optimizer gives orders to couriers in
batches, an event collector keeps sliding-window metrics, and a terminal
monitor shows it all.

* `src/` is the library, verified with Verus:
  * `dispatch` — courier snapshots, pending orders and the batch assignment
    plan (best-scoring eligible courier per order, no courier twice);
  * `aggregator` — the sliding window of assignment records, totals,
    average and percentile latency, utilization;
  * `collector` — ingesting one assignment event, known couriers, metric
    routes;
  * `simulation` — the courier movement state machine and courier
    assignment;
  * `orders` — generation patterns and priority draws;
  * `tui` — the monitor's state, event log and key handling;
  * `models`, `text`, `clock` — shared types, string helpers, the clock.
  Float values (positions, ratings, scores) are carried as their IEEE-754
  bit patterns; float arithmetic stays outside the library.
* `app/` runs all services in one process, connected by channels: float
  scoring and geometry, random positions, configuration, the HTTP metrics
  endpoint and the terminal UI.
* `tests/` exercises the library.
