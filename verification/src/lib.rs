//! Verified core of a delivery-dispatch system: batch assignment planning,
//! the courier movement state machine, order priority sampling,
//! sliding-window assignment metrics and the monitor's state transitions.

pub mod aggregator;
mod clock;
pub mod collector;
pub mod dispatch;
pub mod models;
pub mod orders;
pub mod simulation;
pub mod text;
pub mod tui;
