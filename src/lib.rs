//! Host metrics sampling and state engine: snapshots built from raw counter
//! readings, rate computation over successive cumulative counters, a bounded
//! newest-first history, and retention rules for the on-disk mirror.
//!
//! Fractional quantities are held in fixed point: percentages in thousandths
//! of a percent (`milli_pct`), transfer rates in thousandths of a kilobit per
//! second (`milli_kbps`).

pub mod units;
pub mod snapshot;
pub mod ranking;
pub mod sampler;
pub mod gpu;
pub mod decimal;
pub mod config;
pub mod state;
pub mod storage;
pub mod ui;
pub mod auth;
pub mod api;
pub mod scheduler;
