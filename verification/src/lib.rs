//! Container resource dashboard: the logic behind a terminal view of
//! per-container CPU and memory use.
//!
//! The crate turns raw runtime counters into display metrics, keeps the list
//! of monitored containers and the selection in it, lays out the screen, and
//! decides what the polling loop does next. Terminal and runtime I/O are left
//! to the caller.

pub mod app;
pub mod collector;
pub mod container;
pub mod double;
pub mod event_loop;
pub mod layout;
pub mod metrics;
pub mod monotone;
pub mod rounding;
pub mod text;
pub mod view;
