//! Lifecycle orchestration core for request-serving network processes.
//!
//! The crate models and verifies the control logic of a graceful server
//! lifecycle: per-request accounting, an idempotent cancellation latch,
//! a phased shutdown orchestrator, a LIFO registry of shutdown hooks,
//! and two durable telemetry actors (tool-call history and usage
//! statistics) with bounded in-memory retention and size-based log
//! rotation. All I/O, timers and task plumbing live outside the crate;
//! callers feed observed events in and carry the returned decisions out.

pub mod clock;
pub mod config;
pub mod counter;
pub mod encode;
pub mod handle;
pub mod history;
pub mod jsontext;
pub mod managers;
pub mod memory;
pub mod orchestrator;
pub mod signal;
pub mod table;
pub mod usage;

pub use counter::ActiveRequestCounter;
pub use handle::ShutdownError;
pub use history::{ToolCallRecord, ToolHistory};
pub use managers::{Managers, ShutdownHook};
pub use signal::CancellationSignal;
pub use usage::{UsageStats, UsageTracker};
