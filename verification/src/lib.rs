//! A minimal cooperative scheduler: a fixed set of periodic tasks, each with
//! its own interval, driven by a single polling loop at a fixed tick
//! granularity. Time is injected as a millisecond count, so every scheduling
//! decision is deterministic and fully specified; the caller supplies the
//! clock and the sleep between ticks.

pub mod laws;
pub mod scheduler;
pub mod task;
