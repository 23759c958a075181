//! Turns parsed calendar events into a filtered, sorted, time-summed report:
//! timestamp normalization, start/end extraction, per-event summaries,
//! month/year filtering, a stable day-of-month sort, and duration totals.

pub mod args;
pub mod config;
pub mod duration;
pub mod report;
pub mod summary;
pub mod text;
pub mod timestamp;
