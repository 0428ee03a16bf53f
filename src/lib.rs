//! A terminal dashboard core that tracks whether configured endpoints are reachable:
//! row selection, the per-endpoint probe decisions, poll rounds and their cadence.
pub mod dashboard;
pub mod monitor;
pub mod probe;
pub mod round;
pub mod schedule;
pub mod selection;
