//! Worker protocol of a distributed task scheduler: the identifiers and
//! messages exchanged between the scheduler and its workers, the task
//! lifecycle on both sides (including the work-stealing race), and the
//! compact range syntax used to describe array jobs.
pub mod arraydef;
pub mod arrayparser;
pub mod messages;
pub mod worker;
pub mod scheduler;
