//! The tick: which jobs are due, what one pass of a job does, and what is
//! reported of it.

pub mod due;
pub mod files;
pub mod item;
pub mod jobs;
pub mod report;
pub mod run;
pub mod run_laws;
pub mod tick;
