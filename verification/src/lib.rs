//! The logic of pastor: when jobs are due, what a run of one does, how a
//! machine's tasks follow their agents, and what a plugin manifest may say.
//! Everything here is pure; reading files, talking to machines and keeping
//! rows is left to the program around it.

pub mod calendar;
pub mod cli;
pub mod digits;
pub mod document;
pub mod json;
pub mod machine;
pub mod plugin;
pub mod quoting;
pub mod schedule;
pub mod scheduler;
pub mod setup;
pub mod task;
pub mod text;
pub mod time;
pub mod zone;
