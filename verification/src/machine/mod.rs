//! A machine of the flock and the tasks on it: the rules its actor follows
//! while it talks to herdr and keeps the tasks' rows.

pub mod calls;
pub mod chores;
pub mod close;
pub mod close_text;
pub mod command;
pub mod finish;
pub mod life;
pub mod memory;
pub mod observe;
pub mod occupant;
pub mod poll;
pub mod prompt;
pub mod reconcile;
pub mod rows;
pub mod send;
pub mod sending;
pub mod settle;
pub mod status;
pub mod sweep;
