//! Plugins: a directory with `pastor-plugin.toml` and commands, providing a
//! connector, event hooks, or both.

pub mod catalog;
pub mod exec;
pub mod file;
pub mod install;
pub mod list;
pub mod manifest;
pub mod sources;
pub mod stamp;
pub mod version;
