//! The plugin system: configuration, command execution rules, jobs and output.

pub mod chunked;
pub mod commands;
pub mod chunker;
pub mod config;
pub mod executor;
pub mod job;
pub mod manager;
pub mod messages;
pub mod output;
pub mod runs;
pub mod youtube;
