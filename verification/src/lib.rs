//! Verified core of a multi-persona Discord bot: text helpers, persona prompts,
//! council and debate discussion state, plugin configuration and execution
//! rules, job bookkeeping, rate limiting and the terminal dashboard's state.

pub mod text;
pub mod keyed;
pub mod shared_map;
pub mod format;
pub mod plugins;
pub mod personas;
pub mod council;
pub mod debate;
pub mod discussion;
pub mod rate_limiter;
pub mod ipc;
pub mod startup;
pub mod analytics;
pub mod audio;
pub mod tui;
