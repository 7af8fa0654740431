//! State kept by the dashboard's screens.

pub mod channels;
pub mod errors;
pub mod stats_cache;
pub mod users;
