//! The terminal dashboard's state: screens and key bindings, watched channels
//! and their message buffers, error and user lists, and statistics periods.

pub mod app;
pub mod event;
pub mod state;
pub mod ui;
