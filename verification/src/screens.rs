//! Screens that games can use as they are.

pub mod event_log;
