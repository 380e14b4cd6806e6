//! Picks the next calendar event to report, from a list of provider events,
//! a local cache with a time to live, and the user's configuration.
//!
//! Times are whole seconds since the Unix epoch (UTC) throughout.

pub mod event;
pub mod selector;
pub mod clock;
pub mod cache;
pub mod calendar;
pub mod config;
pub mod authenticate;
