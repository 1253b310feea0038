//! Verified decision logic of a user interface toolkit.

pub mod event_loop;
pub mod fmt;
pub mod platform;
pub mod software;
