//! The event loop: what is done about the events of the windowing system.
//!
//! The parts that decide are here. What only the windowing system, the windows or the application
//! can do is asked for as an action, and the answer to it is handed back as a reply.

pub mod course;
pub mod keys;
pub mod laws;
pub mod lifecycle;
pub mod menu;
pub mod running;
pub mod script;
pub mod state;
pub mod types;
pub mod user_event;
pub mod window_event;
pub mod windows;
