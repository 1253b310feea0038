//! The state of the event loop.

use vstd::prelude::*;

use crate::event_loop::types::{LogicalPoint, ResizeDirection};
use crate::platform::PlatformError;

verus! {

/// What the program was built for.
#[derive(Clone, Copy, Debug, PartialEq, Eq, Structural)]
pub struct Target {
    /// A system of Apple, where command and control are the other way round.
    pub apple: bool,
    /// A web browser.
    pub web: bool,
    /// A system on which running the event loop never returns, such as iOS.
    pub ios: bool,
    /// With support for assistive technology.
    pub accessibility: bool,
}

/// The state of the event loop between two events.
#[derive(Debug)]
pub struct EventLoopState {
    pub target: Target,
    /// Whether the application has a handler of its own for the events.
    pub custom_application_handler: bool,
    /// The last seen position of the cursor.
    pub cursor_pos: LogicalPoint,
    /// Whether a button or a finger is down.
    pub pressed: bool,
    /// The finger that is followed.
    pub current_touch_id: Option<u64>,
    /// What went wrong in the loop.
    pub loop_error: Option<PlatformError>,
    /// The edge of the window that the cursor is on.
    pub current_resize_direction: Option<ResizeDirection>,
    /// Whether events are pumped for the shortest amount of time possible.
    pub pumping_events_instantly: bool,
}

impl EventLoopState {
    /// The state before the first event.
    pub open spec fn start(target: Target, custom_application_handler: bool) -> EventLoopState {
        EventLoopState {
            target,
            custom_application_handler,
            cursor_pos: LogicalPoint { x: 0, y: 0 },
            pressed: false,
            current_touch_id: None,
            loop_error: None,
            current_resize_direction: None,
            pumping_events_instantly: false,
        }
    }

    /// The state before the first event.
    pub fn new(target: Target, custom_application_handler: bool) -> (state: EventLoopState)
        ensures
            state == EventLoopState::start(target, custom_application_handler),
    {
        EventLoopState {
            target,
            custom_application_handler,
            cursor_pos: LogicalPoint { x: 0, y: 0 },
            pressed: false,
            current_touch_id: None,
            loop_error: None,
            current_resize_direction: None,
            pumping_events_instantly: false,
        }
    }
}

/// Before the first event the cursor is at the origin, no button and no finger is down, the cursor is
/// on no edge, nothing has gone wrong and events are not pumped instantly. The rest is as given.
pub proof fn law_start(target: Target, custom_application_handler: bool)
    ensures
        ({
            let state = EventLoopState::start(target, custom_application_handler);
            &&& state.target == target
            &&& state.custom_application_handler == custom_application_handler
            &&& state.cursor_pos.x == 0 && state.cursor_pos.y == 0
            &&& !state.pressed
            &&& state.current_touch_id is None
            &&& state.loop_error is None
            &&& state.current_resize_direction is None
            &&& !state.pumping_events_instantly
        }),
{
}

} // verus!
