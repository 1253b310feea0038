//! Running the event loop, to its end or for a while.

use vstd::prelude::*;
use vstd::string::StringExecFns;

use crate::event_loop::lifecycle::Duration;
use crate::event_loop::state::EventLoopState;
use crate::platform::PlatformError;

verus! {

/// How pumping events went.
#[derive(Clone, Copy, Debug, PartialEq, Eq, Structural)]
pub enum PumpStatus {
    /// The loop goes on.
    Continue,
    /// The loop was left with this code.
    Exit(i32),
}

/// Whether an error says that a loop runs already.
pub open spec fn says_nested(error: PlatformError) -> bool {
    &&& error matches PlatformError::Other(text)
    &&& text@ == "Nested event loops are not supported"@
}

/// Whether an error says that the loop of the windowing system failed for the given reason.
pub open spec fn says_failed(error: PlatformError, reason: Seq<char>) -> bool {
    &&& error matches PlatformError::Other(text)
    &&& text@ == "Error running winit event loop: "@ + reason
}

/// Whether a span of time is the shortest one.
pub open spec fn is_zero(duration: Duration) -> bool {
    duration.secs == 0 && duration.nanos == 0
}

fn nested() -> (error: PlatformError)
    ensures
        says_nested(error),
{
    PlatformError::Other(String::from_str("Nested event loops are not supported"))
}

/// Whether the loop of the windowing system is taken from where it is kept and handed out with the
/// state; or, where none is kept, refused. None is kept there afterwards, either way.
pub open spec fn takes_loop<L>(
    kept: Option<L>,
    kept_after: Option<L>,
    state: EventLoopState,
    result: Result<(EventLoopState, L), PlatformError>,
) -> bool {
    &&& kept_after is None
    &&& match result {
        Ok((handed, winit_loop)) => kept == Some(winit_loop) && handed == state,
        Err(error) => kept is None && says_nested(error),
    }
}

/// The state in which the events of a while are handled.
pub open spec fn pumping(state: EventLoopState, timeout: Option<Duration>) -> EventLoopState {
    EventLoopState {
        pumping_events_instantly: timeout matches Some(duration) && is_zero(duration),
        ..state
    }
}

/// What the handling of the events of a while gives, from the state at its end.
pub open spec fn pumped(state: EventLoopState, status: PumpStatus) -> Result<
    (EventLoopState, PumpStatus),
    PlatformError,
> {
    match state.loop_error {
        Some(error) => Err(error),
        None => Ok((EventLoopState { pumping_events_instantly: false, ..state }, status)),
    }
}

/// The loop that is kept after a run: the one that was run, if it ended well and is not used up.
pub open spec fn kept_after_run<L>(
    kept: Option<L>,
    left: Option<L>,
    state: EventLoopState,
    outcome: Result<(), String>,
) -> Option<L> {
    if outcome is Ok && !state.uses_up_loop() {
        left
    } else {
        kept
    }
}

/// Whether a result is the one of a run that ended with the given state and outcome.
pub open spec fn is_run_result(
    result: Result<EventLoopState, PlatformError>,
    state: EventLoopState,
    outcome: Result<(), String>,
) -> bool {
    match outcome {
        Err(reason) => result matches Err(error) && says_failed(error, reason@),
        Ok(_) => if state.uses_up_loop() {
            result == Ok::<EventLoopState, PlatformError>(
                EventLoopState::start(state.target, false),
            )
        } else {
            result == match state.loop_error {
                Some(error) => Err::<EventLoopState, PlatformError>(error),
                None => Ok::<EventLoopState, PlatformError>(state),
            }
        },
    }
}

fn take_loop<L>(state: EventLoopState, kept: &mut Option<L>) -> (result: Result<
    (EventLoopState, L),
    PlatformError,
>)
    ensures
        takes_loop(*old(kept), *final(kept), state, result),
{
    match kept.take() {
        Some(winit_loop) => Ok((state, winit_loop)),
        None => Err(nested()),
    }
}

impl EventLoopState {
    /// Whether running the loop uses up the loop of the windowing system.
    pub open spec fn uses_up_loop(self) -> bool {
        self.target.web || self.target.ios
    }

    /// Begin to run the event loop to its end. `kept` holds the loop of the windowing system while
    /// it does not run; it is handed out to be run.
    pub fn run<L>(self, kept: &mut Option<L>) -> (result: Result<
        (EventLoopState, L),
        PlatformError,
    >)
        ensures
            takes_loop(*old(kept), *final(kept), self, result),
    {
        take_loop(self, kept)
    }

    /// End the run, given how the loop of the windowing system ended and what running it left of
    /// it. A loop that ended well is kept for another run, unless running uses it up. Gives the
    /// state or what went wrong.
    pub fn run_ended<L>(
        self,
        kept: &mut Option<L>,
        left: Option<L>,
        outcome: Result<(), String>,
    ) -> (result: Result<EventLoopState, PlatformError>)
        ensures
            *final(kept) == kept_after_run(*old(kept), left, self, outcome),
            is_run_result(result, self, outcome),
    {
        match outcome {
            Err(reason) => Err(
                PlatformError::Other(
                    String::from_str("Error running winit event loop: ").concat(reason.as_str()),
                ),
            ),
            Ok(_) => {
                if self.target.web || self.target.ios {
                    Ok(EventLoopState::new(self.target, false))
                } else {
                    *kept = left;
                    match self.loop_error {
                        Some(error) => Err(error),
                        None => Ok(self),
                    }
                }
            },
        }
    }

    /// Begin to handle the events of a while. `kept` holds the loop of the windowing system while
    /// it does not run; it is handed out to be pumped. Without a timeout this waits for an event;
    /// with a timeout of no time it does not wait.
    pub fn pump_events<L>(self, kept: &mut Option<L>, timeout: Option<Duration>) -> (result: Result<
        (EventLoopState, L),
        PlatformError,
    >)
        ensures
            takes_loop(*old(kept), *final(kept), pumping(self, timeout), result),
    {
        let instantly = match timeout {
            Some(duration) => duration.secs == 0 && duration.nanos == 0,
            None => false,
        };
        take_loop(EventLoopState { pumping_events_instantly: instantly, ..self }, kept)
    }

    /// End the handling of the events of a while: gives the state and how it went, or what went
    /// wrong. The loop of the windowing system is kept again either way.
    pub fn pump_ended<L>(self, kept: &mut Option<L>, winit_loop: L, status: PumpStatus) -> (result:
        Result<(EventLoopState, PumpStatus), PlatformError>)
        ensures
            *final(kept) == Some(winit_loop),
            result == pumped(self, status),
    {
        let state = EventLoopState { pumping_events_instantly: false, ..self };
        *kept = Some(winit_loop);
        match state.loop_error {
            Some(error) => Err(error),
            None => Ok((state, status)),
        }
    }

    /// Hand out the loop of a browser with the state that it is to run with. The loop is used up
    /// by this.
    pub fn spawn<L>(self, kept: &mut Option<L>) -> (result: Result<
        (EventLoopState, L),
        PlatformError,
    >)
        ensures
            takes_loop(*old(kept), *final(kept), self, result),
    {
        take_loop(self, kept)
    }
}

/// Once the loop has been taken, to be run, pumped or spawned, none is kept: a second attempt is
/// refused as nested, and there is still none.
pub proof fn law_taken_once<L>(
    kept: Option<L>,
    kept_between: Option<L>,
    kept_after: Option<L>,
    first: EventLoopState,
    second: EventLoopState,
    result: Result<(EventLoopState, L), PlatformError>,
    again: Result<(EventLoopState, L), PlatformError>,
)
    requires
        takes_loop(kept, kept_between, first, result),
        takes_loop(kept_between, kept_after, second, again),
    ensures
        kept_between is None,
        again matches Err(error) && says_nested(error),
        kept_after is None,
{
}

/// The loop that is kept after the events of a while: the one that was handed out to be pumped.
pub open spec fn kept_after_pump<L>(
    kept: Option<L>,
    begun: Result<(EventLoopState, L), PlatformError>,
) -> Option<L> {
    match begun {
        Ok((_, winit_loop)) => Some(winit_loop),
        Err(_) => kept,
    }
}

/// Pumping is refused as nested if and only if no loop is kept. Afterwards, whatever came up while
/// the events were handled, the same loop is kept as before, so that the next attempt gets it. The
/// result is the error that the loop ended with; without one it is the status, with a state in
/// which there is no error and events are no longer pumped.
pub proof fn law_pump_keeps_loop<L>(
    kept: Option<L>,
    kept_between: Option<L>,
    start: EventLoopState,
    begun: Result<(EventLoopState, L), PlatformError>,
    end: EventLoopState,
    status: PumpStatus,
    kept_after: Option<L>,
    next: EventLoopState,
    again: Result<(EventLoopState, L), PlatformError>,
)
    requires
        takes_loop(kept, kept_between, start, begun),
        takes_loop(kept_after_pump(kept_between, begun), kept_after, next, again),
    ensures
        match begun {
            Ok((state, winit_loop)) => kept == Some(winit_loop) && state == start,
            Err(error) => kept is None && says_nested(error),
        },
        kept_after_pump(kept_between, begun) == kept,
        kept matches Some(winit_loop) ==> again == Ok::<(EventLoopState, L), PlatformError>(
            (next, winit_loop),
        ),
        match pumped(end, status) {
            Err(error) => end.loop_error == Some(error),
            Ok((state, given)) => {
                &&& end.loop_error is None
                &&& given == status
                &&& state.loop_error is None
                &&& !state.pumping_events_instantly
            },
        },
{
}

/// After a run that ended well the loop is kept as before, where running does not use it up, and
/// the next attempt gets it. After any other run the next attempt is refused as nested.
pub proof fn law_run_keeps_loop<L>(
    kept: Option<L>,
    kept_between: Option<L>,
    start: EventLoopState,
    winit_loop: L,
    end: EventLoopState,
    outcome: Result<(), String>,
    kept_after: Option<L>,
    next: EventLoopState,
    again: Result<(EventLoopState, L), PlatformError>,
)
    requires
        takes_loop(
            kept,
            kept_between,
            start,
            Ok::<(EventLoopState, L), PlatformError>((start, winit_loop)),
        ),
        takes_loop(
            kept_after_run(kept_between, Some(winit_loop), end, outcome),
            kept_after,
            next,
            again,
        ),
    ensures
        if outcome is Ok && !end.uses_up_loop() {
            &&& kept_after_run(kept_between, Some(winit_loop), end, outcome) == kept
            &&& again == Ok::<(EventLoopState, L), PlatformError>((next, winit_loop))
        } else {
            again matches Err(error) && says_nested(error)
        },
{
}

/// Where pumping ends without an error, the state that handled the events is given back: target,
/// handler, cursor, buttons, finger and edge are as the events left them, and only the pumping is
/// over. The status is the one of the loop.
pub proof fn law_pump_gives_state_back(end: EventLoopState, status: PumpStatus)
    requires
        end.loop_error is None,
    ensures
        pumped(end, status) matches Ok((state, given)) && {
            &&& given == status
            &&& state.target == end.target
            &&& state.custom_application_handler == end.custom_application_handler
            &&& state.cursor_pos == end.cursor_pos
            &&& state.pressed == end.pressed
            &&& state.current_touch_id == end.current_touch_id
            &&& state.current_resize_direction == end.current_resize_direction
            &&& state.loop_error is None
            &&& !state.pumping_events_instantly
        },
{
}

/// Pumping begins with the state of the last time: nothing is changed but how events are pumped,
/// which is instantly if and only if a timeout is there and is of no seconds and no nanoseconds.
pub proof fn law_pump_begins_with_state(state: EventLoopState, timeout: Option<Duration>)
    ensures
        ({
            let start = pumping(state, timeout);
            &&& start.target == state.target
            &&& start.custom_application_handler == state.custom_application_handler
            &&& start.cursor_pos == state.cursor_pos
            &&& start.pressed == state.pressed
            &&& start.current_touch_id == state.current_touch_id
            &&& start.current_resize_direction == state.current_resize_direction
            &&& start.loop_error == state.loop_error
            &&& start.pumping_events_instantly <==> timeout == Some(Duration { secs: 0, nanos: 0 })
        }),
{
}

/// Pumping twice in a row goes on where the first time ended, whatever the timeouts: what is handed
/// to the second is, field by field, what the events of the first left.
pub proof fn law_pumps_follow_each_other(
    end: EventLoopState,
    status: PumpStatus,
    timeout: Option<Duration>,
)
    requires
        end.loop_error is None,
    ensures
        ({
            let next = pumping(pumped(end, status)->Ok_0.0, timeout);
            &&& next.target == end.target
            &&& next.custom_application_handler == end.custom_application_handler
            &&& next.cursor_pos == end.cursor_pos
            &&& next.pressed == end.pressed
            &&& next.current_touch_id == end.current_touch_id
            &&& next.current_resize_direction == end.current_resize_direction
            &&& next.loop_error is None
        }),
{
}

/// An error that the loop ended with is what pumping gives, and nothing else is, whatever the
/// status.
pub proof fn law_pump_gives_error(end: EventLoopState, status: PumpStatus, error: PlatformError)
    ensures
        pumped(end, status) == Err::<(EventLoopState, PumpStatus), PlatformError>(error) <==> (
        end.loop_error == Some(error)),
{
}

/// A run gives back the state that handled the events, if it ended without an error and the loop
/// can be run again. Where running uses the loop up, it gives a state in which nothing has
/// happened and the application has no handler. An error of the loop comes out as it is, and a
/// failure of the windowing system comes out as its reason, whatever the error of the loop.
pub proof fn law_run_gives_state_back(
    result: Result<EventLoopState, PlatformError>,
    end: EventLoopState,
    outcome: Result<(), String>,
)
    requires
        is_run_result(result, end, outcome),
    ensures
        outcome is Ok && !end.target.web && !end.target.ios && end.loop_error is None ==> result
            == Ok::<EventLoopState, PlatformError>(end),
        outcome is Ok && !end.target.web && !end.target.ios && end.loop_error is Some ==> result
            == Err::<EventLoopState, PlatformError>(end.loop_error->0),
        outcome is Ok && (end.target.web || end.target.ios) ==> (result matches Ok(state) && {
            &&& state.target == end.target
            &&& !state.custom_application_handler
            &&& state.cursor_pos.x == 0 && state.cursor_pos.y == 0
            &&& !state.pressed
            &&& state.current_touch_id is None
            &&& state.loop_error is None
            &&& state.current_resize_direction is None
            &&& !state.pumping_events_instantly
        }),
        outcome matches Err(reason) ==> (result matches Err(PlatformError::Other(text)) && text@
            == "Error running winit event loop: "@ + reason@),
{
}

/// A loop is there again after a run exactly where it ended well on a system that is neither a
/// browser nor one like iOS; otherwise what was kept stays.
pub proof fn law_loop_after_run<L>(
    kept: Option<L>,
    left: Option<L>,
    end: EventLoopState,
    outcome: Result<(), String>,
)
    ensures
        outcome is Ok && !end.target.web && !end.target.ios ==> kept_after_run(
            kept,
            left,
            end,
            outcome,
        ) == left,
        outcome is Err || end.target.web || end.target.ios ==> kept_after_run(
            kept,
            left,
            end,
            outcome,
        ) == kept,
{
}

/// Whoever asks for the loop gets the one that is kept, with the very state that was handed in, and
/// leaves none behind; where none is kept, the answer is the refusal of nested loops.
pub proof fn law_loop_is_handed_out<L>(
    kept: Option<L>,
    kept_after: Option<L>,
    state: EventLoopState,
    result: Result<(EventLoopState, L), PlatformError>,
)
    requires
        takes_loop(kept, kept_after, state, result),
    ensures
        kept_after is None,
        kept matches Some(winit_loop) ==> result == Ok::<(EventLoopState, L), PlatformError>(
            (state, winit_loop),
        ),
        kept is None ==> (result matches Err(PlatformError::Other(text)) && text@
            == "Nested event loops are not supported"@),
{
}

} // verus!
