//! The whole course of the handling of a window event, and what holds of it.

use vstd::prelude::*;

use crate::event_loop::keys;
use crate::event_loop::state::EventLoopState;
use crate::event_loop::types::{
    ColorScheme, ElementState, Key, KeyEvent, KeyboardInput, LogicalPoint, MouseButton, MouseEvent,
    PlatformEvent, PointerEventButton, ResizeDirection, Theme, TouchPhase, WindowEvent,
    WinitWindowEventResult,
};
use crate::event_loop::window_event;
use crate::event_loop::window_event::{Action, EventTarget, Reply, Stage, Step};
use crate::platform::PlatformError;

verus! {

/// All that the surroundings say in the course of one event.
pub struct Answers {
    /// The verdict of the application's handler.
    pub handler: WinitWindowEventResult,
    /// The verdict of the window's filter, if it has one.
    pub filter: Option<WinitWindowEventResult>,
    /// What went wrong with what was asked of the window, if anything.
    pub outcome: Option<PlatformError>,
    /// The name of the browser's platform.
    pub platform: Option<String>,
    /// The character that stands for the key.
    pub key_char: Option<char>,
    /// The edge that the cursor is on.
    pub direction: Option<ResizeDirection>,
    /// The position of the cursor or of the finger.
    pub position: LogicalPoint,
    /// The turn of the wheel.
    pub wheel: (u32, u32),
}

impl Answers {
    /// The reply to an action.
    pub open spec fn reply(self, action: Action) -> Reply {
        match action {
            Action::CallHandler { .. } => Reply::Verdict(self.handler),
            Action::CallEventFilter => Reply::FilterVerdict(self.filter),
            Action::Draw | Action::Resize(_) | Action::Dispatch(_) | Action::ActivationChanged(
                _,
            ) => Reply::Outcome(self.outcome),
            Action::ReadNavigatorPlatform => Reply::NavigatorPlatform(self.platform),
            Action::LookUpKey(_) => Reply::KeyChar(self.key_char),
            Action::FindResizeDirection(_) => Reply::ResizeDirection(self.direction),
            Action::FindLogicalPosition => Reply::Position(self.position),
            Action::FindWheelDelta => Reply::WheelDelta(self.wheel.0, self.wheel.1),
            _ => Reply::Finished,
        }
    }
}

/// How far a stage is from the end at most.
pub open spec fn rank(stage: Stage) -> int {
    match stage {
        Stage::Last => 1,
        Stage::Finish => 2,
        Stage::Outcome { .. } | Stage::Occluded | Stage::CursorPosition | Stage::WheelDelta
        | Stage::TouchPosition { .. } => 3,
        Stage::ResizeDirection | Stage::KeyChar(_) => 4,
        Stage::Platform(_) => 5,
        Stage::Accessibility(_) => 6,
        Stage::Filter(_) => 7,
        Stage::Handler(_) => 8,
    }
}

/// How many actions a step is from the end at most.
pub open spec fn actions_left(step: Step) -> int {
    match step {
        Step::Done => 0,
        Step::Perform(_, stage) => rank(stage),
    }
}

/// Each reply brings the handling of an event nearer to its end: it takes at most as many actions
/// as there are stages on the longest way.
pub proof fn law_event_ends(state: EventLoopState, stage: Stage, reply: Reply)
    ensures
        actions_left(window_event::next_step(state, stage, reply).1) < rank(stage),
{
}

/// Whether a reply is of the sort that an action asks for.
pub open spec fn is_reply(action: Action, reply: Reply) -> bool {
    match action {
        Action::CallHandler { .. } => reply is Verdict,
        Action::CallEventFilter => reply is FilterVerdict,
        Action::Draw | Action::Resize(_) | Action::Dispatch(_) | Action::ActivationChanged(_) =>
            reply is Outcome,
        Action::ReadNavigatorPlatform => reply is NavigatorPlatform,
        Action::LookUpKey(_) => reply is KeyChar,
        Action::FindResizeDirection(_) => reply is ResizeDirection,
        Action::FindLogicalPosition => reply is Position,
        Action::FindWheelDelta => reply is WheelDelta,
        _ => reply is Finished,
    }
}

/// Whether a step waits for the reply, if that is of the sort that its action asks for.
pub open spec fn is_answered_by(step: Step, reply: Reply) -> bool {
    step matches Step::Perform(action, stage) ==> is_reply(action, reply) ==> window_event::answers(
        stage,
        reply,
    )
}

proof fn lemma_handled_answered(state: EventLoopState, event: WindowEvent, reply: Reply)
    ensures
        is_answered_by(window_event::handled(state, event).1, reply),
{
    if let WindowEvent::KeyboardInput(input) = event {
        lemma_keyboard_answered(input, true, reply);
        lemma_keyboard_answered(input, false, reply);
    }
}

proof fn lemma_keyboard_answered(input: KeyboardInput, swap: bool, reply: Reply)
    ensures
        is_answered_by(window_event::keyboard_step(input, swap), reply),
{
}

/// Whoever answers each action with a reply of its sort can go on to the end of the event.
pub proof fn law_replies_answer(
    state: EventLoopState,
    target: EventTarget,
    event: WindowEvent,
    stage: Stage,
    earlier: Reply,
    reply: Reply,
)
    ensures
        is_answered_by(window_event::first_step(state, target, event), reply),
        is_answered_by(window_event::next_step(state, stage, earlier).1, reply),
{
    match stage {
        Stage::Filter(event) | Stage::Accessibility(event) => {
            lemma_handled_answered(state, event, reply);
        },
        Stage::Platform(input) => {
            lemma_keyboard_answered(input, true, reply);
            lemma_keyboard_answered(input, false, reply);
        },
        _ => {},
    }
}

/// The actions from a step to the end, and the state then.
pub open spec fn course(state: EventLoopState, step: Step, answers: Answers) -> (
    Seq<Action>,
    EventLoopState,
)
    decreases actions_left(step),
{
    match step {
        Step::Done => (Seq::empty(), state),
        Step::Perform(action, stage) => {
            let next = window_event::next_step(state, stage, answers.reply(action));
            let rest = course(next.0, next.1, answers);
            (seq![action] + rest.0, rest.1)
        },
    }
}

/// Leaving the loop, if anything went wrong in it.
pub open spec fn exit(state: EventLoopState) -> Seq<Action> {
    if state.loop_error is Some {
        seq![Action::Exit]
    } else {
        Seq::empty()
    }
}

/// Actions the last but `after` of which can fail: the failure, or that there was none, is kept,
/// and with a failure the loop is left.
pub open spec fn attempt(
    state: EventLoopState,
    actions: Seq<Action>,
    after: Seq<Action>,
    answers: Answers,
) -> (Seq<Action>, EventLoopState) {
    let state = EventLoopState { loop_error: answers.outcome, ..state };
    (actions + after + exit(state), state)
}

/// Actions that cannot fail.
pub open spec fn perform(state: EventLoopState, actions: Seq<Action>) -> (
    Seq<Action>,
    EventLoopState,
) {
    (actions + exit(state), state)
}

/// Whether command and control are the other way round.
pub open spec fn swaps_keys(state: EventLoopState, answers: Answers) -> bool {
    state.target.apple || (state.target.web && (answers.platform matches Some(name)
        && keys::names_apple(name@)))
}

/// What a key is dispatched as, if the application is told.
pub open spec fn key_dispatch(
    state: EventLoopState,
    input: KeyboardInput,
    answers: Answers,
) -> Option<PlatformEvent> {
    let input = window_event::meant(input, swaps_keys(state, answers));
    match window_event::key_text(input, answers.key_char) {
        Some(text) => window_event::key_event(input, text),
        None => None,
    }
}

/// The questions that are asked to find the meaning of a key.
pub open spec fn key_questions(
    state: EventLoopState,
    input: KeyboardInput,
    answers: Answers,
) -> Seq<Action> {
    (if state.target.web && !state.target.apple {
        seq![Action::ReadNavigatorPlatform]
    } else {
        Seq::empty()
    }) + (match window_event::meant(input, swaps_keys(state, answers)).key {
        Key::Named(name) => seq![Action::LookUpKey(name)],
        _ => Seq::empty(),
    })
}

/// The usual handling of an event from its beginning to its end.
pub open spec fn usual(state: EventLoopState, event: WindowEvent, answers: Answers) -> (
    Seq<Action>,
    EventLoopState,
) {
    match event {
        WindowEvent::RedrawRequested => attempt(state, seq![Action::Draw], seq![], answers),
        WindowEvent::Resized(size) => attempt(
            state,
            seq![Action::Resize(size)],
            seq![Action::SyncWindowState],
            answers,
        ),
        WindowEvent::CloseRequested => attempt(
            state,
            seq![Action::Dispatch(PlatformEvent::CloseRequested)],
            seq![],
            answers,
        ),
        WindowEvent::Focused(focus) => attempt(
            state,
            seq![Action::ActivationChanged(focus)],
            seq![],
            answers,
        ),
        WindowEvent::KeyboardInput(input) => {
            let questions = key_questions(state, input, answers);
            match key_dispatch(state, input, answers) {
                Some(event) => attempt(
                    state,
                    questions + seq![Action::Dispatch(event)],
                    seq![],
                    answers,
                ),
                None => (questions, state),
            }
        },
        WindowEvent::ImePreedit(preedit_text, selection) => perform(
            state,
            seq![
                Action::ProcessKeyInput(
                    KeyEvent::UpdateComposition {
                        preedit_text,
                        preedit_selection: match selection {
                            Some((from, to)) => Some((from as i32, to as i32)),
                            None => None,
                        },
                    },
                ),
            ],
        ),
        WindowEvent::ImeCommit(text) => perform(
            state,
            seq![Action::ProcessKeyInput(KeyEvent::CommitComposition { text })],
        ),
        WindowEvent::CursorMoved => perform(
            EventLoopState {
                current_resize_direction: answers.direction,
                cursor_pos: answers.position,
                ..state
            },
            seq![
                Action::FindResizeDirection(state.current_resize_direction),
                Action::FindLogicalPosition,
                Action::ProcessMouseInput(MouseEvent::Moved { position: answers.position }),
            ],
        ),
        WindowEvent::CursorLeft => if state.pressed && !state.target.web {
            perform(state, seq![])
        } else {
            perform(
                EventLoopState { pressed: false, ..state },
                seq![Action::ProcessMouseInput(MouseEvent::Exit)],
            )
        },
        WindowEvent::MouseWheel => perform(
            state,
            seq![
                Action::FindWheelDelta,
                Action::ProcessMouseInput(
                    MouseEvent::Wheel {
                        position: state.cursor_pos,
                        delta_x: answers.wheel.0,
                        delta_y: answers.wheel.1,
                    },
                ),
            ],
        ),
        WindowEvent::MouseInput { state: ElementState::Pressed, button } => if drags_edge(
            state,
            event,
        ) {
            (seq![Action::DragResize(state.current_resize_direction)], state)
        } else {
            perform(
                EventLoopState { pressed: true, ..state },
                seq![
                    Action::ProcessMouseInput(
                        MouseEvent::Pressed {
                            position: state.cursor_pos,
                            button: button.spec_pointer_button(),
                            click_count: 0,
                        },
                    ),
                ],
            )
        },
        WindowEvent::MouseInput { state: ElementState::Released, button } => perform(
            EventLoopState { pressed: false, ..state },
            seq![
                Action::ProcessMouseInput(
                    MouseEvent::Released {
                        position: state.cursor_pos,
                        button: button.spec_pointer_button(),
                        click_count: 0,
                    },
                ),
            ],
        ),
        WindowEvent::Touch { id, phase } => if follows_finger(state, id) {
            let (state, event) = window_event::touched(state, id, phase, answers.position);
            perform(state, seq![Action::FindLogicalPosition, Action::ProcessMouseInput(event)])
        } else {
            perform(state, seq![])
        },
        WindowEvent::ScaleFactorChanged { scale_factor, fixed } => if fixed {
            perform(state, seq![])
        } else {
            attempt(
                state,
                seq![Action::Dispatch(PlatformEvent::ScaleFactorChanged(scale_factor))],
                seq![],
                answers,
            )
        },
        WindowEvent::ThemeChanged(theme) => perform(
            state,
            seq![
                Action::SetColorScheme(
                    match theme {
                        Theme::Dark => ColorScheme::Dark,
                        Theme::Light => ColorScheme::Light,
                    },
                ),
            ],
        ),
        WindowEvent::Occluded(covered) => perform(
            state,
            seq![Action::SetOccluded(covered), Action::SyncWindowState],
        ),
        WindowEvent::Other => perform(state, seq![]),
    }
}

/// Whether an event is a press of the left button on an edge by which the window is resized.
pub open spec fn drags_edge(state: EventLoopState, event: WindowEvent) -> bool {
    event == (WindowEvent::MouseInput { state: ElementState::Pressed, button: MouseButton::Left })
        && state.current_resize_direction is Some
}

/// Whether a finger is the one that is followed, or none is.
pub open spec fn follows_finger(state: EventLoopState, id: u64) -> bool {
    state.current_touch_id is None || state.current_touch_id == Some(id)
}

/// The questions that are asked before the usual handling of an event.
pub open spec fn questions(state: EventLoopState) -> Seq<Action> {
    (if state.custom_application_handler {
        seq![Action::CallHandler { with_window: true }]
    } else {
        Seq::empty()
    }) + seq![Action::CallEventFilter] + (if state.target.accessibility {
        seq![Action::ForwardToAccessibility]
    } else {
        Seq::empty()
    })
}

/// Whether the handler of the application prevents the usual handling.
pub open spec fn handler_prevents(state: EventLoopState, answers: Answers) -> bool {
    state.custom_application_handler && answers.handler == WinitWindowEventResult::PreventDefault
}

/// Whether the filter of the window prevents the usual handling.
pub open spec fn filter_prevents(answers: Answers) -> bool {
    answers.filter == Some(WinitWindowEventResult::PreventDefault)
}

/// The handling of an event from its beginning to its end.
pub open spec fn script(
    state: EventLoopState,
    target: EventTarget,
    event: WindowEvent,
    answers: Answers,
) -> (Seq<Action>, EventLoopState) {
    match target {
        EventTarget::Unknown => (
            if state.custom_application_handler {
                seq![Action::CallHandler { with_window: false }]
            } else {
                Seq::empty()
            },
            state,
        ),
        EventTarget::WithoutWindow => (Seq::empty(), state),
        EventTarget::Window => if handler_prevents(state, answers) {
            (seq![Action::CallHandler { with_window: true }], state)
        } else if filter_prevents(answers) {
            (
                (if state.custom_application_handler {
                    seq![Action::CallHandler { with_window: true }]
                } else {
                    Seq::empty()
                }) + seq![Action::CallEventFilter],
                state,
            )
        } else {
            let (actions, after) = usual(state, event, answers);
            (questions(state) + actions, after)
        },
    }
}

proof fn lemma_finish(state: EventLoopState, answers: Answers)
    ensures
        course(state, window_event::finish(state), answers) == (exit(state), state),
{
    reveal_with_fuel(course, 2);
    assert(course(state, window_event::finish(state), answers).0 =~= exit(state));
}

proof fn lemma_key(state: EventLoopState, input: KeyboardInput, special: Option<char>, answers: Answers)
    ensures
        course(state, window_event::key_step(input, special), answers) == (
        match window_event::key_text(input, special) {
            Some(text) => match window_event::key_event(input, text) {
                Some(event) => attempt(state, seq![Action::Dispatch(event)], seq![], answers),
                None => (Seq::empty(), state),
            },
            None => (Seq::empty(), state),
        }),
{
    let after = EventLoopState { loop_error: answers.outcome, ..state };
    lemma_finish(after, answers);
    match window_event::key_text(input, special) {
        Some(text) => match window_event::key_event(input, text) {
            Some(event) => {
                let left = course(state, window_event::key_step(input, special), answers);
                let right = attempt(state, seq![Action::Dispatch(event)], seq![], answers);
                assert(left.0 =~= right.0);
            },
            None => {},
        },
        None => {},
    }
}

/// A key whose meaning is known.
proof fn lemma_keyboard(state: EventLoopState, input: KeyboardInput, swap: bool, answers: Answers)
    ensures
        ({
            let input = window_event::meant(input, swap);
            let asked: Seq<Action> = match input.key {
                Key::Named(name) => seq![Action::LookUpKey(name)],
                _ => Seq::empty(),
            };
            let dispatched = match window_event::key_text(input, answers.key_char) {
                Some(text) => window_event::key_event(input, text),
                None => None,
            };
            course(state, window_event::keyboard_step(input, false), answers) == match dispatched {
                Some(event) => attempt(
                    state,
                    asked + seq![Action::Dispatch(event)],
                    seq![],
                    answers,
                ),
                None => (asked, state),
            }
        }),
        window_event::keyboard_step(input, swap) == window_event::keyboard_step(
            window_event::meant(input, swap),
            false,
        ),
{
    let input = window_event::meant(input, swap);
    let step = window_event::keyboard_step(input, false);
    lemma_key(state, input, answers.key_char, answers);
    lemma_key(state, input, None, answers);
    let left = course(state, step, answers);
    match input.key {
        Key::Named(name) => {
            let rest = course(state, window_event::key_step(input, answers.key_char), answers);
            assert(left == (seq![Action::LookUpKey(name)] + rest.0, rest.1));
            match window_event::key_text(input, answers.key_char) {
                Some(text) => match window_event::key_event(input, text) {
                    Some(event) => {
                        let right = attempt(
                            state,
                            seq![Action::LookUpKey(name)] + seq![Action::Dispatch(event)],
                            seq![],
                            answers,
                        );
                        assert(left.0 =~= right.0);
                    },
                    None => {
                        assert(left.0 =~= seq![Action::LookUpKey(name)]);
                    },
                },
                None => {
                    assert(left.0 =~= seq![Action::LookUpKey(name)]);
                },
            }
        },
        _ => {
            match window_event::key_text(input, answers.key_char) {
                Some(text) => match window_event::key_event(input, text) {
                    Some(event) => {
                        assert(Seq::empty() + seq![Action::Dispatch(event)] =~= seq![
                            Action::Dispatch(event),
                        ]);
                    },
                    None => {},
                },
                None => {},
            }
        },
    }
}

/// An action, then the rest.
proof fn lemma_action(state: EventLoopState, action: Action, stage: Stage, answers: Answers)
    ensures
        ({
            let (next, step) = window_event::next_step(state, stage, answers.reply(action));
            let rest = course(next, step, answers);
            course(state, Step::Perform(action, stage), answers) == (
                seq![action] + rest.0,
                rest.1,
            )
        }),
{
}

/// An action that cannot fail, as the last one.
proof fn lemma_perform(state: EventLoopState, action: Action, answers: Answers)
    ensures
        course(state, Step::Perform(action, Stage::Finish), answers) == perform(
            state,
            seq![action],
        ),
{
    lemma_action(state, action, Stage::Finish, answers);
    lemma_finish(state, answers);
}

/// An action that can fail, with or without a look at the state of the window afterwards.
proof fn lemma_attempt(state: EventLoopState, action: Action, sync: bool, answers: Answers)
    requires
        answers.reply(action) is Outcome,
    ensures
        course(state, Step::Perform(action, Stage::Outcome { sync }), answers) == attempt(
            state,
            seq![action],
            if sync {
                seq![Action::SyncWindowState]
            } else {
                seq![]
            },
            answers,
        ),
{
    let after = EventLoopState { loop_error: answers.outcome, ..state };
    lemma_action(state, action, Stage::Outcome { sync }, answers);
    lemma_perform(after, Action::SyncWindowState, answers);
    lemma_finish(after, answers);
    assert(seq![action] + (seq![Action::SyncWindowState] + exit(after)) =~= seq![action] + seq![
        Action::SyncWindowState,
    ] + exit(after));
    assert(seq![action] + exit(after) =~= seq![action] + seq![] + exit(after));
}

proof fn lemma_usual_key(state: EventLoopState, input: KeyboardInput, answers: Answers)
    ensures
        ({
            let (after, step) = window_event::handled(state, WindowEvent::KeyboardInput(input));
            course(after, step, answers) == usual(
                state,
                WindowEvent::KeyboardInput(input),
                answers,
            )
        }),
{
    let event = WindowEvent::KeyboardInput(input);
    let (after, step) = window_event::handled(state, event);
    let left = course(after, step, answers);
    let right = usual(state, event, answers);
    let swap = swaps_keys(state, answers);
    lemma_keyboard(state, input, swap, answers);
    if state.target.web && !state.target.apple {
        lemma_action(state, Action::ReadNavigatorPlatform, Stage::Platform(input), answers);
    }
    assert(left.0 =~= right.0);
}

proof fn lemma_usual_pointer(state: EventLoopState, event: WindowEvent, answers: Answers)
    requires
        event is CursorMoved || event is MouseWheel || event is Touch || event is Occluded,
    ensures
        ({
            let (after, step) = window_event::handled(state, event);
            course(after, step, answers) == usual(state, event, answers)
        }),
{
    let (after, step) = window_event::handled(state, event);
    let left = course(after, step, answers);
    let right = usual(state, event, answers);
    lemma_finish(state, answers);
    match event {
        WindowEvent::CursorMoved => {
            let found = EventLoopState { current_resize_direction: answers.direction, ..state };
            let moved = MouseEvent::Moved { position: answers.position };
            lemma_action(
                state,
                Action::FindResizeDirection(state.current_resize_direction),
                Stage::ResizeDirection,
                answers,
            );
            lemma_action(found, Action::FindLogicalPosition, Stage::CursorPosition, answers);
            lemma_perform(right.1, Action::ProcessMouseInput(moved), answers);
        },
        WindowEvent::MouseWheel => {
            lemma_action(state, Action::FindWheelDelta, Stage::WheelDelta, answers);
            let wheel = MouseEvent::Wheel {
                position: state.cursor_pos,
                delta_x: answers.wheel.0,
                delta_y: answers.wheel.1,
            };
            lemma_perform(state, Action::ProcessMouseInput(wheel), answers);
        },
        WindowEvent::Touch { id, phase } => {
            if follows_finger(state, id) {
                lemma_action(
                    state,
                    Action::FindLogicalPosition,
                    Stage::TouchPosition { id, phase },
                    answers,
                );
                let (after, event) = window_event::touched(state, id, phase, answers.position);
                lemma_perform(after, Action::ProcessMouseInput(event), answers);
            }
        },
        WindowEvent::Occluded(covered) => {
            lemma_action(state, Action::SetOccluded(covered), Stage::Occluded, answers);
            lemma_perform(state, Action::SyncWindowState, answers);
        },
        _ => {},
    }
    assert(left.0 =~= right.0);
}

proof fn lemma_usual(state: EventLoopState, event: WindowEvent, answers: Answers)
    ensures
        ({
            let (after, step) = window_event::handled(state, event);
            course(after, step, answers) == usual(state, event, answers)
        }),
{
    let (after, step) = window_event::handled(state, event);
    let right = usual(state, event, answers);
    match event {
        WindowEvent::KeyboardInput(input) => {
            lemma_usual_key(state, input, answers);
        },
        WindowEvent::CursorMoved | WindowEvent::MouseWheel | WindowEvent::Touch {
            ..
        } | WindowEvent::Occluded(_) => {
            lemma_usual_pointer(state, event, answers);
        },
        _ => match step {
            Step::Perform(action, Stage::Outcome { sync }) => {
                lemma_attempt(state, action, sync, answers);
            },
            Step::Perform(action, Stage::Finish) => {
                lemma_perform(after, action, answers);
            },
            Step::Perform(action, Stage::Last) => {
                lemma_finish(after, answers);
                lemma_action(after, action, Stage::Last, answers);
                assert(seq![action] + Seq::empty() =~= seq![action]);
                assert(Seq::empty() + exit(after) =~= exit(after));
            },
            _ => {
                lemma_finish(after, answers);
                assert(Seq::empty() + exit(after) =~= exit(after));
            },
        },
    }
}

/// The handling of an event, step by step, is the one that the script gives.
pub proof fn law_script(
    state: EventLoopState,
    target: EventTarget,
    event: WindowEvent,
    answers: Answers,
)
    ensures
        course(state, window_event::first_step(state, target, event), answers) == script(
            state,
            target,
            event,
            answers,
        ),
{
    let left = course(state, window_event::first_step(state, target, event), answers);
    let right = script(state, target, event, answers);
    lemma_usual(state, event, answers);
    reveal_with_fuel(course, 5);
    assert(left.1 == right.1);
    assert(left.0 =~= right.0);
}

/// Whether the usual handling of an event stops before its end: a press on an edge becomes a
/// resize of the window, and a key that the application is not told of is dropped.
pub open spec fn breaks_off(state: EventLoopState, event: WindowEvent, answers: Answers) -> bool {
    drags_edge(state, event) || (event matches WindowEvent::KeyboardInput(input) && key_dispatch(
        state,
        input,
        answers,
    ) is None)
}

/// If the handler of the application or the filter of the window prevents it, nothing is done
/// about an event and the state stays as it is.
pub proof fn law_prevented(state: EventLoopState, event: WindowEvent, answers: Answers)
    requires
        handler_prevents(state, answers) || filter_prevents(answers),
    ensures
        ({
            let (actions, after) = script(state, EventTarget::Window, event, answers);
            &&& after == state
            &&& forall|i: int|
                0 <= i < actions.len() ==> (#[trigger] actions[i] is CallHandler
                    || actions[i] is CallEventFilter)
        }),
{
}

/// An event for a window that is not known, or not there, changes nothing; the handler of the
/// application alone gets to know of the former.
pub proof fn law_no_window(
    state: EventLoopState,
    target: EventTarget,
    event: WindowEvent,
    answers: Answers,
)
    requires
        target != EventTarget::Window,
    ensures
        ({
            let (actions, after) = script(state, target, event, answers);
            &&& after == state
            &&& actions =~= if target == EventTarget::Unknown && state.custom_application_handler {
                seq![Action::CallHandler { with_window: false }]
            } else {
                seq![]
            }
        }),
{
}

spec fn ends_with_exit(actions: Seq<Action>) -> bool {
    actions.len() > 0 && actions.last() == Action::Exit
}

proof fn lemma_end(actions: Seq<Action>, state: EventLoopState)
    requires
        !ends_with_exit(actions),
    ensures
        ends_with_exit(actions + exit(state)) <==> state.loop_error is Some,
{
    if state.loop_error is Some {
        assert((actions + exit(state)).last() == Action::Exit);
    } else {
        assert(actions + exit(state) =~= actions);
    }
}

proof fn lemma_attempt_end(
    state: EventLoopState,
    actions: Seq<Action>,
    after: Seq<Action>,
    answers: Answers,
)
    requires
        !ends_with_exit(actions + after),
    ensures
        ends_with_exit(attempt(state, actions, after, answers).0) <==> answers.outcome is Some,
{
    lemma_end(actions + after, attempt(state, actions, after, answers).1);
}

proof fn lemma_usual_end(state: EventLoopState, event: WindowEvent, answers: Answers)
    ensures
        ({
            let (actions, after) = usual(state, event, answers);
            ends_with_exit(actions) <==> after.loop_error is Some && !breaks_off(
                state,
                event,
                answers,
            )
        }),
{
    let (actions, after) = usual(state, event, answers);
    match event {
        WindowEvent::RedrawRequested => {
            lemma_attempt_end(state, seq![Action::Draw], seq![], answers);
        },
        WindowEvent::Resized(size) => {
            lemma_attempt_end(
                state,
                seq![Action::Resize(size)],
                seq![Action::SyncWindowState],
                answers,
            );
        },
        WindowEvent::CloseRequested => {
            lemma_attempt_end(
                state,
                seq![Action::Dispatch(PlatformEvent::CloseRequested)],
                seq![],
                answers,
            );
        },
        WindowEvent::Focused(focus) => {
            lemma_attempt_end(state, seq![Action::ActivationChanged(focus)], seq![], answers);
        },
        WindowEvent::ScaleFactorChanged { scale_factor, fixed } => {
            lemma_attempt_end(
                state,
                seq![Action::Dispatch(PlatformEvent::ScaleFactorChanged(scale_factor))],
                seq![],
                answers,
            );
            lemma_end(seq![], state);
        },
        WindowEvent::KeyboardInput(input) => {
            let asked = key_questions(state, input, answers);
            assert(!ends_with_exit(asked));
            match key_dispatch(state, input, answers) {
                Some(event) => {
                    lemma_attempt_end(
                        state,
                        asked + seq![Action::Dispatch(event)],
                        seq![],
                        answers,
                    );
                },
                None => {},
            }
        },
        _ => {
            if !drags_edge(state, event) {
                lemma_pointer_actions(state, event, answers);
                lemma_end(actions.take(actions.len() - exit(after).len()), after);
            }
        },
    }
}

proof fn lemma_pointer_actions(state: EventLoopState, event: WindowEvent, answers: Answers)
    requires
        !drags_edge(state, event),
        !(event is RedrawRequested || event is Resized || event is CloseRequested
            || event is Focused || event is KeyboardInput || event is ScaleFactorChanged),
    ensures
        ({
            let (actions, after) = usual(state, event, answers);
            let before = actions.take(actions.len() - exit(after).len());
            &&& exit(after).len() <= actions.len()
            &&& actions == before + exit(after)
            &&& !ends_with_exit(before)
        }),
{
    let (actions, after) = usual(state, event, answers);
    let before = actions.take(actions.len() - exit(after).len());
    assert(actions =~= before + exit(after));
}

/// An event whose handling comes to its end leaves the loop if and only if an error is there then.
pub proof fn law_exit_on_error(state: EventLoopState, event: WindowEvent, answers: Answers)
    requires
        !handler_prevents(state, answers),
        !filter_prevents(answers),
    ensures
        ({
            let (actions, after) = script(state, EventTarget::Window, event, answers);
            actions.last() == Action::Exit <==> after.loop_error is Some && !breaks_off(
                state,
                event,
                answers,
            )
        }),
{
    let (actions, after) = usual(state, event, answers);
    let asked = questions(state);
    lemma_usual_end(state, event, answers);
    assert(!ends_with_exit(asked));
    if actions.len() > 0 {
        assert((asked + actions).last() == actions.last());
    } else {
        assert(asked + actions =~= asked);
    }
}

/// What is asked of a window replaces the error of the loop by its own outcome: success clears an
/// error that was there.
pub proof fn law_outcome_replaces_error(
    state: EventLoopState,
    event: WindowEvent,
    answers: Answers,
)
    requires
        !handler_prevents(state, answers),
        !filter_prevents(answers),
        !breaks_off(state, event, answers),
        event is RedrawRequested || event is Resized || event is CloseRequested || event is Focused
            || event is KeyboardInput || (event matches WindowEvent::ScaleFactorChanged {
            fixed,
            ..
        } && !fixed),
    ensures
        script(state, EventTarget::Window, event, answers).1 == (EventLoopState {
            loop_error: answers.outcome,
            ..state
        }),
{
}

/// No event of a window changes what the program was built for, whether the application has a
/// handler, or how events are pumped.
pub proof fn law_settings_kept(
    state: EventLoopState,
    target: EventTarget,
    event: WindowEvent,
    answers: Answers,
)
    ensures
        ({
            let after = script(state, target, event, answers).1;
            &&& after.target == state.target
            &&& after.custom_application_handler == state.custom_application_handler
            &&& after.pumping_events_instantly == state.pumping_events_instantly
        }),
{
}

/// A finger other than the one that is followed goes unnoticed.
pub proof fn law_other_fingers_ignored(
    state: EventLoopState,
    id: u64,
    phase: TouchPhase,
    answers: Answers,
)
    requires
        state.current_touch_id is Some,
        state.current_touch_id != Some(id),
    ensures
        usual(state, WindowEvent::Touch { id, phase }, answers) == (exit(state), state),
{
    assert(seq![] + exit(state) =~= exit(state));
}

/// A finger that is put down while none is followed is followed until it is lifted, and looks to
/// the window like the left button: it is pressed where the finger went down and released where
/// it was lifted, and nothing is down afterwards.
pub proof fn law_touch_is_a_press(
    state: EventLoopState,
    id: u64,
    lifted: TouchPhase,
    down: Answers,
    up: Answers,
)
    requires
        state.current_touch_id is None,
        lifted == TouchPhase::Ended || lifted == TouchPhase::Cancelled,
    ensures
        ({
            let left = PointerEventButton::Left;
            let (first, between) = usual(
                state,
                WindowEvent::Touch { id, phase: TouchPhase::Started },
                down,
            );
            let (second, after) = usual(between, WindowEvent::Touch { id, phase: lifted }, up);
            &&& between.pressed && between.current_touch_id == Some(id)
            &&& first[1] == Action::ProcessMouseInput(
                MouseEvent::Pressed { position: down.position, button: left, click_count: 0 },
            )
            &&& second[1] == Action::ProcessMouseInput(
                MouseEvent::Released { position: up.position, button: left, click_count: 0 },
            )
            &&& after == (EventLoopState { pressed: false, current_touch_id: None, ..state })
        }),
{
}

/// While a button is down, leaving the window goes unnoticed, except in a browser, which would not
/// tell of the release.
pub proof fn law_drag_leaves_window(state: EventLoopState, answers: Answers)
    requires
        state.pressed,
    ensures
        !state.target.web ==> usual(state, WindowEvent::CursorLeft, answers) == (
            exit(state),
            state,
        ),
        state.target.web ==> {
            let after = usual(state, WindowEvent::CursorLeft, answers);
            &&& !after.1.pressed
            &&& after.0[0] == Action::ProcessMouseInput(MouseEvent::Exit)
        },
{
    assert(seq![] + exit(state) =~= exit(state));
}

} // verus!
