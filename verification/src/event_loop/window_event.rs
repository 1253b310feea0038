//! What is done about an event of a window.

use vstd::prelude::*;

use crate::event_loop::keys;
use crate::event_loop::state::EventLoopState;
use crate::event_loop::types::{
    ColorScheme, ElementState, Key, KeyEvent, KeyText, KeyboardInput, LogicalPoint, MouseButton,
    MouseEvent, NamedKey, PlatformEvent, PointerEventButton, ResizeDirection, Theme, TouchPhase,
    WindowEvent, WinitWindowEventResult,
};
use crate::platform::{PhysicalSize, PlatformError};

verus! {

/// The window that an event is for.
#[derive(Clone, Copy, Debug, PartialEq, Eq, Structural)]
pub enum EventTarget {
    /// The window is not known.
    Unknown,
    /// The window is known, but the windowing system has none for it.
    WithoutWindow,
    /// The window is known and is there.
    Window,
}

/// What is to be done next about an event.
#[derive(Debug)]
pub enum Action {
    /// Ask the handler of the application, with or without the window. The reply is a verdict.
    CallHandler { with_window: bool },
    /// Ask the filter of the window, if it has one. The reply is a verdict, if it has one.
    CallEventFilter,
    /// Pass the event on to the assistive technology.
    ForwardToAccessibility,
    /// Draw the window. The reply is an outcome.
    Draw,
    /// Tell the window its size. The reply is an outcome.
    Resize(PhysicalSize),
    /// Tell the window whether it is minimized, maximized or full screen.
    SyncWindowState,
    /// Dispatch an event to the window. The reply is an outcome.
    Dispatch(PlatformEvent),
    /// Tell the window whether it has the focus. The reply is an outcome.
    ActivationChanged(bool),
    /// Read the name of the platform that the browser runs on. The reply is the name.
    ReadNavigatorPlatform,
    /// Look up the character that stands for a key. The reply is the character.
    LookUpKey(NamedKey),
    /// Hand the window an event of an input method.
    ProcessKeyInput(KeyEvent),
    /// Find the edge that the cursor is on, given the last one. The reply is the edge.
    FindResizeDirection(Option<ResizeDirection>),
    /// Turn the position of the event into logical pixels. The reply is the position.
    FindLogicalPosition,
    /// Turn the turn of the wheel into logical pixels. The reply is the two parts of it.
    FindWheelDelta,
    /// Hand the window an event of the mouse.
    ProcessMouseInput(MouseEvent),
    /// Let the user resize the window by an edge.
    DragResize(Option<ResizeDirection>),
    /// Tell the window its color scheme.
    SetColorScheme(ColorScheme),
    /// Tell the renderer whether the window is covered.
    SetOccluded(bool),
    /// Leave the event loop.
    Exit,
}

/// The answer to an action.
#[derive(Debug)]
pub enum Reply {
    /// The action is done.
    Finished,
    /// What the handler of the application says.
    Verdict(WinitWindowEventResult),
    /// What the filter of the window says, if there is one.
    FilterVerdict(Option<WinitWindowEventResult>),
    /// What went wrong, if anything.
    Outcome(Option<PlatformError>),
    /// The name of the platform, if it can be read.
    NavigatorPlatform(Option<String>),
    /// The character that stands for a key, if there is one.
    KeyChar(Option<char>),
    /// The edge that the cursor is on.
    ResizeDirection(Option<ResizeDirection>),
    /// A position.
    Position(LogicalPoint),
    /// The turn of a wheel.
    WheelDelta(u32, u32),
}

/// What is waited for.
#[derive(Debug)]
pub enum Stage {
    /// The verdict of the handler on the event.
    Handler(WindowEvent),
    /// The verdict of the filter on the event.
    Filter(WindowEvent),
    /// The assistive technology.
    Accessibility(WindowEvent),
    /// The name of the platform, to find the meaning of a key.
    Platform(KeyboardInput),
    /// The character for the key, which is known to have a name.
    KeyChar(KeyboardInput),
    /// The outcome of an action, and whether the state of the window is looked at afterwards.
    Outcome { sync: bool },
    /// The renderer, before the state of the window is looked at.
    Occluded,
    /// The edge that the cursor is on.
    ResizeDirection,
    /// The position of the cursor.
    CursorPosition,
    /// The turn of the wheel.
    WheelDelta,
    /// The position of a finger.
    TouchPosition { id: u64, phase: TouchPhase },
    /// The last action but for leaving the loop.
    Finish,
    /// The last action.
    Last,
}

/// Where the handling of an event stands.
#[derive(Debug)]
pub enum Step {
    /// Nothing is left to do.
    Done,
    /// The action is to be done, and the reply handed back with the stage.
    Perform(Action, Stage),
}

/// Whether a reply is one to what is waited for.
pub open spec fn answers(stage: Stage, reply: Reply) -> bool {
    match stage {
        Stage::Handler(_) => reply is Verdict,
        Stage::Filter(_) => reply is FilterVerdict,
        Stage::Accessibility(_) => reply is Finished,
        Stage::Platform(_) => reply is NavigatorPlatform,
        Stage::KeyChar(_) => reply is KeyChar,
        Stage::Outcome { .. } => reply is Outcome,
        Stage::Occluded => reply is Finished,
        Stage::ResizeDirection => reply is ResizeDirection,
        Stage::CursorPosition => reply is Position,
        Stage::WheelDelta => reply is WheelDelta,
        Stage::TouchPosition { .. } => reply is Position,
        Stage::Finish => reply is Finished,
        Stage::Last => reply is Finished || reply is Verdict,
    }
}

/// The end of an event: the loop is left if anything went wrong in it.
pub open spec fn finish(state: EventLoopState) -> Step {
    if state.loop_error is Some {
        Step::Perform(Action::Exit, Stage::Last)
    } else {
        Step::Done
    }
}

/// The first step for an event.
pub open spec fn first_step(
    state: EventLoopState,
    target: EventTarget,
    event: WindowEvent,
) -> Step {
    match target {
        EventTarget::Unknown => if state.custom_application_handler {
            Step::Perform(Action::CallHandler { with_window: false }, Stage::Last)
        } else {
            Step::Done
        },
        EventTarget::WithoutWindow => Step::Done,
        EventTarget::Window => if state.custom_application_handler {
            Step::Perform(Action::CallHandler { with_window: true }, Stage::Handler(event))
        } else {
            Step::Perform(Action::CallEventFilter, Stage::Filter(event))
        },
    }
}

/// The event that a key with the given text is dispatched as; `None` where the application is not
/// told.
pub open spec fn key_event(input: KeyboardInput, text: KeyText) -> Option<PlatformEvent> {
    match input.state {
        ElementState::Pressed => if input.repeat {
            Some(PlatformEvent::KeyPressRepeated(text))
        } else if input.is_synthetic && !keys::is_modifier(input.key) {
            None
        } else {
            Some(PlatformEvent::KeyPressed(text))
        },
        ElementState::Released => Some(PlatformEvent::KeyReleased(text)),
    }
}

/// The text of a key, given the character that stands for it.
pub open spec fn key_text(input: KeyboardInput, special: Option<char>) -> Option<KeyText> {
    match (input.key, special) {
        (Key::Named(_), Some(c)) => Some(KeyText::Special(c)),
        (Key::Character(text), _) => Some(KeyText::Text(text)),
        _ => match input.text {
            Some(text) => Some(KeyText::Text(text)),
            None => None,
        },
    }
}

/// The step for a key whose text is known.
pub open spec fn key_step(input: KeyboardInput, special: Option<char>) -> Step {
    match key_text(input, special) {
        Some(text) => match key_event(input, text) {
            Some(event) => Step::Perform(Action::Dispatch(event), Stage::Outcome { sync: false }),
            None => Step::Done,
        },
        None => Step::Done,
    }
}

/// The key as the application knows it.
pub open spec fn meant(input: KeyboardInput, swap: bool) -> KeyboardInput {
    KeyboardInput {
        key: if swap {
            keys::swapped(input.key)
        } else {
            input.key
        },
        ..input
    }
}

/// The step for a key, once it is known whether command and control are swapped.
pub open spec fn keyboard_step(input: KeyboardInput, swap: bool) -> Step {
    let input = meant(input, swap);
    match input.key {
        Key::Named(name) => Step::Perform(Action::LookUpKey(name), Stage::KeyChar(input)),
        _ => key_step(input, None),
    }
}

/// The usual handling of an event: the next state and the first step.
pub open spec fn handled(state: EventLoopState, event: WindowEvent) -> (EventLoopState, Step) {
    let outcome = Stage::Outcome { sync: false };
    match event {
        WindowEvent::RedrawRequested => (state, Step::Perform(Action::Draw, outcome)),
        WindowEvent::Resized(size) => (
            state,
            Step::Perform(Action::Resize(size), Stage::Outcome { sync: true }),
        ),
        WindowEvent::CloseRequested => (
            state,
            Step::Perform(Action::Dispatch(PlatformEvent::CloseRequested), outcome),
        ),
        WindowEvent::Focused(focus) => (
            state,
            Step::Perform(Action::ActivationChanged(focus), outcome),
        ),
        WindowEvent::KeyboardInput(input) => (
            state,
            if state.target.apple {
                keyboard_step(input, true)
            } else if state.target.web {
                Step::Perform(Action::ReadNavigatorPlatform, Stage::Platform(input))
            } else {
                keyboard_step(input, false)
            },
        ),
        WindowEvent::ImePreedit(preedit_text, selection) => (
            state,
            Step::Perform(
                Action::ProcessKeyInput(
                    KeyEvent::UpdateComposition {
                        preedit_text,
                        preedit_selection: match selection {
                            Some((from, to)) => Some((from as i32, to as i32)),
                            None => None,
                        },
                    },
                ),
                Stage::Finish,
            ),
        ),
        WindowEvent::ImeCommit(text) => (
            state,
            Step::Perform(
                Action::ProcessKeyInput(KeyEvent::CommitComposition { text }),
                Stage::Finish,
            ),
        ),
        WindowEvent::CursorMoved => (
            state,
            Step::Perform(
                Action::FindResizeDirection(state.current_resize_direction),
                Stage::ResizeDirection,
            ),
        ),
        WindowEvent::CursorLeft => if state.target.web || !state.pressed {
            (
                EventLoopState { pressed: false, ..state },
                Step::Perform(Action::ProcessMouseInput(MouseEvent::Exit), Stage::Finish),
            )
        } else {
            (state, finish(state))
        },
        WindowEvent::MouseWheel => (
            state,
            Step::Perform(Action::FindWheelDelta, Stage::WheelDelta),
        ),
        WindowEvent::MouseInput { state: ElementState::Pressed, button } => if button
            == MouseButton::Left && state.current_resize_direction is Some {
            (
                state,
                Step::Perform(Action::DragResize(state.current_resize_direction), Stage::Last),
            )
        } else {
            (
                EventLoopState { pressed: true, ..state },
                Step::Perform(
                    Action::ProcessMouseInput(
                        MouseEvent::Pressed {
                            position: state.cursor_pos,
                            button: button.spec_pointer_button(),
                            click_count: 0,
                        },
                    ),
                    Stage::Finish,
                ),
            )
        },
        WindowEvent::MouseInput { state: ElementState::Released, button } => (
            EventLoopState { pressed: false, ..state },
            Step::Perform(
                Action::ProcessMouseInput(
                    MouseEvent::Released {
                        position: state.cursor_pos,
                        button: button.spec_pointer_button(),
                        click_count: 0,
                    },
                ),
                Stage::Finish,
            ),
        ),
        WindowEvent::Touch { id, phase } => if state.current_touch_id == Some(id)
            || state.current_touch_id is None {
            (
                state,
                Step::Perform(Action::FindLogicalPosition, Stage::TouchPosition { id, phase }),
            )
        } else {
            (state, finish(state))
        },
        WindowEvent::ScaleFactorChanged { scale_factor, fixed } => if fixed {
            (state, finish(state))
        } else {
            (
                state,
                Step::Perform(
                    Action::Dispatch(PlatformEvent::ScaleFactorChanged(scale_factor)),
                    outcome,
                ),
            )
        },
        WindowEvent::ThemeChanged(theme) => (
            state,
            Step::Perform(
                Action::SetColorScheme(
                    match theme {
                        Theme::Dark => ColorScheme::Dark,
                        Theme::Light => ColorScheme::Light,
                    },
                ),
                Stage::Finish,
            ),
        ),
        WindowEvent::Occluded(covered) => (
            state,
            Step::Perform(Action::SetOccluded(covered), Stage::Occluded),
        ),
        WindowEvent::Other => (state, finish(state)),
    }
}

/// The state and the event of the mouse for a finger at a position.
pub open spec fn touched(
    state: EventLoopState,
    id: u64,
    phase: TouchPhase,
    position: LogicalPoint,
) -> (EventLoopState, MouseEvent) {
    let button = PointerEventButton::Left;
    match phase {
        TouchPhase::Started => (
            EventLoopState {
                pressed: true,
                current_touch_id: if state.current_touch_id is None {
                    Some(id)
                } else {
                    state.current_touch_id
                },
                ..state
            },
            MouseEvent::Pressed { position, button, click_count: 0 },
        ),
        TouchPhase::Moved => (state, MouseEvent::Moved { position }),
        TouchPhase::Ended | TouchPhase::Cancelled => (
            EventLoopState { pressed: false, current_touch_id: None, ..state },
            MouseEvent::Released { position, button, click_count: 0 },
        ),
    }
}

/// The next state and step, given the reply to what was waited for.
pub open spec fn next_step(state: EventLoopState, stage: Stage, reply: Reply) -> (
    EventLoopState,
    Step,
) {
    match (stage, reply) {
        (Stage::Handler(event), Reply::Verdict(verdict)) => match verdict {
            WinitWindowEventResult::PreventDefault => (state, Step::Done),
            WinitWindowEventResult::Propagate => (
                state,
                Step::Perform(Action::CallEventFilter, Stage::Filter(event)),
            ),
        },
        (Stage::Filter(event), Reply::FilterVerdict(verdict)) => if verdict == Some(
            WinitWindowEventResult::PreventDefault,
        ) {
            (state, Step::Done)
        } else if state.target.accessibility {
            (state, Step::Perform(Action::ForwardToAccessibility, Stage::Accessibility(event)))
        } else {
            handled(state, event)
        },
        (Stage::Accessibility(event), _) => handled(state, event),
        (Stage::Platform(input), Reply::NavigatorPlatform(platform)) => (
            state,
            keyboard_step(input, platform matches Some(name) && keys::names_apple(name@)),
        ),
        (Stage::KeyChar(input), Reply::KeyChar(special)) => (state, key_step(input, special)),
        (Stage::Outcome { sync }, Reply::Outcome(error)) => {
            let state = EventLoopState { loop_error: error, ..state };
            (
                state,
                if sync {
                    Step::Perform(Action::SyncWindowState, Stage::Finish)
                } else {
                    finish(state)
                },
            )
        },
        (Stage::Occluded, _) => (state, Step::Perform(Action::SyncWindowState, Stage::Finish)),
        (Stage::ResizeDirection, Reply::ResizeDirection(direction)) => (
            EventLoopState { current_resize_direction: direction, ..state },
            Step::Perform(Action::FindLogicalPosition, Stage::CursorPosition),
        ),
        (Stage::CursorPosition, Reply::Position(position)) => (
            EventLoopState { cursor_pos: position, ..state },
            Step::Perform(
                Action::ProcessMouseInput(MouseEvent::Moved { position }),
                Stage::Finish,
            ),
        ),
        (Stage::WheelDelta, Reply::WheelDelta(delta_x, delta_y)) => (
            state,
            Step::Perform(
                Action::ProcessMouseInput(
                    MouseEvent::Wheel { position: state.cursor_pos, delta_x, delta_y },
                ),
                Stage::Finish,
            ),
        ),
        (Stage::TouchPosition { id, phase }, Reply::Position(position)) => {
            let (state, event) = touched(state, id, phase, position);
            (state, Step::Perform(Action::ProcessMouseInput(event), Stage::Finish))
        },
        (Stage::Finish, _) => (state, finish(state)),
        _ => (state, Step::Done),
    }
}

impl EventLoopState {
    /// Begin with an event of a window.
    pub fn window_event(&self, target: EventTarget, event: WindowEvent) -> (step: Step)
        ensures
            step == first_step(*self, target, event),
    {
        match target {
            EventTarget::Unknown => if self.custom_application_handler {
                Step::Perform(Action::CallHandler { with_window: false }, Stage::Last)
            } else {
                Step::Done
            },
            EventTarget::WithoutWindow => Step::Done,
            EventTarget::Window => if self.custom_application_handler {
                Step::Perform(Action::CallHandler { with_window: true }, Stage::Handler(event))
            } else {
                Step::Perform(Action::CallEventFilter, Stage::Filter(event))
            },
        }
    }

    /// Go on with an event of a window, given the reply to what was waited for.
    pub fn resume(&mut self, stage: Stage, reply: Reply) -> (step: Step)
        requires
            answers(stage, reply),
        ensures
            (*final(self), step) == next_step(*old(self), stage, reply),
    {
        match (stage, reply) {
            (Stage::Handler(event), Reply::Verdict(verdict)) => match verdict {
                WinitWindowEventResult::PreventDefault => Step::Done,
                WinitWindowEventResult::Propagate => Step::Perform(
                    Action::CallEventFilter,
                    Stage::Filter(event),
                ),
            },
            (Stage::Filter(event), Reply::FilterVerdict(verdict)) => {
                match verdict {
                    Some(WinitWindowEventResult::PreventDefault) => {
                        return Step::Done;
                    },
                    _ => {},
                }
                if self.target.accessibility {
                    Step::Perform(Action::ForwardToAccessibility, Stage::Accessibility(event))
                } else {
                    self.handle(event)
                }
            },
            (Stage::Accessibility(event), _) => self.handle(event),
            (Stage::Platform(input), Reply::NavigatorPlatform(platform)) => {
                let swap = keys::is_apple_platform(platform);
                keyboard(input, swap)
            },
            (Stage::KeyChar(input), Reply::KeyChar(special)) => dispatch_key(input, special),
            (Stage::Outcome { sync }, Reply::Outcome(error)) => {
                self.loop_error = error;
                if sync {
                    Step::Perform(Action::SyncWindowState, Stage::Finish)
                } else {
                    self.finish()
                }
            },
            (Stage::Occluded, _) => Step::Perform(Action::SyncWindowState, Stage::Finish),
            (Stage::ResizeDirection, Reply::ResizeDirection(direction)) => {
                self.current_resize_direction = direction;
                Step::Perform(Action::FindLogicalPosition, Stage::CursorPosition)
            },
            (Stage::CursorPosition, Reply::Position(position)) => {
                self.cursor_pos = position;
                Step::Perform(
                    Action::ProcessMouseInput(MouseEvent::Moved { position }),
                    Stage::Finish,
                )
            },
            (Stage::WheelDelta, Reply::WheelDelta(delta_x, delta_y)) => Step::Perform(
                Action::ProcessMouseInput(
                    MouseEvent::Wheel { position: self.cursor_pos, delta_x, delta_y },
                ),
                Stage::Finish,
            ),
            (Stage::TouchPosition { id, phase }, Reply::Position(position)) => {
                let event = self.touch(id, phase, position);
                Step::Perform(Action::ProcessMouseInput(event), Stage::Finish)
            },
            (Stage::Finish, _) => self.finish(),
            _ => Step::Done,
        }
    }

    fn finish(&self) -> (step: Step)
        ensures
            step == finish(*self),
    {
        match self.loop_error {
            Some(_) => Step::Perform(Action::Exit, Stage::Last),
            None => Step::Done,
        }
    }

    fn touch(&mut self, id: u64, phase: TouchPhase, position: LogicalPoint) -> (event: MouseEvent)
        ensures
            (*final(self), event) == touched(*old(self), id, phase, position),
    {
        let button = PointerEventButton::Left;
        match phase {
            TouchPhase::Started => {
                self.pressed = true;
                if self.current_touch_id.is_none() {
                    self.current_touch_id = Some(id);
                }
                MouseEvent::Pressed { position, button, click_count: 0 }
            },
            TouchPhase::Ended | TouchPhase::Cancelled => {
                self.pressed = false;
                self.current_touch_id = None;
                MouseEvent::Released { position, button, click_count: 0 }
            },
            TouchPhase::Moved => MouseEvent::Moved { position },
        }
    }

    fn handle(&mut self, event: WindowEvent) -> (step: Step)
        ensures
            (*final(self), step) == handled(*old(self), event),
    {
        let outcome = Stage::Outcome { sync: false };
        match event {
            WindowEvent::RedrawRequested => Step::Perform(Action::Draw, outcome),
            WindowEvent::Resized(size) => Step::Perform(
                Action::Resize(size),
                Stage::Outcome { sync: true },
            ),
            WindowEvent::CloseRequested => Step::Perform(
                Action::Dispatch(PlatformEvent::CloseRequested),
                outcome,
            ),
            WindowEvent::Focused(have_focus) => Step::Perform(
                Action::ActivationChanged(have_focus),
                outcome,
            ),
            WindowEvent::KeyboardInput(input) => {
                if self.target.apple {
                    keyboard(input, true)
                } else if self.target.web {
                    Step::Perform(Action::ReadNavigatorPlatform, Stage::Platform(input))
                } else {
                    keyboard(input, false)
                }
            },
            WindowEvent::ImePreedit(preedit_text, selection) => {
                let preedit_selection = match selection {
                    Some((from, to)) => Some(
                        (
                            #[verifier::truncate]
                            (from as i32),
                            #[verifier::truncate]
                            (to as i32),
                        ),
                    ),
                    None => None,
                };
                Step::Perform(
                    Action::ProcessKeyInput(
                        KeyEvent::UpdateComposition { preedit_text, preedit_selection },
                    ),
                    Stage::Finish,
                )
            },
            WindowEvent::ImeCommit(text) => Step::Perform(
                Action::ProcessKeyInput(KeyEvent::CommitComposition { text }),
                Stage::Finish,
            ),
            WindowEvent::CursorMoved => Step::Perform(
                Action::FindResizeDirection(self.current_resize_direction),
                Stage::ResizeDirection,
            ),
            WindowEvent::CursorLeft => {
                if self.target.web || !self.pressed {
                    self.pressed = false;
                    Step::Perform(Action::ProcessMouseInput(MouseEvent::Exit), Stage::Finish)
                } else {
                    self.finish()
                }
            },
            WindowEvent::MouseWheel => Step::Perform(Action::FindWheelDelta, Stage::WheelDelta),
            WindowEvent::MouseInput { state, button } => {
                let pointer_button = button.pointer_button();
                let event = match state {
                    ElementState::Pressed => {
                        if pointer_button == PointerEventButton::Left
                            && self.current_resize_direction.is_some() {
                            return Step::Perform(
                                Action::DragResize(self.current_resize_direction),
                                Stage::Last,
                            );
                        }
                        self.pressed = true;
                        MouseEvent::Pressed {
                            position: self.cursor_pos,
                            button: pointer_button,
                            click_count: 0,
                        }
                    },
                    ElementState::Released => {
                        self.pressed = false;
                        MouseEvent::Released {
                            position: self.cursor_pos,
                            button: pointer_button,
                            click_count: 0,
                        }
                    },
                };
                Step::Perform(Action::ProcessMouseInput(event), Stage::Finish)
            },
            WindowEvent::Touch { id, phase } => {
                let followed = match self.current_touch_id {
                    Some(current) => current == id,
                    None => true,
                };
                if followed {
                    Step::Perform(Action::FindLogicalPosition, Stage::TouchPosition { id, phase })
                } else {
                    self.finish()
                }
            },
            WindowEvent::ScaleFactorChanged { scale_factor, fixed } => {
                if fixed {
                    self.finish()
                } else {
                    Step::Perform(
                        Action::Dispatch(PlatformEvent::ScaleFactorChanged(scale_factor)),
                        outcome,
                    )
                }
            },
            WindowEvent::ThemeChanged(theme) => {
                let scheme = match theme {
                    Theme::Dark => ColorScheme::Dark,
                    Theme::Light => ColorScheme::Light,
                };
                Step::Perform(Action::SetColorScheme(scheme), Stage::Finish)
            },
            WindowEvent::Occluded(covered) => Step::Perform(
                Action::SetOccluded(covered),
                Stage::Occluded,
            ),
            WindowEvent::Other => self.finish(),
        }
    }
}

fn keyboard(input: KeyboardInput, swap: bool) -> (step: Step)
    ensures
        step == keyboard_step(input, swap),
{
    let input = KeyboardInput { key: keys::swap_cmd_ctrl(input.key, swap), ..input };
    match input.key {
        Key::Named(name) => Step::Perform(Action::LookUpKey(name), Stage::KeyChar(input)),
        _ => dispatch_key(input, None),
    }
}

fn dispatch_key(input: KeyboardInput, special: Option<char>) -> (step: Step)
    ensures
        step == key_step(input, special),
{
    let modifier = keys::modifier(&input.key);
    let text = match (input.key, special) {
        (Key::Named(_), Some(c)) => KeyText::Special(c),
        (Key::Character(text), _) => KeyText::Text(text),
        _ => match input.text {
            Some(text) => KeyText::Text(text),
            None => {
                return Step::Done;
            },
        },
    };
    let event = match input.state {
        ElementState::Pressed => {
            if input.repeat {
                PlatformEvent::KeyPressRepeated(text)
            } else {
                // Synthetic events are sent when the focus is acquired, for all the keys that are
                // pressed. Only modifiers among them are forwarded.
                if input.is_synthetic && !modifier {
                    return Step::Done;
                }
                PlatformEvent::KeyPressed(text)
            }
        },
        ElementState::Released => PlatformEvent::KeyReleased(text),
    };
    Step::Perform(Action::Dispatch(event), Stage::Outcome { sync: false })
}

} // verus!
