//! What an application and a window can rely on when an event of the window is handled.

use vstd::prelude::*;

use crate::event_loop::keys;
use crate::event_loop::script;
use crate::event_loop::script::Answers;
use crate::event_loop::state::EventLoopState;
use crate::event_loop::types::{
    ColorScheme, ElementState, Key, KeyEvent, KeyText, KeyboardInput, MouseButton, MouseEvent,
    NamedKey, PlatformEvent, PointerEventButton, Theme, TouchPhase, WindowEvent,
    WinitWindowEventResult,
};
use crate::event_loop::window_event;
use crate::event_loop::window_event::{Action, EventTarget};
use crate::platform::PhysicalSize;

verus! {

/// The actions for an event of a window that is there, as the steps ask for them one by one, and the
/// state after the last of them.
pub open spec fn done(state: EventLoopState, event: WindowEvent, answers: Answers) -> (
    Seq<Action>,
    EventLoopState,
) {
    script::course(
        state,
        window_event::first_step(state, EventTarget::Window, event),
        answers,
    )
}

/// Whether neither the handler of the application nor the filter of the window says that an event is
/// not to be handled.
pub open spec fn allowed(state: EventLoopState, answers: Answers) -> bool {
    &&& state.custom_application_handler ==> answers.handler == WinitWindowEventResult::Propagate
    &&& answers.filter is None || answers.filter == Some(WinitWindowEventResult::Propagate)
}

/// The actions before an event is handled: the handler is asked if there is one, then the filter,
/// and the assistive technology is told if it is supported.
pub open spec fn before(state: EventLoopState) -> Seq<Action> {
    let asked = if state.custom_application_handler {
        seq![Action::CallHandler { with_window: true }, Action::CallEventFilter]
    } else {
        seq![Action::CallEventFilter]
    };
    if state.target.accessibility {
        asked.push(Action::ForwardToAccessibility)
    } else {
        asked
    }
}

proof fn lemma_done(state: EventLoopState, event: WindowEvent, answers: Answers)
    requires
        allowed(state, answers),
    ensures
        done(state, event, answers).0 == before(state) + script::usual(state, event, answers).0,
        done(state, event, answers).1 == script::usual(state, event, answers).1,
{
    script::law_script(state, EventTarget::Window, event, answers);
    assert(before(state) =~= script::questions(state));
}

proof fn lemma_not_allowed(state: EventLoopState, event: WindowEvent, answers: Answers)
    requires
        !allowed(state, answers),
    ensures
        done(state, event, answers).1 == state,
        forall|i: int|
            0 <= i < done(state, event, answers).0.len() ==> (#[trigger] done(
                state,
                event,
                answers,
            ).0[i] is CallHandler || done(state, event, answers).0[i] is CallEventFilter),
{
    script::law_script(state, EventTarget::Window, event, answers);
    match answers.handler {
        WinitWindowEventResult::Propagate => {},
        WinitWindowEventResult::PreventDefault => {},
    }
    match answers.filter {
        Some(WinitWindowEventResult::Propagate) => {},
        Some(WinitWindowEventResult::PreventDefault) => {},
        None => {},
    }
    script::law_prevented(state, event, answers);
}

/// Before anything is done about an event, the handler is asked if there is one, then the filter, and
/// then the assistive technology is told if it is supported. A verdict against the event ends it there
/// and then, without a trace in the state.
pub proof fn law_asked_first(state: EventLoopState, event: WindowEvent, answers: Answers)
    ensures
        ({
            let (actions, after) = done(state, event, answers);
            let handler = Action::CallHandler { with_window: true };
            let prevents = WinitWindowEventResult::PreventDefault;
            &&& state.custom_application_handler ==> actions.len() > 0 && actions[0] == handler
            &&& state.custom_application_handler && answers.handler == prevents ==> actions.len()
                == 1 && after == state
            &&& state.custom_application_handler && answers.handler != prevents ==> actions.len()
                > 1 && actions[1] == Action::CallEventFilter
            &&& state.custom_application_handler && answers.handler != prevents && answers.filter
                == Some(prevents) ==> actions.len() == 2 && after == state
            &&& !state.custom_application_handler ==> actions.len() > 0 && actions[0]
                == Action::CallEventFilter
            &&& !state.custom_application_handler && answers.filter == Some(prevents)
                ==> actions.len() == 1 && after == state
            &&& allowed(state, answers) && state.target.accessibility ==> actions.contains(
                Action::ForwardToAccessibility,
            )
        }),
{
    script::law_script(state, EventTarget::Window, event, answers);
    if allowed(state, answers) {
        lemma_done(state, event, answers);
        let at = before(state).len() - 1;
        assert(done(state, event, answers).0[at] == before(state)[at]);
    }
}

/// Where an event is handled, each of the questions is asked once, in this order, before all else.
pub proof fn law_questions_in_order(state: EventLoopState, event: WindowEvent, answers: Answers)
    requires
        allowed(state, answers),
    ensures
        ({
            let actions = done(state, event, answers).0;
            let (h, a) = (
                if state.custom_application_handler {
                    1int
                } else {
                    0int
                },
                if state.target.accessibility {
                    1int
                } else {
                    0int
                },
            );
            &&& actions.len() >= h + 1 + a
            &&& h == 1 ==> actions[0] == (Action::CallHandler { with_window: true })
            &&& actions[h] == Action::CallEventFilter
            &&& a == 1 ==> actions[h + 1] == Action::ForwardToAccessibility
            &&& before(state).len() == h + 1 + a
            &&& actions.take(h + 1 + a) == before(state)
        }),
{
    lemma_done(state, event, answers);
    let actions = done(state, event, answers).0;
    assert(actions.take(before(state).len() as int) =~= before(state));
}

/// A redraw draws the window and nothing else; a request to close is passed on; a change of the focus
/// is told. What came of it is the error of the loop from then on, whatever was there before, and an
/// error ends the loop.
pub proof fn law_requests(state: EventLoopState, focus: bool, answers: Answers)
    requires
        allowed(state, answers),
    ensures
        ({
            let end = if answers.outcome is Some {
                seq![Action::Exit]
            } else {
                seq![]
            };
            let after = EventLoopState { loop_error: answers.outcome, ..state };
            let close = Action::Dispatch(PlatformEvent::CloseRequested);
            &&& done(state, WindowEvent::RedrawRequested, answers) == (
                before(state) + seq![Action::Draw] + end,
                after,
            )
            &&& done(state, WindowEvent::CloseRequested, answers) == (
                before(state) + seq![close] + end,
                after,
            )
            &&& done(state, WindowEvent::Focused(focus), answers) == (
                before(state) + seq![Action::ActivationChanged(focus)] + end,
                after,
            )
        }),
{
    let end = if answers.outcome is Some {
        seq![Action::Exit]
    } else {
        seq![]
    };
    let close = Action::Dispatch(PlatformEvent::CloseRequested);
    lemma_done(state, WindowEvent::RedrawRequested, answers);
    lemma_done(state, WindowEvent::CloseRequested, answers);
    lemma_done(state, WindowEvent::Focused(focus), answers);
    assert(done(state, WindowEvent::RedrawRequested, answers).0 =~= before(state) + seq![
        Action::Draw,
    ] + end);
    assert(done(state, WindowEvent::CloseRequested, answers).0 =~= before(state) + seq![close]
        + end);
    assert(done(state, WindowEvent::Focused(focus), answers).0 =~= before(state) + seq![
        Action::ActivationChanged(focus),
    ] + end);
}

/// A window is told its new size, and afterwards, even if that failed, whether it is minimized,
/// maximized or full screen. Covering a window is told to the renderer, and the same is looked at;
/// that cannot fail, and leaves an earlier error of the loop, which then ends it.
pub proof fn law_size_and_cover(
    state: EventLoopState,
    size: PhysicalSize,
    covered: bool,
    answers: Answers,
)
    requires
        allowed(state, answers),
    ensures
        done(state, WindowEvent::Resized(size), answers) == (
            before(state) + seq![Action::Resize(size), Action::SyncWindowState] + (
            if answers.outcome is Some {
                seq![Action::Exit]
            } else {
                seq![]
            }),
            EventLoopState { loop_error: answers.outcome, ..state },
        ),
        done(state, WindowEvent::Occluded(covered), answers) == (
            before(state) + seq![Action::SetOccluded(covered), Action::SyncWindowState] + (
            if state.loop_error is Some {
                seq![Action::Exit]
            } else {
                seq![]
            }),
            state,
        ),
{
    lemma_done(state, WindowEvent::Resized(size), answers);
    lemma_done(state, WindowEvent::Occluded(covered), answers);
    assert(done(state, WindowEvent::Resized(size), answers).0 =~= before(state) + seq![
        Action::Resize(size),
        Action::SyncWindowState,
    ] + (if answers.outcome is Some {
        seq![Action::Exit]
    } else {
        seq![]
    }));
    assert(done(state, WindowEvent::Occluded(covered), answers).0 =~= before(state) + seq![
        Action::SetOccluded(covered),
        Action::SyncWindowState,
    ] + (if state.loop_error is Some {
        seq![Action::Exit]
    } else {
        seq![]
    }));
}

/// A new scale factor is passed on as it is, unless the environment fixes another one: then nothing
/// is done, and an earlier error of the loop stays.
pub proof fn law_scale_factor(state: EventLoopState, scale_factor: u32, answers: Answers)
    requires
        allowed(state, answers),
    ensures
        done(state, WindowEvent::ScaleFactorChanged { scale_factor, fixed: false }, answers) == (
            before(state) + seq![Action::Dispatch(PlatformEvent::ScaleFactorChanged(scale_factor))]
                + (if answers.outcome is Some {
                seq![Action::Exit]
            } else {
                seq![]
            }),
            EventLoopState { loop_error: answers.outcome, ..state },
        ),
        done(state, WindowEvent::ScaleFactorChanged { scale_factor, fixed: true }, answers) == (
            before(state) + (if state.loop_error is Some {
                seq![Action::Exit]
            } else {
                seq![]
            }),
            state,
        ),
{
    let free = WindowEvent::ScaleFactorChanged { scale_factor, fixed: false };
    let fixed = WindowEvent::ScaleFactorChanged { scale_factor, fixed: true };
    lemma_done(state, free, answers);
    lemma_done(state, fixed, answers);
    assert(done(state, free, answers).0 =~= before(state) + seq![
        Action::Dispatch(PlatformEvent::ScaleFactorChanged(scale_factor)),
    ] + (if answers.outcome is Some {
        seq![Action::Exit]
    } else {
        seq![]
    }));
    assert(done(state, fixed, answers).0 =~= before(state) + (if state.loop_error is Some {
        seq![Action::Exit]
    } else {
        seq![]
    }));
}

/// The window follows the theme of the desktop, dark or light. An event that the loop has no part in
/// is left to the handler, the filter and the assistive technology.
pub proof fn law_theme_and_others(state: EventLoopState, answers: Answers)
    requires
        allowed(state, answers),
    ensures
        ({
            let end = if state.loop_error is Some {
                seq![Action::Exit]
            } else {
                seq![]
            };
            &&& done(state, WindowEvent::ThemeChanged(Theme::Dark), answers) == (
                before(state) + seq![Action::SetColorScheme(ColorScheme::Dark)] + end,
                state,
            )
            &&& done(state, WindowEvent::ThemeChanged(Theme::Light), answers) == (
                before(state) + seq![Action::SetColorScheme(ColorScheme::Light)] + end,
                state,
            )
            &&& done(state, WindowEvent::Other, answers) == (before(state) + end, state)
        }),
{
    let end = if state.loop_error is Some {
        seq![Action::Exit]
    } else {
        seq![]
    };
    lemma_done(state, WindowEvent::ThemeChanged(Theme::Dark), answers);
    lemma_done(state, WindowEvent::ThemeChanged(Theme::Light), answers);
    lemma_done(state, WindowEvent::Other, answers);
    assert(done(state, WindowEvent::ThemeChanged(Theme::Dark), answers).0 =~= before(state) + seq![
        Action::SetColorScheme(ColorScheme::Dark),
    ] + end);
    assert(done(state, WindowEvent::ThemeChanged(Theme::Light), answers).0 =~= before(state) + seq![
        Action::SetColorScheme(ColorScheme::Light),
    ] + end);
    assert(done(state, WindowEvent::Other, answers).0 =~= before(state) + end);
}

/// The text of an input method reaches the window letter for letter, while it is composed and when it
/// is done. The ends of the selection are kept as far as 31 bits hold them.
pub proof fn law_input_method(
    state: EventLoopState,
    text: String,
    from: usize,
    to: usize,
    answers: Answers,
)
    requires
        allowed(state, answers),
    ensures
        ({
            let end = if state.loop_error is Some {
                seq![Action::Exit]
            } else {
                seq![]
            };
            &&& done(state, WindowEvent::ImeCommit(text), answers) == (
                before(state) + seq![
                    Action::ProcessKeyInput(KeyEvent::CommitComposition { text }),
                ] + end,
                state,
            )
            &&& done(state, WindowEvent::ImePreedit(text, None), answers) == (
                before(state) + seq![
                    Action::ProcessKeyInput(
                        KeyEvent::UpdateComposition { preedit_text: text, preedit_selection: None },
                    ),
                ] + end,
                state,
            )
            &&& done(state, WindowEvent::ImePreedit(text, Some((from, to))), answers) == (
                before(state) + seq![
                    Action::ProcessKeyInput(
                        KeyEvent::UpdateComposition {
                            preedit_text: text,
                            preedit_selection: Some((from as i32, to as i32)),
                        },
                    ),
                ] + end,
                state,
            )
            &&& from <= i32::MAX ==> (from as i32) == from
            &&& to <= i32::MAX ==> (to as i32) == to
        }),
{
    let end = if state.loop_error is Some {
        seq![Action::Exit]
    } else {
        seq![]
    };
    let commit = WindowEvent::ImeCommit(text);
    let plain = WindowEvent::ImePreedit(text, None);
    let selected = WindowEvent::ImePreedit(text, Some((from, to)));
    lemma_done(state, commit, answers);
    lemma_done(state, plain, answers);
    lemma_done(state, selected, answers);
    assert(done(state, commit, answers).0 =~= before(state) + seq![
        Action::ProcessKeyInput(KeyEvent::CommitComposition { text }),
    ] + end);
    assert(done(state, plain, answers).0 =~= before(state) + seq![
        Action::ProcessKeyInput(
            KeyEvent::UpdateComposition { preedit_text: text, preedit_selection: None },
        ),
    ] + end);
    assert(done(state, selected, answers).0 =~= before(state) + seq![
        Action::ProcessKeyInput(
            KeyEvent::UpdateComposition {
                preedit_text: text,
                preedit_selection: Some((from as i32, to as i32)),
            },
        ),
    ] + end);
}

/// A moved cursor is looked up on the edges, given the edge it was on, and the window is told of the
/// new position. Edge and position are remembered, and nothing else is touched.
pub proof fn law_cursor_moves(state: EventLoopState, answers: Answers)
    requires
        allowed(state, answers),
    ensures
        ({
            let (actions, after) = done(state, WindowEvent::CursorMoved, answers);
            &&& actions == before(state) + seq![
                Action::FindResizeDirection(state.current_resize_direction),
                Action::FindLogicalPosition,
                Action::ProcessMouseInput(MouseEvent::Moved { position: answers.position }),
            ] + (if state.loop_error is Some {
                seq![Action::Exit]
            } else {
                seq![]
            })
            &&& after.cursor_pos == answers.position
            &&& after.current_resize_direction == answers.direction
            &&& after.pressed == state.pressed
            &&& after.current_touch_id == state.current_touch_id
            &&& after.loop_error == state.loop_error
        }),
{
    lemma_done(state, WindowEvent::CursorMoved, answers);
    assert(done(state, WindowEvent::CursorMoved, answers).0 =~= before(state) + seq![
        Action::FindResizeDirection(state.current_resize_direction),
        Action::FindLogicalPosition,
        Action::ProcessMouseInput(MouseEvent::Moved { position: answers.position }),
    ] + (if state.loop_error is Some {
        seq![Action::Exit]
    } else {
        seq![]
    }));
}

/// The window is told that the cursor left it unless a button is down outside of a browser. No button
/// is down then, in the eyes of the loop; otherwise nothing changes.
pub proof fn law_cursor_leaves(state: EventLoopState, answers: Answers)
    requires
        allowed(state, answers),
    ensures
        ({
            let (actions, after) = done(state, WindowEvent::CursorLeft, answers);
            let told = state.target.web || !state.pressed;
            &&& actions == before(state) + (if told {
                seq![Action::ProcessMouseInput(MouseEvent::Exit)]
            } else {
                seq![]
            }) + (if state.loop_error is Some {
                seq![Action::Exit]
            } else {
                seq![]
            })
            &&& told ==> after == (EventLoopState { pressed: false, ..state })
            &&& !told ==> after == state
        }),
{
    lemma_done(state, WindowEvent::CursorLeft, answers);
    assert(done(state, WindowEvent::CursorLeft, answers).0 =~= before(state) + (
    if state.target.web || !state.pressed {
        seq![Action::ProcessMouseInput(MouseEvent::Exit)]
    } else {
        seq![]
    }) + (if state.loop_error is Some {
        seq![Action::Exit]
    } else {
        seq![]
    }));
}

/// What is pressed, released or turned happens where the cursor was last seen to move, whatever
/// touches and other events came in between that do not move it.
pub proof fn law_pointer_is_where_it_moved(
    state: EventLoopState,
    moved: Answers,
    pressed: Answers,
    button: MouseButton,
)
    requires
        allowed(state, moved),
        allowed(state, pressed),
        moved.direction is None,
    ensures
        ({
            let at = moved.position;
            let between = done(state, WindowEvent::CursorMoved, moved).1;
            let press = WindowEvent::MouseInput { state: ElementState::Pressed, button };
            let release = WindowEvent::MouseInput { state: ElementState::Released, button };
            let n = before(state).len() as int;
            &&& done(between, press, pressed).0[n] matches Action::ProcessMouseInput(
                MouseEvent::Pressed { position, .. },
            ) && position == at
            &&& done(between, release, pressed).0[n] matches Action::ProcessMouseInput(
                MouseEvent::Released { position, .. },
            ) && position == at
            &&& done(between, WindowEvent::MouseWheel, pressed).0[n + 1]
                matches Action::ProcessMouseInput(
                MouseEvent::Wheel { position, delta_x, delta_y },
            ) && position == at && (delta_x, delta_y) == pressed.wheel
        }),
{
    law_cursor_moves(state, moved);
    let between = done(state, WindowEvent::CursorMoved, moved).1;
    lemma_done(state, WindowEvent::CursorMoved, moved);
    lemma_done(between, WindowEvent::MouseInput { state: ElementState::Pressed, button }, pressed);
    lemma_done(between, WindowEvent::MouseInput { state: ElementState::Released, button }, pressed);
    lemma_done(between, WindowEvent::MouseWheel, pressed);
}

/// The turn of the wheel reaches the window as it was found, where the cursor is, and leaves the state
/// as it is.
pub proof fn law_wheel(state: EventLoopState, answers: Answers)
    requires
        allowed(state, answers),
    ensures
        done(state, WindowEvent::MouseWheel, answers) == (
            before(state) + seq![
                Action::FindWheelDelta,
                Action::ProcessMouseInput(
                    MouseEvent::Wheel {
                        position: state.cursor_pos,
                        delta_x: answers.wheel.0,
                        delta_y: answers.wheel.1,
                    },
                ),
            ] + (if state.loop_error is Some {
                seq![Action::Exit]
            } else {
                seq![]
            }),
            state,
        ),
{
    lemma_done(state, WindowEvent::MouseWheel, answers);
    assert(done(state, WindowEvent::MouseWheel, answers).0 =~= before(state) + seq![
        Action::FindWheelDelta,
        Action::ProcessMouseInput(
            MouseEvent::Wheel {
                position: state.cursor_pos,
                delta_x: answers.wheel.0,
                delta_y: answers.wheel.1,
            },
        ),
    ] + (if state.loop_error is Some {
        seq![Action::Exit]
    } else {
        seq![]
    }));
}

/// A button is down from its press to its release. The left one on an edge resizes the window
/// instead, and the window does not hear of it; every other button, and every button away from the
/// edges, is told to the window as the button that it is, at the cursor and not yet counted.
pub proof fn law_buttons(
    state: EventLoopState,
    button: MouseButton,
    told: PointerEventButton,
    answers: Answers,
)
    requires
        allowed(state, answers),
        match told {
            PointerEventButton::Left => button == MouseButton::Left,
            PointerEventButton::Right => button == MouseButton::Right,
            PointerEventButton::Middle => button == MouseButton::Middle,
            PointerEventButton::Back => button == MouseButton::Back,
            PointerEventButton::Forward => button == MouseButton::Forward,
            PointerEventButton::Other => button is Other,
        },
    ensures
        ({
            let press = WindowEvent::MouseInput { state: ElementState::Pressed, button };
            let release = WindowEvent::MouseInput { state: ElementState::Released, button };
            let end = if state.loop_error is Some {
                seq![Action::Exit]
            } else {
                seq![]
            };
            let position = state.cursor_pos;
            &&& done(state, release, answers) == (
                before(state) + seq![
                    Action::ProcessMouseInput(
                        MouseEvent::Released { position, button: told, click_count: 0 },
                    ),
                ] + end,
                EventLoopState { pressed: false, ..state },
            )
            &&& button == MouseButton::Left && state.current_resize_direction is Some ==> done(
                state,
                press,
                answers,
            ) == (
                before(state) + seq![Action::DragResize(state.current_resize_direction)],
                state,
            )
            &&& button != MouseButton::Left || state.current_resize_direction is None ==> done(
                state,
                press,
                answers,
            ) == (
                before(state) + seq![
                    Action::ProcessMouseInput(
                        MouseEvent::Pressed { position, button: told, click_count: 0 },
                    ),
                ] + end,
                EventLoopState { pressed: true, ..state },
            )
        }),
{
    let press = WindowEvent::MouseInput { state: ElementState::Pressed, button };
    let release = WindowEvent::MouseInput { state: ElementState::Released, button };
    let end = if state.loop_error is Some {
        seq![Action::Exit]
    } else {
        seq![]
    };
    let position = state.cursor_pos;
    lemma_done(state, press, answers);
    lemma_done(state, release, answers);
    assert(button.spec_pointer_button() == told);
    assert(done(state, release, answers).0 =~= before(state) + seq![
        Action::ProcessMouseInput(MouseEvent::Released { position, button: told, click_count: 0 }),
    ] + end);
    if button == MouseButton::Left && state.current_resize_direction is Some {
        assert(done(state, press, answers).0 =~= before(state) + seq![
            Action::DragResize(state.current_resize_direction),
        ]);
    } else {
        assert(done(state, press, answers).0 =~= before(state) + seq![
            Action::ProcessMouseInput(
                MouseEvent::Pressed { position, button: told, click_count: 0 },
            ),
        ] + end);
    }
}

/// A finger counts while none or this very one is followed, and does then what the left button does:
/// it is pressed where it is put down and followed from then on, moved where it moves, and released
/// and no longer followed where it is lifted or lost. It never moves the cursor. Any other finger goes
/// unnoticed.
pub proof fn law_fingers(state: EventLoopState, id: u64, phase: TouchPhase, answers: Answers)
    requires
        allowed(state, answers),
    ensures
        ({
            let (actions, after) = done(state, WindowEvent::Touch { id, phase }, answers);
            let end = if state.loop_error is Some {
                seq![Action::Exit]
            } else {
                seq![]
            };
            let at = answers.position;
            let left = PointerEventButton::Left;
            let counts = state.current_touch_id is None || state.current_touch_id == Some(id);
            let found = Action::FindLogicalPosition;
            &&& !counts ==> actions == before(state) + end && after == state
            &&& counts && phase == TouchPhase::Started ==> {
                &&& actions == before(state) + seq![
                    found,
                    Action::ProcessMouseInput(
                        MouseEvent::Pressed { position: at, button: left, click_count: 0 },
                    ),
                ] + end
                &&& after == (EventLoopState { pressed: true, current_touch_id: Some(id), ..state })
            }
            &&& counts && phase == TouchPhase::Moved ==> {
                &&& actions == before(state) + seq![
                    found,
                    Action::ProcessMouseInput(MouseEvent::Moved { position: at }),
                ] + end
                &&& after == state
            }
            &&& counts && (phase == TouchPhase::Ended || phase == TouchPhase::Cancelled) ==> {
                &&& actions == before(state) + seq![
                    found,
                    Action::ProcessMouseInput(
                        MouseEvent::Released { position: at, button: left, click_count: 0 },
                    ),
                ] + end
                &&& after == (EventLoopState { pressed: false, current_touch_id: None, ..state })
            }
        }),
{
    let event = WindowEvent::Touch { id, phase };
    lemma_done(state, event, answers);
    let actions = done(state, event, answers).0;
    let end = if state.loop_error is Some {
        seq![Action::Exit]
    } else {
        seq![]
    };
    let at = answers.position;
    let left = PointerEventButton::Left;
    let found = Action::FindLogicalPosition;
    if !(state.current_touch_id is None || state.current_touch_id == Some(id)) {
        assert(actions =~= before(state) + end);
    } else {
        match phase {
            TouchPhase::Started => {
                assert(actions =~= before(state) + seq![
                    found,
                    Action::ProcessMouseInput(
                        MouseEvent::Pressed { position: at, button: left, click_count: 0 },
                    ),
                ] + end);
            },
            TouchPhase::Moved => {
                assert(actions =~= before(state) + seq![
                    found,
                    Action::ProcessMouseInput(MouseEvent::Moved { position: at }),
                ] + end);
            },
            _ => {
                assert(actions =~= before(state) + seq![
                    found,
                    Action::ProcessMouseInput(
                        MouseEvent::Released { position: at, button: left, click_count: 0 },
                    ),
                ] + end);
            },
        }
    }
}

/// A key reaches the window as one event with its text, or not at all. The text is the character of
/// the key, if the key has a name and the look-up gives one; the letters of the key, if it makes
/// letters; and only otherwise the text that came with the event, if there is any. A press is told as
/// a press or, while the key repeats, as a repetition, and a release as a release. Of the presses that
/// are made up when the window gets the focus, only those of modifiers are told. A key that is not
/// told changes nothing, and does not end the loop.
pub proof fn law_keys(
    state: EventLoopState,
    input: KeyboardInput,
    text: Option<KeyText>,
    answers: Answers,
)
    requires
        allowed(state, answers),
        match input.key {
            Key::Character(letters) => text == Some(KeyText::Text(letters)),
            Key::Named(_) => match (answers.key_char, input.text) {
                (Some(c), _) => text == Some(KeyText::Special(c)),
                (None, Some(with)) => text == Some(KeyText::Text(with)),
                (None, None) => text is None,
            },
            Key::Other => match input.text {
                Some(with) => text == Some(KeyText::Text(with)),
                None => text is None,
            },
        },
    ensures
        ({
            let (actions, after) = done(state, WindowEvent::KeyboardInput(input), answers);
            let asked = before(state) + script::key_questions(state, input, answers);
            let end = if answers.outcome is Some {
                seq![Action::Exit]
            } else {
                seq![]
            };
            let failed = EventLoopState { loop_error: answers.outcome, ..state };
            let modifier = input.key == Key::Named(NamedKey::Control) || input.key == Key::Named(
                NamedKey::Shift,
            ) || input.key == Key::Named(NamedKey::Super) || input.key == Key::Named(NamedKey::Alt)
                || input.key == Key::Named(NamedKey::AltGraph);
            let pressed = input.state == ElementState::Pressed;
            &&& text is None ==> actions == asked && after == state
            &&& text matches Some(t) ==> {
                &&& pressed && input.repeat ==> actions == asked + seq![
                    Action::Dispatch(PlatformEvent::KeyPressRepeated(t)),
                ] + end && after == failed
                &&& pressed && !input.repeat && (!input.is_synthetic || modifier) ==> actions
                    == asked + seq![Action::Dispatch(PlatformEvent::KeyPressed(t))] + end && after
                    == failed
                &&& pressed && !input.repeat && input.is_synthetic && !modifier ==> actions == asked
                    && after == state
                &&& !pressed ==> actions == asked + seq![
                    Action::Dispatch(PlatformEvent::KeyReleased(t)),
                ] + end && after == failed
            }
        }),
{
    let event = WindowEvent::KeyboardInput(input);
    lemma_done(state, event, answers);
    lemma_meant(state, input, answers);
    let asked = before(state) + script::key_questions(state, input, answers);
    let actions = done(state, event, answers).0;
    let end = if answers.outcome is Some {
        seq![Action::Exit]
    } else {
        seq![]
    };
    match script::key_dispatch(state, input, answers) {
        Some(event) => {
            assert(actions =~= asked + seq![Action::Dispatch(event)] + end);
        },
        None => {
            assert(actions =~= asked);
        },
    }
}

proof fn lemma_meant(state: EventLoopState, input: KeyboardInput, answers: Answers)
    ensures
        ({
            let meant = window_event::meant(input, script::swaps_keys(state, answers));
            &&& meant.text == input.text && meant.state == input.state && meant.repeat
                == input.repeat && meant.is_synthetic == input.is_synthetic
            &&& meant.key is Named <==> input.key is Named
            &&& input.key !is Named ==> meant.key == input.key
            &&& keys::is_modifier(meant.key) == keys::is_modifier(input.key)
        }),
{
    keys::law_swap_twice(input.key);
}

/// Whatever is dispatched for a key carries the character that the look-up gave, if the key has a name
/// and there is one, and the letters of the key, if it makes letters. The text of the event is
/// carried in no other case than where neither is there.
pub proof fn law_key_text(
    state: EventLoopState,
    input: KeyboardInput,
    event: PlatformEvent,
    answers: Answers,
)
    requires
        done(state, WindowEvent::KeyboardInput(input), answers).0.contains(Action::Dispatch(event)),
    ensures
        ({
            let released = input.state == ElementState::Released;
            let text = match event {
                PlatformEvent::KeyReleased(text) => Some((text, released)),
                PlatformEvent::KeyPressRepeated(text) => Some((text, !released && input.repeat)),
                PlatformEvent::KeyPressed(text) => Some((text, !released && !input.repeat)),
                _ => None,
            };
            &&& text matches Some((text, as_it_should)) && {
                &&& as_it_should
                &&& match (input.key, answers.key_char) {
                    (Key::Named(_), Some(c)) => text == KeyText::Special(c),
                    (Key::Character(letters), _) => text == KeyText::Text(letters),
                    _ => input.text is Some && text == KeyText::Text(input.text->0),
                }
            }
        }),
{
    let window_event = WindowEvent::KeyboardInput(input);
    let (actions, after) = done(state, window_event, answers);
    let i = choose|i: int| 0 <= i < actions.len() && actions[i] == Action::Dispatch(event);
    if !allowed(state, answers) {
        lemma_not_allowed(state, window_event, answers);
        assert(actions[i] is CallHandler || actions[i] is CallEventFilter);
    }
    lemma_done(state, window_event, answers);
    lemma_meant(state, input, answers);
}

/// Where nothing else differs, the text that came with a press does not matter to a key that has
/// letters or a character of its own: the two presses are handled alike, to the last action.
pub proof fn law_own_text_wins(
    state: EventLoopState,
    one: KeyboardInput,
    other: KeyboardInput,
    answers: Answers,
)
    requires
        one.key == other.key,
        one.state == other.state,
        one.repeat == other.repeat,
        one.is_synthetic == other.is_synthetic,
        one.key is Character || (one.key is Named && answers.key_char is Some),
    ensures
        done(state, WindowEvent::KeyboardInput(one), answers) == done(
            state,
            WindowEvent::KeyboardInput(other),
            answers,
        ),
{
    script::law_script(state, EventTarget::Window, WindowEvent::KeyboardInput(one), answers);
    script::law_script(state, EventTarget::Window, WindowEvent::KeyboardInput(other), answers);
    lemma_meant(state, one, answers);
    lemma_meant(state, other, answers);
    let (a, b) = (
        script::script(state, EventTarget::Window, WindowEvent::KeyboardInput(one), answers),
        script::script(state, EventTarget::Window, WindowEvent::KeyboardInput(other), answers),
    );
    assert(a.0 =~= b.0);
}

/// To find the meaning of a key, a browser is asked for its platform, and a key with a name is looked
/// up; other keys are not. On systems of Apple, and in browsers on them, the control key is looked up
/// as command and the other way round; every other key is looked up as itself, everywhere.
pub proof fn law_key_is_looked_up(state: EventLoopState, input: KeyboardInput, answers: Answers)
    ensures
        ({
            let apple = state.target.apple || (state.target.web && (answers.platform matches Some(
                name,
            ) && keys::names_apple(name@)));
            let platform = if state.target.web && !state.target.apple {
                seq![Action::ReadNavigatorPlatform]
            } else {
                seq![]
            };
            let asked = script::key_questions(state, input, answers);
            &&& input.key !is Named ==> asked == platform
            &&& input.key == Key::Named(NamedKey::Control) ==> asked == platform.push(
                Action::LookUpKey(
                    if apple {
                        NamedKey::Super
                    } else {
                        NamedKey::Control
                    },
                ),
            )
            &&& input.key == Key::Named(NamedKey::Super) ==> asked == platform.push(
                Action::LookUpKey(
                    if apple {
                        NamedKey::Control
                    } else {
                        NamedKey::Super
                    },
                ),
            )
            &&& input.key matches Key::Named(name) ==> name != NamedKey::Control && name
                != NamedKey::Super ==> asked == platform.push(Action::LookUpKey(name))
        }),
{
    let platform = if state.target.web && !state.target.apple {
        seq![Action::ReadNavigatorPlatform]
    } else {
        seq![]
    };
    let asked = script::key_questions(state, input, answers);
    match window_event::meant(input, script::swaps_keys(state, answers)).key {
        Key::Named(name) => {
            assert(asked =~= platform.push(Action::LookUpKey(name)));
        },
        _ => {
            assert(asked =~= platform);
        },
    }
}

/// No event touches what the program was built for, whether the application has a handler, or how
/// events are pumped. The cursor and its edge change only when it moves, the followed finger only by
/// touch, and whether a button is down only by buttons, touch and leaving the window.
pub proof fn law_what_events_leave_alone(
    state: EventLoopState,
    event: WindowEvent,
    answers: Answers,
)
    ensures
        ({
            let after = done(state, event, answers).1;
            &&& after.target == state.target
            &&& after.custom_application_handler == state.custom_application_handler
            &&& after.pumping_events_instantly == state.pumping_events_instantly
            &&& event !is CursorMoved ==> after.cursor_pos == state.cursor_pos
            &&& event !is CursorMoved ==> after.current_resize_direction
                == state.current_resize_direction
            &&& event !is Touch ==> after.current_touch_id == state.current_touch_id
            &&& event !is Touch && event !is MouseInput && event !is CursorLeft ==> after.pressed
                == state.pressed
            &&& event is CursorMoved || event is CursorLeft || event is MouseInput
                || event is MouseWheel || event is Touch || event is ThemeChanged
                || event is Occluded || event is Other || event is ImePreedit || event is ImeCommit
                ==> after.loop_error == state.loop_error
        }),
{
    script::law_script(state, EventTarget::Window, event, answers);
    if let WindowEvent::KeyboardInput(input) = event {
    }
}

/// The loop is left by no other action than the last one of an event, and then with an error that is
/// still there.
pub proof fn law_exit_is_last(state: EventLoopState, event: WindowEvent, answers: Answers, i: int)
    requires
        0 <= i < done(state, event, answers).0.len(),
        done(state, event, answers).0[i] == Action::Exit,
    ensures
        i == done(state, event, answers).0.len() - 1,
        done(state, event, answers).1.loop_error is Some,
{
    if allowed(state, answers) {
        lemma_done(state, event, answers);
        let n = before(state).len();
        assert(i >= n) by {
            if i < n {
                assert(done(state, event, answers).0[i] == before(state)[i]);
            }
        }
        assert(done(state, event, answers).0[i] == script::usual(state, event, answers).0[i - n]);
        lemma_exit_last(state, event, answers, i - n);
    } else {
        lemma_not_allowed(state, event, answers);
    }
}

proof fn lemma_exit_last(state: EventLoopState, event: WindowEvent, answers: Answers, i: int)
    requires
        0 <= i < script::usual(state, event, answers).0.len(),
        script::usual(state, event, answers).0[i] == Action::Exit,
    ensures
        i == script::usual(state, event, answers).0.len() - 1,
        script::usual(state, event, answers).1.loop_error is Some,
{
    let (actions, after) = script::usual(state, event, answers);
    if after.loop_error is None {
        assert(script::exit(after) =~= seq![]);
    }
    match event {
        WindowEvent::KeyboardInput(input) => {
            match script::key_dispatch(state, input, answers) {
                Some(event) => {},
                None => {},
            }
        },
        _ => {},
    }
}

} // verus!
