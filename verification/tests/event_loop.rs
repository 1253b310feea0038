use slint_logic::event_loop::keys::{is_apple_platform, modifier, swap_cmd_ctrl};
use slint_logic::event_loop::lifecycle::{
    ControlFlow, Duration, LoopAction, LoopReply, LoopStage, LoopStep,
};
use slint_logic::event_loop::menu::parse_menu_id;
use slint_logic::event_loop::running::PumpStatus;
use slint_logic::event_loop::state::{EventLoopState, Target};
use slint_logic::event_loop::types::{
    ColorScheme, ElementState, Key, KeyEvent, KeyText, KeyboardInput, LogicalPoint, MouseButton,
    MouseEvent, NamedKey, PlatformEvent, PointerEventButton, ResizeDirection, Theme, TouchPhase,
    WindowEvent, WinitWindowEventResult,
};
use slint_logic::event_loop::user_event::{
    CustomEvent, UserAction, UserReply, UserStage, UserStep,
};
use slint_logic::event_loop::window_event::{Action, EventTarget, Reply, Step};
use slint_logic::event_loop::windows::{
    windows_to_redraw, windows_to_suspend, WindowStatus, WindowVisibility,
};
use slint_logic::platform::{PhysicalSize, PlatformError};

fn desktop() -> Target {
    Target { apple: false, web: false, ios: false, accessibility: false }
}

fn fresh() -> EventLoopState {
    EventLoopState::new(desktop(), false)
}

/// What the surroundings of the loop answer.
struct World {
    handler: WinitWindowEventResult,
    filter: Option<WinitWindowEventResult>,
    fails: bool,
    platform: Option<String>,
    key_char: Option<char>,
    direction: Option<ResizeDirection>,
    position: LogicalPoint,
}

impl World {
    fn new() -> World {
        World {
            handler: WinitWindowEventResult::Propagate,
            filter: None,
            fails: false,
            platform: None,
            key_char: None,
            direction: None,
            position: LogicalPoint { x: 11, y: 22 },
        }
    }

    fn outcome(&self) -> Reply {
        Reply::Outcome(if self.fails {
            Some(PlatformError::Other("broken".to_string()))
        } else {
            None
        })
    }

    /// Handle an event to its end, and describe what was done.
    fn run(
        &self,
        state: &mut EventLoopState,
        target: EventTarget,
        event: WindowEvent,
    ) -> Vec<String> {
        let mut done = Vec::new();
        let mut step = state.window_event(target, event);
        while let Step::Perform(action, stage) = step {
            done.push(format!("{:?}", action));
            let reply = match action {
                Action::CallHandler { .. } => Reply::Verdict(self.handler),
                Action::CallEventFilter => Reply::FilterVerdict(self.filter),
                Action::Draw
                | Action::Resize(_)
                | Action::Dispatch(_)
                | Action::ActivationChanged(_) => self.outcome(),
                Action::ReadNavigatorPlatform => Reply::NavigatorPlatform(self.platform.clone()),
                Action::LookUpKey(_) => Reply::KeyChar(self.key_char),
                Action::FindResizeDirection(_) => Reply::ResizeDirection(self.direction),
                Action::FindLogicalPosition => Reply::Position(self.position),
                Action::FindWheelDelta => Reply::WheelDelta(60, 120),
                _ => Reply::Finished,
            };
            step = state.resume(stage, reply);
        }
        done
    }

    fn window(&self, state: &mut EventLoopState, event: WindowEvent) -> Vec<String> {
        self.run(state, EventTarget::Window, event)
    }
}

fn lines(actions: &[Action]) -> Vec<String> {
    actions.iter().map(|a| format!("{:?}", a)).collect()
}

fn mouse(event: MouseEvent) -> Action {
    Action::ProcessMouseInput(event)
}

const AT: LogicalPoint = LogicalPoint { x: 11, y: 22 };

#[test]
fn a_new_state_is_idle() {
    let state = fresh();
    assert_eq!(state.cursor_pos, LogicalPoint { x: 0, y: 0 });
    assert!(!state.pressed);
    assert_eq!(state.current_touch_id, None);
    assert!(state.loop_error.is_none());
    assert_eq!(state.current_resize_direction, None);
    assert!(!state.pumping_events_instantly);
    assert_eq!(0f32.to_bits(), state.cursor_pos.x);
}

#[test]
fn an_unknown_window_is_for_the_handler() {
    let world = World::new();
    let mut state = fresh();
    let done = world.run(&mut state, EventTarget::Unknown, WindowEvent::RedrawRequested);
    assert_eq!(done, lines(&[]));
    let mut state = EventLoopState::new(desktop(), true);
    let done = world.run(&mut state, EventTarget::Unknown, WindowEvent::RedrawRequested);
    assert_eq!(done, lines(&[Action::CallHandler { with_window: false }]));
    let done = world.run(&mut state, EventTarget::WithoutWindow, WindowEvent::RedrawRequested);
    assert_eq!(done, lines(&[]));
}

#[test]
fn the_handler_and_the_filter_come_first() {
    let mut world = World::new();
    let target = Target { accessibility: true, ..desktop() };
    let mut state = EventLoopState::new(target, true);
    let done = world.window(&mut state, WindowEvent::RedrawRequested);
    assert_eq!(
        done,
        lines(&[
            Action::CallHandler { with_window: true },
            Action::CallEventFilter,
            Action::ForwardToAccessibility,
            Action::Draw,
        ])
    );
    world.filter = Some(WinitWindowEventResult::PreventDefault);
    let done = world.window(&mut state, WindowEvent::RedrawRequested);
    assert_eq!(
        done,
        lines(&[Action::CallHandler { with_window: true }, Action::CallEventFilter])
    );
    world.handler = WinitWindowEventResult::PreventDefault;
    let done = world.window(&mut state, WindowEvent::RedrawRequested);
    assert_eq!(done, lines(&[Action::CallHandler { with_window: true }]));
    let mut state = fresh();
    world.filter = Some(WinitWindowEventResult::Propagate);
    let done = world.window(&mut state, WindowEvent::RedrawRequested);
    assert_eq!(done, lines(&[Action::CallEventFilter, Action::Draw]));
}

#[test]
fn a_failure_leaves_the_loop_and_a_success_clears_it() {
    let mut world = World::new();
    let mut state = fresh();
    world.fails = true;
    let size = PhysicalSize { width: 3, height: 4 };
    let done = world.window(&mut state, WindowEvent::Resized(size));
    assert_eq!(
        done,
        lines(&[
            Action::CallEventFilter,
            Action::Resize(size),
            Action::SyncWindowState,
            Action::Exit,
        ])
    );
    assert!(matches!(&state.loop_error, Some(PlatformError::Other(t)) if t == "broken"));
    let done = world.window(&mut state, WindowEvent::Other);
    assert_eq!(done, lines(&[Action::CallEventFilter, Action::Exit]));
    world.fails = false;
    let done = world.window(&mut state, WindowEvent::Focused(true));
    assert_eq!(done, lines(&[Action::CallEventFilter, Action::ActivationChanged(true)]));
    assert!(state.loop_error.is_none());
}

#[test]
fn closing_scaling_theme_and_covering() {
    let world = World::new();
    let mut state = fresh();
    assert_eq!(
        world.window(&mut state, WindowEvent::CloseRequested),
        lines(&[Action::CallEventFilter, Action::Dispatch(PlatformEvent::CloseRequested)])
    );
    let scale_factor = 2f32.to_bits();
    assert_eq!(
        world.window(&mut state, WindowEvent::ScaleFactorChanged { scale_factor, fixed: false }),
        lines(&[
            Action::CallEventFilter,
            Action::Dispatch(PlatformEvent::ScaleFactorChanged(scale_factor)),
        ])
    );
    assert_eq!(
        world.window(&mut state, WindowEvent::ScaleFactorChanged { scale_factor, fixed: true }),
        lines(&[Action::CallEventFilter])
    );
    assert_eq!(
        world.window(&mut state, WindowEvent::ThemeChanged(Theme::Dark)),
        lines(&[Action::CallEventFilter, Action::SetColorScheme(ColorScheme::Dark)])
    );
    assert_eq!(
        world.window(&mut state, WindowEvent::ThemeChanged(Theme::Light)),
        lines(&[Action::CallEventFilter, Action::SetColorScheme(ColorScheme::Light)])
    );
    assert_eq!(
        world.window(&mut state, WindowEvent::Occluded(true)),
        lines(&[Action::CallEventFilter, Action::SetOccluded(true), Action::SyncWindowState])
    );
}

fn press(key: Key) -> KeyboardInput {
    KeyboardInput {
        key,
        text: None,
        state: ElementState::Pressed,
        repeat: false,
        is_synthetic: false,
    }
}

fn character(text: &str) -> Key {
    Key::Character(text.to_string())
}

fn text(text: &str) -> KeyText {
    KeyText::Text(text.to_string())
}

#[test]
fn characters_are_dispatched() {
    let world = World::new();
    let mut state = fresh();
    let done = world.window(&mut state, WindowEvent::KeyboardInput(press(character("a"))));
    assert_eq!(
        done,
        lines(&[
            Action::CallEventFilter,
            Action::Dispatch(PlatformEvent::KeyPressed(text("a"))),
        ])
    );
    let again = KeyboardInput { repeat: true, ..press(character("a")) };
    let done = world.window(&mut state, WindowEvent::KeyboardInput(again));
    assert_eq!(
        done[1..],
        lines(&[Action::Dispatch(PlatformEvent::KeyPressRepeated(text("a")))])
    );
    let up = KeyboardInput { state: ElementState::Released, ..press(character("a")) };
    let done = world.window(&mut state, WindowEvent::KeyboardInput(up));
    assert_eq!(done[1..], lines(&[Action::Dispatch(PlatformEvent::KeyReleased(text("a")))]));
}

#[test]
fn named_keys_are_looked_up() {
    let mut world = World::new();
    let mut state = fresh();
    world.key_char = Some('\u{1b}');
    let done =
        world.window(&mut state, WindowEvent::KeyboardInput(press(Key::Named(NamedKey::Other))));
    assert_eq!(
        done[1..],
        lines(&[
            Action::LookUpKey(NamedKey::Other),
            Action::Dispatch(PlatformEvent::KeyPressed(KeyText::Special('\u{1b}'))),
        ])
    );
    world.key_char = None;
    let done =
        world.window(&mut state, WindowEvent::KeyboardInput(press(Key::Named(NamedKey::Other))));
    assert_eq!(done[1..], lines(&[Action::LookUpKey(NamedKey::Other)]));
    let with_text =
        KeyboardInput { text: Some("x".to_string()), ..press(Key::Named(NamedKey::Other)) };
    let done = world.window(&mut state, WindowEvent::KeyboardInput(with_text));
    assert_eq!(
        done[1..],
        lines(&[
            Action::LookUpKey(NamedKey::Other),
            Action::Dispatch(PlatformEvent::KeyPressed(text("x"))),
        ])
    );
    let dead = KeyboardInput { text: Some("^".to_string()), ..press(Key::Other) };
    let done = world.window(&mut state, WindowEvent::KeyboardInput(dead));
    assert_eq!(done[1..], lines(&[Action::Dispatch(PlatformEvent::KeyPressed(text("^")))]));
    let done = world.window(&mut state, WindowEvent::KeyboardInput(press(Key::Other)));
    assert_eq!(done[1..], lines(&[]));
}

#[test]
fn synthetic_keys_are_dropped_but_for_modifiers() {
    let mut world = World::new();
    let mut state = fresh();
    state.loop_error = Some(PlatformError::NoPlatform);
    let made_up = KeyboardInput { is_synthetic: true, ..press(character("a")) };
    let done = world.window(&mut state, WindowEvent::KeyboardInput(made_up));
    assert_eq!(done, lines(&[Action::CallEventFilter]));
    assert!(state.loop_error.is_some());
    world.key_char = Some('\u{10}');
    let shift = KeyboardInput { is_synthetic: true, ..press(Key::Named(NamedKey::Shift)) };
    let done = world.window(&mut state, WindowEvent::KeyboardInput(shift));
    assert_eq!(
        done[1..],
        lines(&[
            Action::LookUpKey(NamedKey::Shift),
            Action::Dispatch(PlatformEvent::KeyPressed(KeyText::Special('\u{10}'))),
        ])
    );
    let up = KeyboardInput {
        is_synthetic: true,
        state: ElementState::Released,
        ..press(character("a"))
    };
    let done = world.window(&mut state, WindowEvent::KeyboardInput(up));
    assert_eq!(done[1..], lines(&[Action::Dispatch(PlatformEvent::KeyReleased(text("a")))]));
}

#[test]
fn command_and_control_are_swapped_on_apple() {
    let mut world = World::new();
    let control = || WindowEvent::KeyboardInput(press(Key::Named(NamedKey::Control)));
    let mut state = EventLoopState::new(Target { apple: true, ..desktop() }, false);
    assert_eq!(
        world.window(&mut state, control())[1..],
        lines(&[Action::LookUpKey(NamedKey::Super)])
    );
    assert_eq!(
        world.window(&mut fresh(), control())[1..],
        lines(&[Action::LookUpKey(NamedKey::Control)])
    );
    let mut state = EventLoopState::new(Target { web: true, ..desktop() }, false);
    world.platform = Some("MacIntel".to_string());
    assert_eq!(
        world.window(&mut state, control())[1..],
        lines(&[Action::ReadNavigatorPlatform, Action::LookUpKey(NamedKey::Super)])
    );
    world.platform = Some("Linux x86_64".to_string());
    assert_eq!(
        world.window(&mut state, control())[1..],
        lines(&[Action::ReadNavigatorPlatform, Action::LookUpKey(NamedKey::Control)])
    );
}

#[test]
fn apple_platforms_by_name() {
    let named = |s: &str| is_apple_platform(Some(s.to_string()));
    assert!(named("MacIntel"));
    assert!(named("iPhone"));
    assert!(named("the IPAD"));
    assert!(!named("Win32"));
    assert!(!named("ma c"));
    assert!(!named(""));
    assert!(!is_apple_platform(None));
}

#[test]
fn swapping_twice_changes_nothing() {
    for key in [NamedKey::Control, NamedKey::Super, NamedKey::Alt, NamedKey::Other] {
        let twice = swap_cmd_ctrl(swap_cmd_ctrl(Key::Named(key), true), true);
        assert!(matches!(twice, Key::Named(k) if k == key));
        let never = swap_cmd_ctrl(Key::Named(key), false);
        assert!(matches!(never, Key::Named(k) if k == key));
    }
    assert!(modifier(&Key::Named(NamedKey::AltGraph)));
    assert!(!modifier(&Key::Named(NamedKey::Other)));
    assert!(!modifier(&character("a")));
}

#[test]
fn input_methods() {
    let world = World::new();
    let mut state = fresh();
    assert_eq!(
        world.window(&mut state, WindowEvent::ImePreedit("ab".to_string(), Some((1, 2))))[1..],
        lines(&[Action::ProcessKeyInput(KeyEvent::UpdateComposition {
            preedit_text: "ab".to_string(),
            preedit_selection: Some((1, 2)),
        })])
    );
    assert_eq!(
        world.window(&mut state, WindowEvent::ImePreedit(
            "ab".to_string(),
            Some((0, 0x8000_0000)),
        ))[1..],
        lines(&[Action::ProcessKeyInput(KeyEvent::UpdateComposition {
            preedit_text: "ab".to_string(),
            preedit_selection: Some((0, i32::MIN)),
        })])
    );
    assert_eq!(
        world.window(&mut state, WindowEvent::ImeCommit("c".to_string()))[1..],
        lines(&[Action::ProcessKeyInput(KeyEvent::CommitComposition { text: "c".to_string() })])
    );
}

#[test]
fn the_cursor_moves_presses_and_turns() {
    let mut world = World::new();
    let mut state = fresh();
    world.direction = Some(ResizeDirection::West);
    assert_eq!(
        world.window(&mut state, WindowEvent::CursorMoved)[1..],
        lines(&[
            Action::FindResizeDirection(None),
            Action::FindLogicalPosition,
            mouse(MouseEvent::Moved { position: AT }),
        ])
    );
    assert_eq!(state.cursor_pos, AT);
    assert_eq!(state.current_resize_direction, Some(ResizeDirection::West));
    let left = WindowEvent::MouseInput { state: ElementState::Pressed, button: MouseButton::Left };
    assert_eq!(
        world.window(&mut state, left)[1..],
        lines(&[Action::DragResize(Some(ResizeDirection::West))])
    );
    assert!(!state.pressed);
    let other =
        WindowEvent::MouseInput { state: ElementState::Pressed, button: MouseButton::Other(9) };
    assert_eq!(
        world.window(&mut state, other)[1..],
        lines(&[mouse(MouseEvent::Pressed {
            position: AT,
            button: PointerEventButton::Other,
            click_count: 0,
        })])
    );
    assert!(state.pressed);
    let up =
        WindowEvent::MouseInput { state: ElementState::Released, button: MouseButton::Middle };
    assert_eq!(
        world.window(&mut state, up)[1..],
        lines(&[mouse(MouseEvent::Released {
            position: AT,
            button: PointerEventButton::Middle,
            click_count: 0,
        })])
    );
    assert!(!state.pressed);
    assert_eq!(
        world.window(&mut state, WindowEvent::MouseWheel)[1..],
        lines(&[
            Action::FindWheelDelta,
            mouse(MouseEvent::Wheel { position: AT, delta_x: 60, delta_y: 120 }),
        ])
    );
}

#[test]
fn buttons_by_name() {
    assert_eq!(MouseButton::Left.pointer_button(), PointerEventButton::Left);
    assert_eq!(MouseButton::Right.pointer_button(), PointerEventButton::Right);
    assert_eq!(MouseButton::Back.pointer_button(), PointerEventButton::Back);
    assert_eq!(MouseButton::Forward.pointer_button(), PointerEventButton::Forward);
}

#[test]
fn leaving_the_window_while_a_button_is_down() {
    let world = World::new();
    let mut state = fresh();
    state.pressed = true;
    assert_eq!(world.window(&mut state, WindowEvent::CursorLeft)[1..], lines(&[]));
    assert!(state.pressed);
    state.pressed = false;
    assert_eq!(
        world.window(&mut state, WindowEvent::CursorLeft)[1..],
        lines(&[mouse(MouseEvent::Exit)])
    );
    let mut state = EventLoopState::new(Target { web: true, ..desktop() }, false);
    state.pressed = true;
    assert_eq!(
        world.window(&mut state, WindowEvent::CursorLeft)[1..],
        lines(&[mouse(MouseEvent::Exit)])
    );
    assert!(!state.pressed);
}

#[test]
fn one_finger_at_a_time() {
    let world = World::new();
    let mut state = fresh();
    let touch = |id: u64, phase: TouchPhase| WindowEvent::Touch { id, phase };
    let left = PointerEventButton::Left;
    assert_eq!(
        world.window(&mut state, touch(1, TouchPhase::Started))[1..],
        lines(&[
            Action::FindLogicalPosition,
            mouse(MouseEvent::Pressed { position: AT, button: left, click_count: 0 }),
        ])
    );
    assert_eq!((state.pressed, state.current_touch_id), (true, Some(1)));
    assert_eq!(world.window(&mut state, touch(2, TouchPhase::Started))[1..], lines(&[]));
    assert_eq!(world.window(&mut state, touch(2, TouchPhase::Ended))[1..], lines(&[]));
    assert_eq!((state.pressed, state.current_touch_id), (true, Some(1)));
    assert_eq!(
        world.window(&mut state, touch(1, TouchPhase::Moved))[1..],
        lines(&[Action::FindLogicalPosition, mouse(MouseEvent::Moved { position: AT })])
    );
    assert_eq!(
        world.window(&mut state, touch(1, TouchPhase::Cancelled))[1..],
        lines(&[
            Action::FindLogicalPosition,
            mouse(MouseEvent::Released { position: AT, button: left, click_count: 0 }),
        ])
    );
    assert_eq!((state.pressed, state.current_touch_id), (false, None));
    assert_eq!(state.cursor_pos, LogicalPoint { x: 0, y: 0 });
}

struct Loop {
    handler: WinitWindowEventResult,
    fails: bool,
    exiting: bool,
    waiting: bool,
    timer: Option<Duration>,
}

impl Loop {
    fn new() -> Loop {
        Loop {
            handler: WinitWindowEventResult::Propagate,
            fails: false,
            exiting: false,
            waiting: true,
            timer: None,
        }
    }

    fn run(&self, state: &mut EventLoopState, first: LoopStep) -> Vec<String> {
        let mut done = Vec::new();
        let mut step = first;
        while let LoopStep::Perform(action, stage) = step {
            done.push(format!("{:?}", action));
            let reply = match action {
                LoopAction::CallHandler => LoopReply::Verdict(self.handler),
                LoopAction::CreateInactiveWindows => LoopReply::Outcome(if self.fails {
                    Some(PlatformError::NoEventLoopProvider)
                } else {
                    None
                }),
                LoopAction::IsExiting => LoopReply::Flag(self.exiting),
                LoopAction::IsWaiting => LoopReply::Flag(self.waiting),
                LoopAction::ListWindows => LoopReply::Windows(some_windows()),
                LoopAction::NextTimerUpdate => LoopReply::Timer(self.timer),
                _ => LoopReply::Finished,
            };
            step = state.resume_loop(stage, reply);
        }
        done
    }
}

fn loop_lines(actions: &[LoopAction]) -> Vec<String> {
    actions.iter().map(|a| format!("{:?}", a)).collect()
}

fn some_windows() -> Vec<WindowStatus> {
    vec![
        WindowStatus { id: 1, visibility: Some(WindowVisibility::Hidden), animated: false },
        WindowStatus { id: 2, visibility: Some(WindowVisibility::Shown), animated: true },
        WindowStatus { id: 3, visibility: None, animated: true },
        WindowStatus { id: 4, visibility: Some(WindowVisibility::Hidden), animated: true },
        WindowStatus { id: 5, visibility: Some(WindowVisibility::ShownFirstTime), animated: false },
    ]
}

#[test]
fn windows_are_picked_in_order() {
    assert_eq!(windows_to_suspend(&some_windows()), vec![1, 4]);
    assert_eq!(windows_to_redraw(&some_windows()), vec![2, 4]);
    assert_eq!(windows_to_redraw(&Vec::new()), Vec::<u64>::new());
}

#[test]
fn resuming_creates_the_windows() {
    let mut world = Loop::new();
    let mut state = fresh();
    let first = state.resumed();
    assert_eq!(
        world.run(&mut state, first),
        loop_lines(&[LoopAction::CreateInactiveWindows])
    );
    world.fails = true;
    let first = state.resumed();
    assert_eq!(
        world.run(&mut state, first),
        loop_lines(&[LoopAction::CreateInactiveWindows, LoopAction::Exit])
    );
    assert!(matches!(state.loop_error, Some(PlatformError::NoEventLoopProvider)));
}

#[test]
fn the_handler_can_prevent_what_the_loop_does() {
    let mut world = Loop::new();
    world.handler = WinitWindowEventResult::PreventDefault;
    let mut state = EventLoopState::new(desktop(), true);
    for first in [state.resumed(), state.new_events(), state.about_to_wait()] {
        assert_eq!(world.run(&mut state, first), loop_lines(&[LoopAction::CallHandler]));
    }
    world.handler = WinitWindowEventResult::Propagate;
    let first = state.new_events();
    assert_eq!(
        world.run(&mut state, first),
        loop_lines(&[
            LoopAction::CallHandler,
            LoopAction::SetControlFlow(ControlFlow::Wait),
            LoopAction::UpdateTimersAndAnimations,
        ])
    );
}

#[test]
fn some_events_are_for_the_handler_alone() {
    let world = Loop::new();
    let mut state = fresh();
    for first in
        [state.device_event(), state.suspended(), state.exiting(), state.memory_warning()]
    {
        assert!(matches!(first, LoopStep::Done));
    }
    state.custom_application_handler = true;
    for first in
        [state.device_event(), state.suspended(), state.exiting(), state.memory_warning()]
    {
        assert!(matches!(&first, LoopStep::Perform(LoopAction::CallHandler, LoopStage::Last)));
        assert_eq!(world.run(&mut state, first), loop_lines(&[LoopAction::CallHandler]));
    }
}

#[test]
fn before_the_loop_waits() {
    let mut world = Loop::new();
    let mut state = fresh();
    let first = state.about_to_wait();
    assert_eq!(
        world.run(&mut state, first),
        loop_lines(&[
            LoopAction::CreateInactiveWindows,
            LoopAction::IsExiting,
            LoopAction::ListWindows,
            LoopAction::RequestRedraw(vec![2, 4]),
            LoopAction::IsWaiting,
            LoopAction::NextTimerUpdate,
        ])
    );
    let next = Duration { secs: 1, nanos: 2 };
    world.timer = Some(next);
    world.exiting = true;
    world.fails = true;
    state.pumping_events_instantly = true;
    let first = state.about_to_wait();
    assert_eq!(
        world.run(&mut state, first),
        loop_lines(&[
            LoopAction::CreateInactiveWindows,
            LoopAction::IsExiting,
            LoopAction::IsWaiting,
            LoopAction::NextTimerUpdate,
            LoopAction::SetControlFlow(ControlFlow::WaitDuration(next)),
            LoopAction::SetControlFlow(ControlFlow::Poll),
        ])
    );
    assert!(matches!(state.loop_error, Some(PlatformError::NoEventLoopProvider)));
    world.waiting = false;
    world.fails = false;
    let first = state.about_to_wait();
    assert_eq!(
        world.run(&mut state, first)[2..],
        loop_lines(&[
            LoopAction::IsWaiting,
            LoopAction::SetControlFlow(ControlFlow::Poll),
        ])
    );
    assert!(state.loop_error.is_some());
}

fn user(state: &EventLoopState, event: CustomEvent, flag: bool) -> Vec<String> {
    let mut done = Vec::new();
    let mut step = state.user_event(&event);
    while let UserStep::Perform(action, stage) = step {
        done.push(format!("{:?}", action));
        let reply = match (stage, action) {
            (_, UserAction::ListWindows) => UserReply::Windows(some_windows()),
            (UserStage::AccessibilityWindow, _)
            | (UserStage::Accessibility, _)
            | (UserStage::MenuWindow(_), _) => UserReply::Flag(flag),
            _ => UserReply::Finished,
        };
        step = state.resume_user_event(stage, reply);
    }
    done
}

fn user_lines(actions: &[UserAction]) -> Vec<String> {
    actions.iter().map(|a| format!("{:?}", a)).collect()
}

fn chosen(id: &str) -> CustomEvent {
    CustomEvent::Muda { id: id.to_string(), description: "E".to_string(), menu: "M".to_string() }
}

#[test]
fn events_of_the_program() {
    let state = fresh();
    assert_eq!(
        user(&state, CustomEvent::UserEvent, true),
        user_lines(&[UserAction::RunCallback])
    );
    assert_eq!(
        user(&state, CustomEvent::WakeEventLoopWorkaround, true),
        user_lines(&[UserAction::Poll])
    );
    assert_eq!(
        user(&state, CustomEvent::Exit, true),
        user_lines(&[
            UserAction::ListWindows,
            UserAction::SuspendWindows(vec![1, 4]),
            UserAction::Exit,
        ])
    );
    let helper =
        || CustomEvent::Accesskit { window_id: 7, description: "X".to_string() };
    assert_eq!(
        user(&state, helper(), true),
        user_lines(&[
            UserAction::FindWindow(7),
            UserAction::ProcessAccessibilityEvent,
            UserAction::InvokeDeferredAction,
        ])
    );
    assert_eq!(user(&state, helper(), false), user_lines(&[UserAction::FindWindow(7)]));
    assert_eq!(
        user(&state, chosen("12|34"), true),
        user_lines(&[UserAction::FindWindow(12), UserAction::MenuEvent(34)])
    );
    assert_eq!(user(&state, chosen("12|34"), false), user_lines(&[UserAction::FindWindow(12)]));
    assert_eq!(user(&state, chosen("12"), true), user_lines(&[]));
}

#[test]
fn events_of_the_program_are_described() {
    assert_eq!(CustomEvent::UserEvent.fmt(), "UserEvent");
    assert_eq!(CustomEvent::Exit.fmt(), "Exit");
    assert_eq!(CustomEvent::WakeEventLoopWorkaround.fmt(), "WakeEventLoopWorkaround");
    let helper = CustomEvent::Accesskit { window_id: 7, description: "X".to_string() };
    assert_eq!(helper.fmt(), "AccessKit(X)");
    assert_eq!(chosen("1|2").fmt(), "Muda(E,M)");
}

#[test]
fn ids_of_menu_entries() {
    assert_eq!(parse_menu_id("12|34"), Some((12, 34)));
    assert_eq!(parse_menu_id("+1|+02"), Some((1, 2)));
    assert_eq!(parse_menu_id("18446744073709551615|0"), Some((u64::MAX, 0)));
    for id in ["", "|", "1|", "|1", "12", "1|2|3", "-1|2", "1 |2", "+|1", "x|1", "1|x",
        "18446744073709551616|0", "0|340282366920938463463374607431768211456"]
    {
        assert_eq!(parse_menu_id(id), None, "{}", id);
        // The reading of numbers is that of the standard library.
        let expected = id.split_once('|').and_then(|(w, e)| {
            Some((w.parse::<u64>().ok()?, e.parse::<usize>().ok()?))
        });
        assert_eq!(parse_menu_id(id), expected);
    }
}

fn refused<T>(result: Result<T, PlatformError>) -> bool {
    matches!(result, Err(PlatformError::Other(t)) if t == "Nested event loops are not supported")
}

#[test]
fn a_loop_runs_once_at_a_time() {
    let mut kept: Option<u8> = None;
    assert!(refused(fresh().run(&mut kept)));
    assert!(refused(fresh().spawn(&mut kept)));
    assert!(refused(fresh().pump_events(&mut kept, None)));
    kept = Some(7);
    let (_, winit_loop) = fresh().run(&mut kept).unwrap();
    assert_eq!((winit_loop, kept), (7, None));
    assert!(refused(fresh().run(&mut kept)));
    assert!(refused(fresh().pump_events(&mut kept, None)));
}

#[test]
fn a_loop_is_spawned_once() {
    let mut kept = Some(7u8);
    let (_, winit_loop) = fresh().spawn(&mut kept).unwrap();
    assert_eq!((winit_loop, kept), (7, None));
    assert!(refused(fresh().spawn(&mut kept)));
    assert_eq!(kept, None);
}

#[test]
fn the_end_of_a_run() {
    let mut kept = None;
    assert!(fresh().run_ended(&mut kept, Some(7u8), Ok(())).is_ok());
    assert_eq!(kept, Some(7));
    assert!(fresh().run(&mut kept).is_ok());
    let result = fresh().run_ended(&mut kept, Some(7), Err("no display".to_string()));
    assert_eq!(kept, None);
    assert!(matches!(
        result,
        Err(PlatformError::Other(t)) if t == "Error running winit event loop: no display"
    ));
    let mut state = fresh();
    state.loop_error = Some(PlatformError::NoPlatform);
    let result = state.run_ended(&mut kept, Some(7), Ok(()));
    assert_eq!(kept, Some(7));
    assert!(matches!(result, Err(PlatformError::NoPlatform)));
    for target in [Target { web: true, ..desktop() }, Target { ios: true, ..desktop() }] {
        let mut kept = None;
        let mut state = EventLoopState::new(target, true);
        state.pressed = true;
        let state = state.run_ended(&mut kept, Some(7u8), Ok(())).unwrap();
        assert_eq!(kept, None);
        assert!(!state.pressed && !state.custom_application_handler);
    }
}

#[test]
fn pumping_events() {
    let zero = Duration { secs: 0, nanos: 0 };
    let mut kept = Some(7u8);
    let (state, winit_loop) = fresh().pump_events(&mut kept, Some(zero)).unwrap();
    assert!(state.pumping_events_instantly);
    assert_eq!((winit_loop, kept), (7, None));
    let (state, status) = state.pump_ended(&mut kept, winit_loop, PumpStatus::Exit(3)).unwrap();
    assert!(!state.pumping_events_instantly);
    assert_eq!(status, PumpStatus::Exit(3));
    assert_eq!(kept, Some(7));
    for timeout in [None, Some(Duration { secs: 0, nanos: 1 }), Some(Duration { secs: 1, nanos: 0 })]
    {
        let mut kept = Some(7u8);
        let (state, _) = fresh().pump_events(&mut kept, timeout).unwrap();
        assert!(!state.pumping_events_instantly);
    }
}

#[test]
fn the_loop_is_kept_after_an_error_while_pumping() {
    let mut kept = Some(7u8);
    let (mut state, winit_loop) = fresh().pump_events(&mut kept, None).unwrap();
    state.loop_error = Some(PlatformError::SetPlatformError);
    assert!(matches!(
        state.pump_ended(&mut kept, winit_loop, PumpStatus::Continue),
        Err(PlatformError::SetPlatformError)
    ));
    assert_eq!(kept, Some(7));
    assert!(fresh().pump_events(&mut kept, None).is_ok());
}
