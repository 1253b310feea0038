//! The events of a window, and what they are turned into.

use vstd::prelude::*;

use crate::platform::PhysicalSize;

verus! {

/// A position in logical pixels. The coordinates are the bits of two floating-point numbers, which
/// are carried and not computed with.
#[derive(Clone, Copy, Debug, PartialEq, Eq, Structural)]
pub struct LogicalPoint {
    pub x: u32,
    pub y: u32,
}

/// Whether a key or a button is held down.
#[derive(Clone, Copy, Debug, PartialEq, Eq, Structural)]
pub enum ElementState {
    Pressed,
    Released,
}

/// A button of the mouse.
#[derive(Clone, Copy, Debug, PartialEq, Eq, Structural)]
pub enum MouseButton {
    Left,
    Right,
    Middle,
    Back,
    Forward,
    Other(u16),
}

/// A button as the items of a window know it.
#[derive(Clone, Copy, Debug, PartialEq, Eq, Structural)]
pub enum PointerEventButton {
    Left,
    Right,
    Middle,
    Back,
    Forward,
    Other,
}

/// Where a touch is in its course.
#[derive(Clone, Copy, Debug, PartialEq, Eq, Structural)]
pub enum TouchPhase {
    Started,
    Moved,
    Ended,
    Cancelled,
}

/// The theme of the desktop.
#[derive(Clone, Copy, Debug, PartialEq, Eq, Structural)]
pub enum Theme {
    Light,
    Dark,
}

/// The color scheme of a window.
#[derive(Clone, Copy, Debug, PartialEq, Eq, Structural)]
pub enum ColorScheme {
    Light,
    Dark,
}

/// The edge or the corner by which a window is resized.
#[derive(Clone, Copy, Debug, PartialEq, Eq, Structural)]
pub enum ResizeDirection {
    East,
    North,
    NorthEast,
    NorthWest,
    South,
    SouthEast,
    SouthWest,
    West,
}

/// A key that has a name. The keys that decide nothing here are `Other`.
#[derive(Clone, Copy, Debug, PartialEq, Eq, Structural)]
pub enum NamedKey {
    Alt,
    AltGraph,
    Control,
    Shift,
    Super,
    Other,
}

/// What a key stands for.
#[derive(Debug)]
pub enum Key {
    /// A key with a name.
    Named(NamedKey),
    /// A key that makes this text.
    Character(String),
    /// A dead key, or one that is not known.
    Other,
}

/// A key was pressed or released.
#[derive(Debug)]
pub struct KeyboardInput {
    pub key: Key,
    /// The text that the key makes, if any.
    pub text: Option<String>,
    pub state: ElementState,
    /// The key is held down and repeats.
    pub repeat: bool,
    /// The event was made up when the window got the focus.
    pub is_synthetic: bool,
}

/// An event of a window. The positions in it stay with the windowing system until they are asked
/// for.
#[derive(Debug)]
pub enum WindowEvent {
    RedrawRequested,
    Resized(PhysicalSize),
    CloseRequested,
    Focused(bool),
    KeyboardInput(KeyboardInput),
    /// The text that is being composed, and the selection in it as two offsets.
    ImePreedit(String, Option<(usize, usize)>),
    /// The text that was composed.
    ImeCommit(String),
    CursorMoved,
    CursorLeft,
    MouseWheel,
    MouseInput { state: ElementState, button: MouseButton },
    Touch { id: u64, phase: TouchPhase },
    /// The scale factor as the bits of a floating-point number, and whether the environment fixes
    /// another one.
    ScaleFactorChanged { scale_factor: u32, fixed: bool },
    ThemeChanged(Theme),
    Occluded(bool),
    Other,
}

/// The text of a key.
#[derive(Debug)]
pub enum KeyText {
    /// The character that stands for a key with a name.
    Special(char),
    /// A text.
    Text(String),
}

/// An event that is dispatched to a window.
#[derive(Debug)]
pub enum PlatformEvent {
    CloseRequested,
    KeyPressed(KeyText),
    KeyPressRepeated(KeyText),
    KeyReleased(KeyText),
    ScaleFactorChanged(u32),
}

/// An event of an input method.
#[derive(Debug)]
pub enum KeyEvent {
    UpdateComposition { preedit_text: String, preedit_selection: Option<(i32, i32)> },
    CommitComposition { text: String },
}

/// An event of the mouse, or of a finger in its place. The parts of a wheel's turn are the bits of
/// floating-point numbers.
#[derive(Clone, Copy, Debug, PartialEq, Eq, Structural)]
pub enum MouseEvent {
    Moved { position: LogicalPoint },
    Pressed { position: LogicalPoint, button: PointerEventButton, click_count: u8 },
    Released { position: LogicalPoint, button: PointerEventButton, click_count: u8 },
    Wheel { position: LogicalPoint, delta_x: u32, delta_y: u32 },
    Exit,
}

/// What a handler of the application says about an event.
#[derive(Clone, Copy, Debug, PartialEq, Eq, Structural)]
pub enum WinitWindowEventResult {
    /// The event is handled as usual.
    Propagate,
    /// The event is not handled any further.
    PreventDefault,
}

impl MouseButton {
    pub open spec fn spec_pointer_button(self) -> PointerEventButton {
        match self {
            MouseButton::Left => PointerEventButton::Left,
            MouseButton::Right => PointerEventButton::Right,
            MouseButton::Middle => PointerEventButton::Middle,
            MouseButton::Back => PointerEventButton::Back,
            MouseButton::Forward => PointerEventButton::Forward,
            MouseButton::Other(_) => PointerEventButton::Other,
        }
    }

    /// The button as the items of a window know it.
    pub fn pointer_button(self) -> (button: PointerEventButton)
        ensures
            button == self.spec_pointer_button(),
    {
        match self {
            MouseButton::Left => PointerEventButton::Left,
            MouseButton::Right => PointerEventButton::Right,
            MouseButton::Middle => PointerEventButton::Middle,
            MouseButton::Back => PointerEventButton::Back,
            MouseButton::Forward => PointerEventButton::Forward,
            MouseButton::Other(_) => PointerEventButton::Other,
        }
    }
}

} // verus!
