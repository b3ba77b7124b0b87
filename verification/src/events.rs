//! Marker components of the client's entities and the conversion of window input into
//! device events.

use vstd::prelude::*;
use crate::input::DeviceInput;
use crate::math::UVec2;

verus! {

/// Marks an entity that is an event of the current frame (cleared after rendering).
#[derive(Clone, Copy, Debug, Default, PartialEq, Eq, Structural)]
pub struct EventComponent;

/// The event sent just before the client exits.
#[derive(Clone, Copy, Debug, Default, PartialEq, Eq, Structural)]
pub struct OnBeforeExitEvent;

/// The window was resized to this size in pixels.
#[derive(Clone, Copy, Debug, PartialEq, Eq, Structural)]
pub struct WindowResizedEvent(pub UVec2);

/// Marks an entity drawn by the in-game GUI.
#[derive(Clone, Copy, Debug, Default, PartialEq, Eq, Structural)]
pub struct GuiComponent;

/// Marks an entity drawn by the legacy GUI.
#[derive(Clone, Copy, Debug, Default, PartialEq, Eq, Structural)]
pub struct LegacyGuiComponent;

/// Marks the player that this client controls.
#[derive(Clone, Copy, Debug, Default, PartialEq, Eq, Structural)]
pub struct MainPlayer;

/// A mouse button as the window reports it.
#[derive(Clone, Copy, Debug, PartialEq, Eq, Structural)]
pub enum MouseButton {
    Left,
    Right,
    Middle,
    Back,
    Forward,
    Other(u16),
}

/// The number of a mouse button in raw device events: left 0, right 1, middle 2, back 3,
/// forward 4, any other its own number.
pub fn mouse_button_code(button: MouseButton) -> (code: u32)
    ensures
        code == mouse_button_code_spec(button),
{
    match button {
        MouseButton::Left => 0,
        MouseButton::Right => 1,
        MouseButton::Middle => 2,
        MouseButton::Back => 3,
        MouseButton::Forward => 4,
        MouseButton::Other(id) => id as u32,
    }
}

/// A keyboard event of the window as a raw device event; repeats are dropped.
pub fn keyboard_input_event<M>(keycode: Option<u32>, pressed: bool, repeat: bool) -> (event: Option<DeviceInput<M>>)
    ensures
        event == (if repeat { None } else { Some(DeviceInput::<M>::Key { keycode, pressed }) }),
{
    if repeat {
        return None;
    }
    Some(DeviceInput::Key { keycode, pressed })
}

/// A mouse-button event of the window as a raw device event.
pub fn mouse_input_event<M>(button: MouseButton, pressed: bool) -> (event: DeviceInput<M>)
    ensures
        event matches DeviceInput::Button { button: code, pressed: p } && p == pressed
            && code == mouse_button_code_spec(button),
{
    DeviceInput::Button { button: mouse_button_code(button), pressed }
}

/// An event of the window system, as far as the client reads it; `T` is a touch and `M` a
/// mouse movement.
#[derive(Clone, Copy, Debug, PartialEq, Eq)]
pub enum WindowInput<T, M> {
    /// The window was resized.
    Resized { width: u32, height: u32 },
    /// A key changed state (`keycode` is `None` for keys without a code).
    Keyboard { keycode: Option<u32>, pressed: bool, repeat: bool },
    /// A mouse button changed state.
    Mouse { button: MouseButton, pressed: bool },
    /// A finger touched, moved on or left the screen.
    Touch(T),
    /// The mouse device reported a movement.
    MouseMotion { delta: M },
    /// The event loop is about to end.
    LoopExiting,
    /// Anything else.
    Other,
}

/// An event of the client's frame.
#[derive(Clone, Copy, Debug, PartialEq, Eq)]
pub enum FrameEvent<T, M> {
    WindowResized(WindowResizedEvent),
    Device(DeviceInput<M>),
    Touch(T),
    BeforeExit(OnBeforeExitEvent),
}

/// The frame event that a window event becomes, if any: a resize gives the new size,
/// keyboard and mouse input and mouse movement become raw device events (key repeats are
/// dropped), touches are passed on, and the end of the event loop announces the exit.
pub fn process_winit_events<T, M>(event: WindowInput<T, M>) -> (frame_event: Option<FrameEvent<T, M>>)
    ensures
        frame_event == (match event {
            WindowInput::Resized { width, height } => Some(FrameEvent::WindowResized(WindowResizedEvent(UVec2 { x: width, y: height }))),
            WindowInput::Keyboard { keycode, pressed, repeat } => if repeat {
                None
            } else {
                Some(FrameEvent::Device(DeviceInput::Key { keycode, pressed }))
            },
            WindowInput::Mouse { button, pressed } => Some(FrameEvent::Device(
                DeviceInput::Button { button: mouse_button_code_spec(button), pressed },
            )),
            WindowInput::Touch(touch) => Some(FrameEvent::Touch(touch)),
            WindowInput::MouseMotion { delta } => Some(FrameEvent::Device(DeviceInput::MouseMotion { delta })),
            WindowInput::LoopExiting => Some(FrameEvent::BeforeExit(OnBeforeExitEvent)),
            WindowInput::Other => None,
        }),
{
    match event {
        WindowInput::Resized { width, height } => Some(FrameEvent::WindowResized(WindowResizedEvent(UVec2 { x: width, y: height }))),
        WindowInput::Keyboard { keycode, pressed, repeat } => match keyboard_input_event(keycode, pressed, repeat) {
            Some(device) => Some(FrameEvent::Device(device)),
            None => None,
        },
        WindowInput::Mouse { button, pressed } => Some(FrameEvent::Device(mouse_input_event(button, pressed))),
        WindowInput::Touch(touch) => Some(FrameEvent::Touch(touch)),
        WindowInput::MouseMotion { delta } => Some(FrameEvent::Device(DeviceInput::MouseMotion { delta })),
        WindowInput::LoopExiting => Some(FrameEvent::BeforeExit(OnBeforeExitEvent)),
        WindowInput::Other => None,
    }
}

/// The number of a mouse button in raw device events.
pub open spec fn mouse_button_code_spec(button: MouseButton) -> u32 {
    match button {
        MouseButton::Left => 0,
        MouseButton::Right => 1,
        MouseButton::Middle => 2,
        MouseButton::Back => 3,
        MouseButton::Forward => 4,
        MouseButton::Other(id) => id as u32,
    }
}

} // verus!
