use kubi::events::{process_winit_events, FrameEvent, MouseButton, OnBeforeExitEvent, WindowInput, WindowResizedEvent};
use kubi::input::DeviceInput;
use kubi::math::UVec2;

#[test]
fn window_events_become_frame_events() {
    assert_eq!(
        process_winit_events::<u8, (i32, i32)>(WindowInput::Resized { width: 800, height: 600 }),
        Some(FrameEvent::WindowResized(WindowResizedEvent(UVec2 { x: 800, y: 600 })))
    );
    assert_eq!(
        process_winit_events::<u8, (i32, i32)>(WindowInput::Keyboard { keycode: Some(30), pressed: true, repeat: false }),
        Some(FrameEvent::Device(DeviceInput::Key { keycode: Some(30), pressed: true }))
    );
    assert_eq!(
        process_winit_events::<u8, (i32, i32)>(WindowInput::Keyboard { keycode: Some(30), pressed: true, repeat: true }),
        None
    );
    assert_eq!(
        process_winit_events::<u8, (i32, i32)>(WindowInput::Mouse { button: MouseButton::Other(9), pressed: false }),
        Some(FrameEvent::Device(DeviceInput::Button { button: 9, pressed: false }))
    );
    assert_eq!(process_winit_events::<u8, (i32, i32)>(WindowInput::Touch(5u8)), Some(FrameEvent::Touch(5u8)));
    assert_eq!(
        process_winit_events::<u8, (i32, i32)>(WindowInput::LoopExiting),
        Some(FrameEvent::BeforeExit(OnBeforeExitEvent))
    );
    assert_eq!(process_winit_events::<u8, (i32, i32)>(WindowInput::Other), None);
    assert_eq!(
        process_winit_events::<u8, (i32, i32)>(WindowInput::MouseMotion { delta: (3, -2) }),
        Some(FrameEvent::Device(DeviceInput::MouseMotion { delta: (3, -2) }))
    );
}
