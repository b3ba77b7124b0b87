use kubi::input::{update_input_state, MovementKeys, KbmIntent};
use kubi::input::{DeviceInput, RawKbmInputState, process_events, FingerCheck, finger_passes};

fn key(code: u32, pressed: bool) -> DeviceInput<(i32, i32)> {
    DeviceInput::Key { keycode: Some(code), pressed }
}

#[test]
fn pressed_keys_are_held_until_released() {
    let mut state = RawKbmInputState::<(i32, i32)>::new();
    process_events(&[key(30, true), key(31, true), key(30, false)], &mut state);
    assert!(!state.key_down(30));
    assert!(state.key_down(31));
    process_events(&[key(30, true), DeviceInput::Key { keycode: None, pressed: false }], &mut state);
    assert!(state.key_down(30));
    assert!(state.key_down(31));
}

#[test]
fn buttons_below_32_are_tracked() {
    let mut state = RawKbmInputState::<(i32, i32)>::new();
    process_events(
        &[
            DeviceInput::Button { button: 1, pressed: true },
            DeviceInput::Button { button: 3, pressed: true },
            DeviceInput::Button { button: 40, pressed: true },
            DeviceInput::Other,
            DeviceInput::Button { button: 3, pressed: false },
        ],
        &mut state,
    );
    assert!(state.button_state[1]);
    assert!(!state.button_state[3]);
    assert_eq!(state.button_state.iter().filter(|&&b| b).count(), 1);
}

#[test]
fn finger_checks() {
    assert!(finger_passes(FingerCheck::Start, true, false, true));
    assert!(!finger_passes(FingerCheck::Current, true, false, false));
    assert!(finger_passes(FingerCheck::StartOrCurrent, false, true, true));
    assert!(!finger_passes(FingerCheck::StartAndCurrent, true, false, false));
    assert!(finger_passes(FingerCheck::StartAndCurrent, true, true, true));
    assert!(finger_passes(FingerCheck::NotMoved, false, true, false));
    assert!(!finger_passes(FingerCheck::NotMoved, true, true, true));
    assert_eq!(FingerCheck::default(), FingerCheck::Start);
}

#[test]
fn movement_keys_and_action_buttons_give_the_frame_intent() {
    let keys = MovementKeys { right: 3, left: 0, forward: 22, back: 18 };
    let mut raw = RawKbmInputState::<(i32, i32)>::new();
    process_events(
        &[
            DeviceInput::Key { keycode: Some(3), pressed: true },
            DeviceInput::Key { keycode: Some(18), pressed: true },
            DeviceInput::Button { button: 3, pressed: true },
        ],
        &mut raw,
    );
    assert_eq!(update_input_state(&raw, keys), KbmIntent { x: 1, y: -1, action_a: false, action_b: true });
    process_events(
        &[
            DeviceInput::Key { keycode: Some(0), pressed: true },
            DeviceInput::Key { keycode: Some(22), pressed: true },
            DeviceInput::Button { button: 1, pressed: true },
        ],
        &mut raw,
    );
    assert_eq!(update_input_state(&raw, keys), KbmIntent { x: 0, y: 0, action_a: true, action_b: true });
}

#[test]
fn mouse_delta_is_the_last_motion_of_the_frame() {
    let mut raw = RawKbmInputState::<(i32, i32)>::new();
    assert_eq!(raw.mouse_delta, None);
    process_events(
        &[DeviceInput::MouseMotion { delta: (1, 2) }, key(4, true), DeviceInput::MouseMotion { delta: (-3, 5) }],
        &mut raw,
    );
    assert_eq!(raw.mouse_delta, Some((-3, 5)));
    assert!(raw.key_down(4));
    process_events(&[key(4, false)], &mut raw);
    assert_eq!(raw.mouse_delta, None);
}
