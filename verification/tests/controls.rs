use kubi::controls::{update_cursor_lock_state, CursorGrab};
use kubi::controls::{CursorLock, insert_lock_state, lock_cursor_now, debug_toggle_lock,
    PlayerControllerType, debug_switch_ctl_type, physics_disabled, BlockAction, block_placement_action};
use kubi::input::{DeviceInput, RawKbmInputState, process_events};
use kubi::events::{MouseButton, mouse_button_code, keyboard_input_event, mouse_input_event};

const F3: u32 = 62;

fn press(code: u32) -> DeviceInput<(i32, i32)> {
    DeviceInput::Key { keycode: Some(code), pressed: true }
}

#[test]
fn cursor_lock_starts_free_and_locks() {
    let mut lock = insert_lock_state();
    assert_eq!(lock, CursorLock(false));
    lock_cursor_now(&mut lock);
    assert_eq!(lock, CursorLock(true));
}

#[test]
fn each_toggle_press_flips_the_lock() {
    let mut lock = CursorLock(true);
    let recenter = debug_toggle_lock(&mut lock, &[press(F3)], F3);
    assert_eq!(lock, CursorLock(false));
    assert!(recenter);
    let recenter = debug_toggle_lock(&mut lock, &[press(F3)], F3);
    assert_eq!(lock, CursorLock(true));
    assert!(!recenter);
    let release = DeviceInput::Key { keycode: Some(F3), pressed: false };
    let recenter = debug_toggle_lock(&mut lock, &[press(F3), release, press(1), press(F3)], F3);
    assert_eq!(lock, CursorLock(true));
    assert!(recenter);
}

#[test]
fn debug_keys_switch_the_controller() {
    let mut kbm = RawKbmInputState::<(i32, i32)>::new();
    assert_eq!(debug_switch_ctl_type(&kbm, 4, 5), None);
    process_events(&[press(5)], &mut kbm);
    assert_eq!(debug_switch_ctl_type(&kbm, 4, 5), Some(PlayerControllerType::FlyCam));
    process_events(&[press(4)], &mut kbm);
    assert_eq!(debug_switch_ctl_type(&kbm, 4, 5), Some(PlayerControllerType::FpsCtl));
    assert!(physics_disabled(PlayerControllerType::FlyCam));
    assert!(!physics_disabled(PlayerControllerType::FpsCtl));
}

#[test]
fn block_actions_fire_on_new_presses_only() {
    assert_eq!(block_placement_action(false, true, false, false), Some(BlockAction::Place));
    assert_eq!(block_placement_action(true, false, false, false), Some(BlockAction::Break));
    assert_eq!(block_placement_action(true, true, false, false), None);
    assert_eq!(block_placement_action(false, true, false, true), None);
    assert_eq!(block_placement_action(true, true, true, false), Some(BlockAction::Place));
    assert_eq!(block_placement_action(false, false, false, false), None);
}

#[test]
fn window_input_becomes_device_input() {
    assert_eq!(mouse_button_code(MouseButton::Left), 0);
    assert_eq!(mouse_button_code(MouseButton::Right), 1);
    assert_eq!(mouse_button_code(MouseButton::Middle), 2);
    assert_eq!(mouse_button_code(MouseButton::Back), 3);
    assert_eq!(mouse_button_code(MouseButton::Forward), 4);
    assert_eq!(mouse_button_code(MouseButton::Other(17)), 17);
    assert_eq!(keyboard_input_event::<(i32, i32)>(Some(3), true, true), None);
    assert_eq!(keyboard_input_event::<(i32, i32)>(Some(3), true, false), Some(DeviceInput::Key { keycode: Some(3), pressed: true }));
    assert_eq!(mouse_input_event::<(i32, i32)>(MouseButton::Right, false), DeviceInput::Button { button: 1, pressed: false });
}

#[test]
fn cursor_window_follows_a_changed_lock() {
    assert_eq!(update_cursor_lock_state(CursorLock(true), true, false), Some((CursorGrab::Confined, false)));
    assert_eq!(update_cursor_lock_state(CursorLock(false), true, false), Some((CursorGrab::Free, true)));
    assert_eq!(update_cursor_lock_state(CursorLock(true), false, false), None);
    assert_eq!(update_cursor_lock_state(CursorLock(true), true, true), None);
}
