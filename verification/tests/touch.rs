use kubi::touch::{RawTouchState, TouchInput, TouchPhase, FingerAreas, TouchControls, touch_controls};

fn touch(id: u64, phase: TouchPhase, location: (i32, i32)) -> TouchInput<(i32, i32), u8> {
    TouchInput { id, device_id: (id % 2) as u8, phase, location }
}

#[test]
fn fingers_start_move_and_lift() {
    let mut state: RawTouchState<(i32, i32), u8> = RawTouchState::new();
    state.process_touch_events(&[touch(1, TouchPhase::Started, (10, 20)), touch(2, TouchPhase::Started, (5, 5))]);
    assert_eq!(state.fingers().len(), 2);
    let one = state.fingers().iter().find(|f| f.id == 1).copied().expect("finger 1");
    assert_eq!(one.start_position, (10, 20));
    assert_eq!(one.device_id, 1);
    assert_eq!(one.current_position, (10, 20));
    assert_eq!(one.prev_position, (10, 20));
    assert!(!one.has_moved);

    state.process_touch_events(&[touch(1, TouchPhase::Moved, (12, 25)), touch(2, TouchPhase::Ended, (5, 5))]);
    assert_eq!(state.fingers().len(), 1);
    let one = state.fingers()[0];
    assert_eq!(one.id, 1);
    assert_eq!(one.start_position, (10, 20));
    assert_eq!(one.prev_position, (10, 20));
    assert_eq!(one.current_position, (12, 25));
    assert!(one.has_moved);

    state.process_touch_events(&[]);
    let one = state.fingers()[0];
    assert_eq!(one.prev_position, (12, 25));
    assert_eq!(one.current_position, (12, 25));
}

#[test]
fn unknown_fingers_are_ignored_and_restarts_replace() {
    let mut state: RawTouchState<(i32, i32), u8> = RawTouchState::default();
    state.process_touch_events(&[touch(9, TouchPhase::Moved, (1, 1)), touch(9, TouchPhase::Cancelled, (1, 1))]);
    assert!(state.fingers().is_empty());
    state.process_touch_events(&[
        touch(3, TouchPhase::Started, (0, 0)),
        touch(3, TouchPhase::Moved, (4, 4)),
        touch(3, TouchPhase::Started, (7, 7)),
    ]);
    assert_eq!(state.fingers().len(), 1);
    let f = state.fingers()[0];
    assert_eq!((f.start_position, f.current_position, f.has_moved), ((7, 7), (7, 7), false));
}

fn areas(id: u64, movement: bool, action: bool, button_a: bool, button_b: bool, look: bool) -> FingerAreas {
    FingerAreas { id, movement, action, button_a, button_b, look }
}

#[test]
fn touch_controls_pick_the_first_fingers() {
    let fingers = [
        areas(1, false, true, true, false, true),
        areas(2, true, false, false, false, false),
        areas(3, false, false, false, false, true),
        areas(4, true, false, false, false, false),
    ];
    let controls = touch_controls(&fingers);
    assert_eq!(controls.movement, Some(1));
    assert!(controls.action_a);
    assert!(!controls.action_b);
    // finger 1 presses the first button, so the camera follows finger 3
    assert_eq!(controls.look, Some(2));
}

#[test]
fn no_fingers_no_controls() {
    assert_eq!(
        touch_controls(&[]),
        TouchControls { movement: None, action_a: false, action_b: false, look: None }
    );
    let on_button_only = [areas(5, false, false, true, true, false)];
    let controls = touch_controls(&on_button_only);
    assert!(!controls.action_a && !controls.action_b);
}

#[test]
fn lifting_a_finger_keeps_the_others_findable() {
    let mut state: RawTouchState<(i32, i32), u8> = RawTouchState::new();
    state.process_touch_events(&[
        touch(1, TouchPhase::Started, (1, 1)),
        touch(2, TouchPhase::Started, (2, 2)),
        touch(3, TouchPhase::Started, (3, 3)),
        touch(4, TouchPhase::Started, (4, 4)),
    ]);
    state.process_touch_events(&[
        touch(2, TouchPhase::Ended, (2, 2)),
        touch(4, TouchPhase::Moved, (40, 40)),
        touch(1, TouchPhase::Cancelled, (1, 1)),
        touch(3, TouchPhase::Moved, (30, 30)),
        touch(2, TouchPhase::Moved, (20, 20)),
    ]);
    let mut ids: Vec<u64> = state.fingers().iter().map(|f| f.id).collect();
    ids.sort();
    assert_eq!(ids, vec![3, 4]);
    let three = state.fingers().iter().find(|f| f.id == 3).copied().expect("finger 3");
    let four = state.fingers().iter().find(|f| f.id == 4).copied().expect("finger 4");
    assert_eq!((three.current_position, three.has_moved), ((30, 30), true));
    assert_eq!((four.current_position, four.has_moved), ((40, 40), true));
    state.process_touch_events(&[touch(5, TouchPhase::Started, (5, 5)), touch(3, TouchPhase::Ended, (0, 0))]);
    let mut ids: Vec<u64> = state.fingers().iter().map(|f| f.id).collect();
    ids.sort();
    assert_eq!(ids, vec![4, 5]);
}
