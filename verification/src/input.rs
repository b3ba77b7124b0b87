//! Raw keyboard and mouse-button state, and the touch-area checks.

use vstd::prelude::*;
use tinyset::SetU32;

verus! {

#[verifier::external_type_specification]
#[verifier::external_body]
pub struct ExSetU32(SetU32);

/// The numbers a `tinyset::SetU32` holds.
pub uninterp spec fn set_u32_contents(set: SetU32) -> Set<u32>;

/// Calls `tinyset::SetU32::new`. Claimed: the set is empty.
#[verifier::external_body]
fn set_u32_new() -> (set: SetU32)
    ensures
        set_u32_contents(set) == Set::<u32>::empty(),
{
    SetU32::new()
}

/// Calls `tinyset::SetU32::insert`. Claimed, as its documentation says: `e` is added and
/// the result tells whether it was absent.
#[verifier::external_body]
fn set_u32_insert(set: &mut SetU32, e: u32) -> (added: bool)
    ensures
        set_u32_contents(*final(set)) == set_u32_contents(*old(set)).insert(e),
        added == !set_u32_contents(*old(set)).contains(e),
{
    set.insert(e)
}

/// Calls `tinyset::SetU32::remove`. Claimed: `e` is no longer in the set and the result
/// tells whether it was there.
#[verifier::external_body]
fn set_u32_remove(set: &mut SetU32, e: u32) -> (removed: bool)
    ensures
        set_u32_contents(*final(set)) == set_u32_contents(*old(set)).remove(e),
        removed == set_u32_contents(*old(set)).contains(e),
{
    set.remove(e)
}

/// Calls `tinyset::SetU32::contains`. Claimed: whether `e` is in the set.
#[verifier::external_body]
fn set_u32_contains(set: &SetU32, e: u32) -> (present: bool)
    ensures
        present == set_u32_contents(*set).contains(e),
{
    set.contains(e)
}

/// A raw input event from a keyboard or mouse, as the client's input system reads it.
/// Keys are identified by their physical key code; `M` is the type of a mouse movement.
#[derive(Clone, Copy, Debug, PartialEq, Eq)]
pub enum DeviceInput<M> {
    /// A key changed state; `keycode` is `None` for keys without a code.
    Key { keycode: Option<u32>, pressed: bool },
    /// A mouse button changed state.
    Button { button: u32, pressed: bool },
    /// The mouse moved by `delta`.
    MouseMotion { delta: M },
    /// Any other device event.
    Other,
}

/// The keys held down, the state of the first 32 mouse buttons, and the mouse movement of
/// the frame (`None` when the mouse did not move).
pub struct RawKbmInputState<M> {
    pub keyboard_state: SetU32,
    pub button_state: [bool; 32],
    pub mouse_delta: Option<M>,
}

impl<M> RawKbmInputState<M> {
    /// The key codes held down.
    pub open spec fn keys(&self) -> Set<u32> {
        set_u32_contents(self.keyboard_state)
    }

    /// No keys held, no buttons pressed, no movement.
    pub fn new() -> (state: Self)
        ensures
            state.keys() == Set::<u32>::empty(),
            forall|i: int| 0 <= i < 32 ==> !state.button_state@[i],
            state.mouse_delta is None,
    {
        RawKbmInputState { keyboard_state: set_u32_new(), button_state: [false; 32], mouse_delta: None }
    }

    /// Whether the key `code` is held down.
    pub fn key_down(&self, code: u32) -> (down: bool)
        ensures
            down == self.keys().contains(code),
    {
        set_u32_contains(&self.keyboard_state, code)
    }
}

/// The held keys after `events`, starting from `keys`: a press adds its key, a release
/// removes it, other events leave the set alone.
pub open spec fn keys_after<M>(keys: Set<u32>, events: Seq<DeviceInput<M>>) -> Set<u32>
    decreases events.len(),
{
    if events.len() == 0 {
        keys
    } else {
        let before = keys_after(keys, events.drop_last());
        match events.last() {
            DeviceInput::Key { keycode: Some(code), pressed } => {
                if pressed {
                    before.insert(code)
                } else {
                    before.remove(code)
                }
            },
            _ => before,
        }
    }
}

/// The button states after `events`, starting from `buttons`: an event for a button below
/// 32 sets that button's state, other events leave the states alone.
pub open spec fn buttons_after<M>(buttons: Seq<bool>, events: Seq<DeviceInput<M>>) -> Seq<bool>
    decreases events.len(),
{
    if events.len() == 0 {
        buttons
    } else {
        let before = buttons_after(buttons, events.drop_last());
        match events.last() {
            DeviceInput::Button { button, pressed } => {
                if button < 32 {
                    before.update(button as int, pressed)
                } else {
                    before
                }
            },
            _ => before,
        }
    }
}

/// The mouse movement of a frame with `events`: that of the last motion event, if any.
pub open spec fn mouse_delta_after<M>(events: Seq<DeviceInput<M>>) -> Option<M>
    decreases events.len(),
{
    if events.len() == 0 {
        None
    } else {
        match events.last() {
            DeviceInput::MouseMotion { delta } => Some(delta),
            _ => mouse_delta_after(events.drop_last()),
        }
    }
}

/// The frame's mouse movement is that of the frame's last motion event: there is none
/// exactly when no event of the frame is a motion, and otherwise it is the delta of a
/// motion event that no later motion event follows.
pub proof fn lemma_mouse_delta_is_last_motion<M>(events: Seq<DeviceInput<M>>)
    ensures
        (match mouse_delta_after(events) {
            None => forall|j: int| 0 <= j < events.len() ==> !(#[trigger] events[j] is MouseMotion),
            Some(d) => exists|j: int| {
                &&& 0 <= j < events.len()
                &&& #[trigger] events[j] == DeviceInput::<M>::MouseMotion { delta: d }
                &&& forall|k: int| j < k < events.len() ==> !(#[trigger] events[k] is MouseMotion)
            },
        }),
    decreases events.len(),
{
    if events.len() > 0 {
        let init = events.drop_last();
        let last = events.len() - 1;
        assert(events.last() == events[last]);
        lemma_mouse_delta_is_last_motion(init);
        match events.last() {
            DeviceInput::MouseMotion { delta } => {
                assert(events[last] == DeviceInput::<M>::MouseMotion { delta });
            },
            _ => {
                match mouse_delta_after(init) {
                    None => {
                        assert forall|j: int| 0 <= j < events.len() implies !(#[trigger] events[j] is MouseMotion) by {
                            if j < last {
                                assert(events[j] == init[j]);
                            }
                        }
                    },
                    Some(d) => {
                        let j = choose|j: int| {
                            &&& 0 <= j < init.len()
                            &&& #[trigger] init[j] == DeviceInput::<M>::MouseMotion { delta: d }
                            &&& forall|k: int| j < k < init.len() ==> !(#[trigger] init[k] is MouseMotion)
                        };
                        assert(events[j] == init[j]);
                        assert forall|k: int| j < k < events.len() implies !(#[trigger] events[k] is MouseMotion) by {
                            if k < last {
                                assert(events[k] == init[k]);
                            }
                        }
                    },
                }
            },
        }
    }
}

/// Events that are not mouse motions do not change the frame's mouse movement: appending
/// one to a frame's events leaves the movement as it was.
pub proof fn lemma_other_events_keep_mouse_delta<M>(events: Seq<DeviceInput<M>>, e: DeviceInput<M>)
    requires
        !(e is MouseMotion),
    ensures
        mouse_delta_after(events.push(e)) == mouse_delta_after(events),
{
    assert(events.push(e).drop_last() =~= events);
    assert(events.push(e).last() == e);
}

proof fn lemma_buttons_after_len<M>(buttons: Seq<bool>, events: Seq<DeviceInput<M>>)
    requires
        buttons.len() == 32,
    ensures
        buttons_after(buttons, events).len() == buttons.len(),
    decreases events.len(),
{
    if events.len() > 0 {
        lemma_buttons_after_len(buttons, events.drop_last());
    }
}

/// The event is a press or release of the key `code`.
pub open spec fn mentions_key<M>(event: DeviceInput<M>, code: u32) -> bool {
    event matches DeviceInput::Key { keycode: Some(k), .. } && k == code
}

/// An event that does not mention a key leaves its state alone.
proof fn lemma_unmentioned_key<M>(keys: Set<u32>, events: Seq<DeviceInput<M>>, code: u32)
    requires
        events.len() > 0,
        !mentions_key(events.last(), code),
    ensures
        keys_after(keys, events).contains(code) == keys_after(keys, events.drop_last()).contains(code),
{
}

/// A key is held after a run of events exactly when the last event about it is a press.
pub proof fn lemma_last_key_event_decides<M>(keys: Set<u32>, events: Seq<DeviceInput<M>>, code: u32, i: int)
    requires
        0 <= i < events.len(),
        mentions_key(events[i], code),
        forall|j: int| i < j < events.len() ==> !mentions_key(#[trigger] events[j], code),
    ensures
        keys_after(keys, events).contains(code) <==> events[i] matches DeviceInput::Key { pressed: true, .. },
    decreases events.len(),
{
    if i < events.len() - 1 {
        let init = events.drop_last();
        assert(!mentions_key(events[events.len() - 1], code));
        lemma_unmentioned_key(keys, events, code);
        assert forall|j: int| i < j < init.len() implies !mentions_key(#[trigger] init[j], code) by {
            assert(init[j] == events[j]);
        }
        lemma_last_key_event_decides(keys, init, code, i);
    }
}

/// A key that no event mentions keeps its state.
pub proof fn lemma_key_untouched<M>(keys: Set<u32>, events: Seq<DeviceInput<M>>, code: u32)
    requires
        forall|j: int| 0 <= j < events.len() ==> !mentions_key(#[trigger] events[j], code),
    ensures
        keys_after(keys, events).contains(code) == keys.contains(code),
    decreases events.len(),
{
    if events.len() > 0 {
        let init = events.drop_last();
        assert(!mentions_key(events[events.len() - 1], code));
        lemma_unmentioned_key(keys, events, code);
        assert forall|j: int| 0 <= j < init.len() implies !mentions_key(#[trigger] init[j], code) by {
            assert(init[j] == events[j]);
        }
        lemma_key_untouched(keys, init, code);
    }
}

/// A button below 32 is down after a run of events exactly when the last event about it
/// is a press.
pub proof fn lemma_last_button_event_decides<M>(buttons: Seq<bool>, events: Seq<DeviceInput<M>>, b: u32, i: int)
    requires
        buttons.len() == 32,
        b < 32,
        0 <= i < events.len(),
        events[i] matches DeviceInput::Button { button, .. } && button == b,
        forall|j: int| i < j < events.len() ==> !(#[trigger] events[j] matches DeviceInput::Button { button, .. } && button == b),
    ensures
        buttons_after(buttons, events)[b as int] <==> events[i] matches DeviceInput::Button { pressed: true, .. },
    decreases events.len(),
{
    let init = events.drop_last();
    assert(events.last() == events[events.len() - 1]);
    lemma_buttons_after_len(buttons, init);
    if i < events.len() - 1 {
        assert forall|j: int| i < j < init.len() implies !(#[trigger] init[j] matches DeviceInput::Button { button, .. } && button == b) by {
            assert(init[j] == events[j]);
        }
        assert(init[i] == events[i]);
        lemma_last_button_event_decides(buttons, init, b, i);
    }
}

/// A button that no event of a run is about keeps its state.
pub proof fn lemma_button_untouched<M>(buttons: Seq<bool>, events: Seq<DeviceInput<M>>, b: u32)
    requires
        buttons.len() == 32,
        b < 32,
        forall|j: int| 0 <= j < events.len() ==> !(#[trigger] events[j] matches DeviceInput::Button { button, .. } && button == b),
    ensures
        buttons_after(buttons, events).len() == 32,
        buttons_after(buttons, events)[b as int] == buttons[b as int],
    decreases events.len(),
{
    lemma_buttons_after_len(buttons, events);
    if events.len() > 0 {
        let init = events.drop_last();
        assert(events.last() == events[events.len() - 1]);
        lemma_buttons_after_len(buttons, init);
        assert forall|j: int| 0 <= j < init.len() implies !(#[trigger] init[j] matches DeviceInput::Button { button, .. } && button == b) by {
            assert(init[j] == events[j]);
        }
        lemma_button_untouched(buttons, init, b);
    }
}

/// Apply this frame's keyboard, mouse-button and mouse-motion events to the raw input
/// state, in order; the frame's mouse movement is that of its last motion event.
pub fn process_events<M: Copy>(device_events: &[DeviceInput<M>], input_state: &mut RawKbmInputState<M>)
    ensures
        final(input_state).keys() == keys_after(old(input_state).keys(), device_events@),
        final(input_state).button_state@ == buttons_after(old(input_state).button_state@, device_events@),
        final(input_state).mouse_delta == mouse_delta_after(device_events@),
        (match final(input_state).mouse_delta {
            None => forall|j: int| 0 <= j < device_events@.len() ==> !(#[trigger] device_events@[j] is MouseMotion),
            Some(d) => exists|j: int| {
                &&& 0 <= j < device_events@.len()
                &&& #[trigger] device_events@[j] == DeviceInput::<M>::MouseMotion { delta: d }
                &&& forall|k: int| j < k < device_events@.len() ==> !(#[trigger] device_events@[k] is MouseMotion)
            },
        }),
{
    input_state.mouse_delta = None;
    let mut i: usize = 0;
    while i < device_events.len()
        invariant
            i <= device_events@.len(),
            input_state.keys() == keys_after(old(input_state).keys(), device_events@.take(i as int)),
            input_state.button_state@ == buttons_after(old(input_state).button_state@, device_events@.take(i as int)),
            input_state.mouse_delta == mouse_delta_after(device_events@.take(i as int)),
        decreases device_events@.len() - i,
    {
        proof {
            let t = device_events@.take(i + 1);
            assert(t.drop_last() =~= device_events@.take(i as int));
            assert(t.last() == device_events@[i as int]);
            lemma_buttons_after_len(old(input_state).button_state@, device_events@.take(i as int));
        }
        match device_events[i] {
            DeviceInput::Key { keycode, pressed } => {
                if let Some(keycode) = keycode {
                    if pressed {
                        set_u32_insert(&mut input_state.keyboard_state, keycode);
                    } else {
                        set_u32_remove(&mut input_state.keyboard_state, keycode);
                    }
                }
            },
            DeviceInput::Button { button, pressed } => {
                if button < 32 {
                    input_state.button_state[button as usize] = pressed;
                }
            },
            DeviceInput::MouseMotion { delta } => {
                input_state.mouse_delta = Some(delta);
            },
            DeviceInput::Other => {},
        }
        i = i + 1;
    }
    proof {
        assert(device_events@.take(device_events@.len() as int) =~= device_events@);
        lemma_mouse_delta_is_last_motion(device_events@);
    }
}

/// The keys that move the player (physical key codes): right, left, forward and back.
#[derive(Clone, Copy, Debug, PartialEq, Eq, Structural)]
pub struct MovementKeys {
    pub right: u32,
    pub left: u32,
    pub forward: u32,
    pub back: u32,
}

/// What the keyboard and mouse ask of a frame: a step along each axis (-1, 0 or 1) and the
/// two action buttons.
#[derive(Clone, Copy, Debug, PartialEq, Eq, Structural)]
pub struct KbmIntent {
    pub x: i8,
    pub y: i8,
    pub action_a: bool,
    pub action_b: bool,
}

/// 1 when the key `code` is among `keys`, else 0.
pub open spec fn held(keys: Set<u32>, code: u32) -> int {
    if keys.contains(code) {
        1
    } else {
        0
    }
}

/// The keyboard's and mouse's share of a frame's inputs: right minus left and forward
/// minus back, mouse button 1 for the first action and button 3 for the second.
pub fn update_input_state<M>(raw: &RawKbmInputState<M>, keys: MovementKeys) -> (intent: KbmIntent)
    ensures
        intent.x == held(raw.keys(), keys.right) - held(raw.keys(), keys.left),
        intent.y == held(raw.keys(), keys.forward) - held(raw.keys(), keys.back),
        intent.action_a == raw.button_state@[1],
        intent.action_b == raw.button_state@[3],
{
    let right: i8 = if raw.key_down(keys.right) { 1 } else { 0 };
    let left: i8 = if raw.key_down(keys.left) { 1 } else { 0 };
    let forward: i8 = if raw.key_down(keys.forward) { 1 } else { 0 };
    let back: i8 = if raw.key_down(keys.back) { 1 } else { 0 };
    KbmIntent {
        x: right - left,
        y: forward - back,
        action_a: raw.button_state[1],
        action_b: raw.button_state[3],
    }
}

/// Which positions of a finger must lie in an area for the finger to count.
#[derive(Clone, Copy, Debug, PartialEq, Eq, Structural)]
pub enum FingerCheck {
    Start,
    Current,
    StartOrCurrent,
    StartAndCurrent,
    NotMoved,
}

impl Default for FingerCheck {
    fn default() -> (check: Self)
        ensures
            check == FingerCheck::Start,
    {
        FingerCheck::Start
    }
}

/// Whether a finger passes `check`, given whether its start and current positions lie in
/// the area and whether it has moved: `NotMoved` asks for the current position inside and
/// no movement.
pub fn finger_passes(check: FingerCheck, start_inside: bool, current_inside: bool, has_moved: bool) -> (passes: bool)
    ensures
        passes == (match check {
            FingerCheck::Start => start_inside,
            FingerCheck::Current => current_inside,
            FingerCheck::StartOrCurrent => start_inside || current_inside,
            FingerCheck::StartAndCurrent => start_inside && current_inside,
            FingerCheck::NotMoved => current_inside && !has_moved,
        }),
{
    match check {
        FingerCheck::Start => start_inside,
        FingerCheck::Current => current_inside,
        FingerCheck::StartOrCurrent => start_inside || current_inside,
        FingerCheck::StartAndCurrent => start_inside && current_inside,
        FingerCheck::NotMoved => current_inside && !has_moved,
    }
}

} // verus!
