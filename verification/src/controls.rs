//! Cursor lock, controller switching and block placement decisions.

use vstd::prelude::*;
use crate::input::{DeviceInput, RawKbmInputState};

verus! {

// ---------------------------------------------------------------------------
// cursor lock

/// Whether the cursor is captured by the window.
#[derive(Clone, Copy, Debug, PartialEq, Eq, Structural)]
pub struct CursorLock(pub bool);

/// The cursor starts free.
pub fn insert_lock_state() -> (lock: CursorLock)
    ensures
        lock == CursorLock(false),
{
    CursorLock(false)
}

/// Capture the cursor.
pub fn lock_cursor_now(lock: &mut CursorLock)
    ensures
        *final(lock) == CursorLock(true),
{
    lock.0 = true
}

/// How the window holds the cursor.
#[derive(Clone, Copy, Debug, PartialEq, Eq, Structural)]
pub enum CursorGrab {
    /// Kept inside the window.
    Confined,
    /// Free to leave the window.
    Free,
}

/// What the window is told after a frame in which the cursor lock may have changed: the
/// grab mode and whether the cursor is visible. Nothing on Android, where the cursor is not
/// managed, nor when the lock was not changed; otherwise a locked cursor is confined and
/// hidden, a free one released and shown.
pub fn update_cursor_lock_state(lock: CursorLock, changed: bool, is_android: bool) -> (update: Option<(CursorGrab, bool)>)
    ensures
        is_android || !changed ==> update is None,
        !is_android && changed ==> update == Some((if lock.0 { CursorGrab::Confined } else { CursorGrab::Free }, !lock.0)),
{
    if is_android || !changed {
        return None;
    }
    let grab = if lock.0 {
        CursorGrab::Confined
    } else {
        CursorGrab::Free
    };
    Some((grab, !lock.0))
}

/// The event is a press of the key `code`.
pub open spec fn is_key_press<M>(event: DeviceInput<M>, code: u32) -> bool {
    event == (DeviceInput::<M>::Key { keycode: Some(code), pressed: true })
}

/// How many of `events` press the key `code`.
pub open spec fn press_count<M>(events: Seq<DeviceInput<M>>, code: u32) -> nat
    decreases events.len(),
{
    if events.len() == 0 {
        0
    } else {
        press_count(events.drop_last(), code) + if is_key_press(events.last(), code) { 1nat } else { 0nat }
    }
}

/// The presses of a run of events are those of its first part plus those of the rest.
pub proof fn lemma_press_count_concat<M>(a: Seq<DeviceInput<M>>, b: Seq<DeviceInput<M>>, code: u32)
    ensures
        press_count(a + b, code) == press_count(a, code) + press_count(b, code),
    decreases b.len(),
{
    if b.len() == 0 {
        assert(a + b =~= a);
    } else {
        assert((a + b).drop_last() =~= a + b.drop_last());
        assert((a + b).last() == b.last());
        lemma_press_count_concat(a, b.drop_last(), code);
    }
}

/// One event is one press of `code` exactly when it is that key going down, and no press
/// otherwise.
pub proof fn lemma_press_count_one<M>(event: DeviceInput<M>, code: u32)
    ensures
        press_count(seq![event], code) == (if event == (DeviceInput::<M>::Key { keycode: Some(code), pressed: true }) {
            1nat
        } else {
            0nat
        }),
{
    let one = seq![event];
    assert(one.drop_last() =~= Seq::<DeviceInput<M>>::empty());
    assert(one.last() == event);
    assert(press_count(one.drop_last(), code) == 0);
}

/// Each press of the toggle key (F3) flips the cursor lock. The result tells whether some
/// press released the cursor, in which case the cursor is moved to the window centre.
pub fn debug_toggle_lock<M: Copy>(lock: &mut CursorLock, device_events: &[DeviceInput<M>], toggle_key: u32) -> (recenter: bool)
    ensures
        final(lock).0 == (old(lock).0 != (press_count(device_events@, toggle_key) % 2 == 1)),
        recenter == exists|i: int| 0 <= i < device_events@.len() && is_key_press(device_events@[i], toggle_key)
            && (old(lock).0 == (press_count(device_events@.take(i + 1), toggle_key) % 2 == 1)),
{
    let mut recenter = false;
    let mut i: usize = 0;
    while i < device_events.len()
        invariant
            i <= device_events@.len(),
            lock.0 == (old(lock).0 != (press_count(device_events@.take(i as int), toggle_key) % 2 == 1)),
            recenter == exists|j: int| 0 <= j < i && is_key_press(device_events@[j], toggle_key)
                && (old(lock).0 == (press_count(device_events@.take(j + 1), toggle_key) % 2 == 1)),
        decreases device_events@.len() - i,
    {
        proof {
            let t = device_events@.take(i + 1);
            assert(t.drop_last() =~= device_events@.take(i as int));
            assert(t.last() == device_events@[i as int]);
        }
        let is_press = match device_events[i] {
            DeviceInput::Key { keycode: Some(code), pressed: true } => code == toggle_key,
            _ => false,
        };
        if is_press {
            lock.0 = !lock.0;
            if !lock.0 {
                recenter = true;
            }
        }
        i = i + 1;
    }
    proof {
        assert(device_events@.take(device_events@.len() as int) =~= device_events@);
    }
    recenter
}

// ---------------------------------------------------------------------------
// player controllers

/// How the player's movement is controlled.
#[derive(Clone, Copy, Debug, PartialEq, Eq, Structural)]
pub enum PlayerControllerType {
    /// Free flight; physics is off.
    FlyCam,
    /// Walking with physics.
    FpsCtl,
}

/// The controller that the debug keys ask for: F4 (held) walking, else F5 (held) flying,
/// else no change. Physics is off exactly for flying.
pub fn debug_switch_ctl_type<M>(kbm_state: &RawKbmInputState<M>, fps_key: u32, fly_key: u32) -> (switch: Option<PlayerControllerType>)
    ensures
        switch == (if kbm_state.keys().contains(fps_key) {
            Some(PlayerControllerType::FpsCtl)
        } else if kbm_state.keys().contains(fly_key) {
            Some(PlayerControllerType::FlyCam)
        } else {
            None
        }),
{
    if kbm_state.key_down(fps_key) {
        Some(PlayerControllerType::FpsCtl)
    } else if kbm_state.key_down(fly_key) {
        Some(PlayerControllerType::FlyCam)
    } else {
        None
    }
}

/// Whether the physics actor is switched off under a controller.
pub fn physics_disabled(control_type: PlayerControllerType) -> (disabled: bool)
    ensures
        disabled == (control_type == PlayerControllerType::FlyCam),
{
    match control_type {
        PlayerControllerType::FlyCam => true,
        PlayerControllerType::FpsCtl => false,
    }
}

// ---------------------------------------------------------------------------
// block placement

/// What the player does to the block they look at.
#[derive(Clone, Copy, Debug, PartialEq, Eq, Structural)]
pub enum BlockAction {
    /// Put a block (cobblestone) in front of the looked-at face.
    Place,
    /// Remove the looked-at block (replace it with air).
    Break,
}

/// The block action of this frame: action B pressed this frame places, action A pressed
/// this frame breaks, and both (or neither) do nothing.
pub fn block_placement_action(action_a: bool, action_b: bool, prev_action_a: bool, prev_action_b: bool) -> (action: Option<BlockAction>)
    ensures
        action == (if (action_b && !prev_action_b) && !(action_a && !prev_action_a) {
            Some(BlockAction::Place)
        } else if (action_a && !prev_action_a) && !(action_b && !prev_action_b) {
            Some(BlockAction::Break)
        } else {
            None
        }),
{
    let action_place = action_b && !prev_action_b;
    let action_break = action_a && !prev_action_a;
    if action_place ^ action_break {
        if action_place {
            Some(BlockAction::Place)
        } else {
            Some(BlockAction::Break)
        }
    } else {
        None
    }
}

} // verus!
