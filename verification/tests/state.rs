use kubi::state::{kubi_main_step, after_frame_exit, LoopEvent, LoopStep};
use kubi::state::{frame_schedule, FrameSchedule};
use kubi::state::{GameState, NextState, LaunchMode, initialize_from_args, switch_to_loading_if_connected,
    loading_progress, switch_to_ingame_if_loaded, override_loading};
use kubi::networking::{ClientJoinState, GameType};
use kubi::input::{RawKbmInputState, DeviceInput, process_events};

fn args(list: &[&str]) -> Vec<String> {
    list.iter().map(|s| s.to_string()).collect()
}

#[test]
fn launch_modes_from_arguments() {
    assert_eq!(initialize_from_args(&args(&["kubi"]), false), LaunchMode::MainMenu);
    assert_eq!(initialize_from_args(&args(&["kubi", "play"]), false), LaunchMode::LocalSave);
    assert_eq!(initialize_from_args(&args(&["kubi", "android"]), false), LaunchMode::Android);
    assert_eq!(initialize_from_args(&args(&["kubi", "127.0.0.1:1234"]), false), LaunchMode::Connect);
    assert_eq!(initialize_from_args(&args(&["kubi", "play"]), true), LaunchMode::Android);
}

#[test]
fn launch_modes_choose_game_type_and_first_state() {
    assert_eq!(LaunchMode::Android.game_type(), Some(GameType::Singleplayer));
    assert_eq!(LaunchMode::LocalSave.next_state(), GameState::LoadingWorld);
    assert_eq!(LaunchMode::Connect.game_type(), Some(GameType::Muliplayer));
    assert_eq!(LaunchMode::Connect.next_state(), GameState::Connecting);
    assert_eq!(LaunchMode::MainMenu.game_type(), None);
    assert_eq!(LaunchMode::MainMenu.next_state(), GameState::MainMenu);
}

#[test]
fn joined_clients_go_on_to_loading() {
    let mut next = NextState(None);
    switch_to_loading_if_connected(&mut next, ClientJoinState::Connected);
    assert_eq!(next, NextState(None));
    switch_to_loading_if_connected(&mut next, ClientJoinState::Joined);
    assert_eq!(next, NextState(Some(GameState::LoadingWorld)));
}

#[test]
fn loading_progress_counts_ready_chunks() {
    assert_eq!(loading_progress(&[true, false, true, true]), (3, 4));
    assert_eq!(loading_progress(&[]), (0, 0));
}

#[test]
fn game_starts_when_all_chunks_are_ready() {
    let mut next = NextState(None);
    switch_to_ingame_if_loaded(&[], &mut next);
    assert_eq!(next, NextState(None));
    switch_to_ingame_if_loaded(&[true, false], &mut next);
    assert_eq!(next, NextState(None));
    switch_to_ingame_if_loaded(&[true, true], &mut next);
    assert_eq!(next, NextState(Some(GameState::InGame)));
}

#[test]
fn holding_the_skip_key_skips_loading() {
    let mut kbm = RawKbmInputState::<(i32, i32)>::new();
    let mut next = NextState(Some(GameState::LoadingWorld));
    override_loading(&kbm, 24, &mut next);
    assert_eq!(next, NextState(Some(GameState::LoadingWorld)));
    process_events(&[DeviceInput::Key { keycode: Some(24), pressed: true }], &mut kbm);
    override_loading(&kbm, 24, &mut next);
    assert_eq!(next, NextState(Some(GameState::InGame)));
}

#[test]
fn full_progress_exactly_when_the_game_starts() {
    for chunks in [vec![true, true, true], vec![true, false, true], vec![false]] {
        let (loaded, total) = loading_progress(&chunks);
        let mut next = NextState(None);
        switch_to_ingame_if_loaded(&chunks, &mut next);
        assert_eq!(loaded == total, next == NextState(Some(GameState::InGame)));
    }
}

#[test]
fn frame_schedule_follows_state_and_game_type() {
    assert_eq!(
        frame_schedule(GameState::LoadingWorld, GameType::Singleplayer, false, false),
        FrameSchedule {
            init_world: true,
            spawn_player: true,
            networking: false,
            connecting_screen: false,
            loading_screen: true,
            world_streaming: true,
            gameplay: false,
        }
    );
    assert_eq!(
        frame_schedule(GameState::Connecting, GameType::Muliplayer, false, false),
        FrameSchedule {
            init_world: false,
            spawn_player: false,
            networking: true,
            connecting_screen: true,
            loading_screen: false,
            world_streaming: false,
            gameplay: false,
        }
    );
    let playing = frame_schedule(GameState::InGame, GameType::Muliplayer, true, false);
    assert!(playing.gameplay && playing.world_streaming && !playing.spawn_player && !playing.init_world);
}

#[test]
fn main_loop_waits_for_resume_then_runs_frames() {
    let mut ready = false;
    let waiting = kubi_main_step(&mut ready, LoopEvent::AboutToWait, false);
    assert_eq!(waiting, LoopStep { wait: true, start: false, handle: false, run_frame: false, exit: false });
    assert!(!ready);
    let started = kubi_main_step(&mut ready, LoopEvent::Resumed, false);
    assert_eq!(started, LoopStep { wait: false, start: true, handle: true, run_frame: false, exit: false });
    assert!(ready);
    let frame = kubi_main_step(&mut ready, LoopEvent::AboutToWait, false);
    assert!(frame.run_frame && !frame.start && !frame.exit);
    assert!(!kubi_main_step(&mut ready, LoopEvent::Suspended, false).exit);
    assert!(kubi_main_step(&mut ready, LoopEvent::Suspended, true).exit);
    assert!(kubi_main_step(&mut ready, LoopEvent::CloseRequested, false).exit);
}

#[test]
fn a_frame_exits_only_when_asked() {
    assert!(after_frame_exit(true));
    assert!(!after_frame_exit(false));
}

#[test]
fn startup_runs_once_at_the_first_resume() {
    let events = [
        LoopEvent::Other,
        LoopEvent::AboutToWait,
        LoopEvent::Suspended,
        LoopEvent::Resumed,
        LoopEvent::AboutToWait,
        LoopEvent::Resumed,
        LoopEvent::AboutToWait,
    ];
    let mut ready = false;
    let steps: Vec<LoopStep> = events.iter().map(|&e| kubi_main_step(&mut ready, e, false)).collect();
    let starts: Vec<usize> = (0..steps.len()).filter(|&i| steps[i].start).collect();
    assert_eq!(starts, vec![3]);
    assert!(steps[..3].iter().all(|s| s.wait && !s.handle && !s.run_frame));
    assert!(steps[3..].iter().all(|s| !s.wait && s.handle));
    let frames: Vec<usize> = (0..steps.len()).filter(|&i| steps[i].run_frame).collect();
    assert_eq!(frames, vec![4, 6]);
}
