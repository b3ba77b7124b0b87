//! Game states and the rules that move the client between them.

use vstd::prelude::*;
use crate::networking::{ClientJoinState, GameType};
use crate::input::RawKbmInputState;

verus! {

/// The screens the client goes through.
#[derive(Clone, Copy, Debug, PartialEq, Eq, Structural)]
pub enum GameState {
    MainMenu,
    Connecting,
    LoadingWorld,
    InGame,
}

/// The state to switch to at the end of the frame, if any.
#[derive(Clone, Copy, Debug, PartialEq, Eq, Structural)]
pub struct NextState(pub Option<GameState>);

/// How the client was launched, as decided from its command line.
#[derive(Clone, Copy, Debug, PartialEq, Eq, Structural)]
pub enum LaunchMode {
    /// Android (or the `android` argument): a local world without a save file.
    Android,
    /// The `play` argument: the local world saved in `./world.kubi`.
    LocalSave,
    /// Any other argument: the address of a server to connect to.
    Connect,
    /// No argument: the main menu.
    MainMenu,
}

/// The decision of [`initialize_from_args`] for the arguments `args` (the program name
/// first): Android and the `android` argument, then `play`, then any other argument, then
/// the main menu.
pub open spec fn launch_mode_of(args: Seq<Seq<char>>, is_android: bool) -> LaunchMode {
    if is_android || (args.len() > 1 && args[1] == "android"@) {
        LaunchMode::Android
    } else if args.len() > 1 && args[1] == "play"@ {
        LaunchMode::LocalSave
    } else if args.len() > 1 {
        LaunchMode::Connect
    } else {
        LaunchMode::MainMenu
    }
}

impl LaunchMode {
    /// Whether the game is local or networked (the main menu does not decide yet).
    pub fn game_type(self) -> (game_type: Option<GameType>)
        ensures
            game_type == (match self {
                LaunchMode::Android => Some(GameType::Singleplayer),
                LaunchMode::LocalSave => Some(GameType::Singleplayer),
                LaunchMode::Connect => Some(GameType::Muliplayer),
                LaunchMode::MainMenu => None,
            }),
    {
        match self {
            LaunchMode::Android => Some(GameType::Singleplayer),
            LaunchMode::LocalSave => Some(GameType::Singleplayer),
            LaunchMode::Connect => Some(GameType::Muliplayer),
            LaunchMode::MainMenu => None,
        }
    }

    /// The first state: local games load their world, networked ones connect.
    pub fn next_state(self) -> (state: GameState)
        ensures
            state == (match self {
                LaunchMode::Android => GameState::LoadingWorld,
                LaunchMode::LocalSave => GameState::LoadingWorld,
                LaunchMode::Connect => GameState::Connecting,
                LaunchMode::MainMenu => GameState::MainMenu,
            }),
    {
        match self {
            LaunchMode::Android => GameState::LoadingWorld,
            LaunchMode::LocalSave => GameState::LoadingWorld,
            LaunchMode::Connect => GameState::Connecting,
            LaunchMode::MainMenu => GameState::MainMenu,
        }
    }
}

/// Which groups of systems a frame runs besides those that always run (input, UI,
/// cameras, state changes and rendering).
#[derive(Clone, Copy, Debug, PartialEq, Eq, Structural)]
pub struct FrameSchedule {
    /// Create the world (chunk manager) that is missing.
    pub init_world: bool,
    /// Spawn the local player that is missing.
    pub spawn_player: bool,
    /// Run the network systems (and, late in the frame, disconnect on exit).
    pub networking: bool,
    /// Show the connecting screen and watch for the server's acceptance.
    pub connecting_screen: bool,
    /// Show the loading screen and watch for the world to be ready.
    pub loading_screen: bool,
    /// Load and unload chunks around the player.
    pub world_streaming: bool,
    /// Player control, physics, block interaction and the in-game UI.
    pub gameplay: bool,
}

/// Whether the state is one in which the world exists: loading it or playing in it.
pub open spec fn world_exists(state: GameState) -> bool {
    state == GameState::LoadingWorld || state == GameState::InGame
}

/// The systems of a frame: the world is created when it exists in this state but was not
/// made yet, and the local player spawned in such a local game when there is none;
/// networked games run the network systems; each screen runs its own systems.
pub fn frame_schedule(state: GameState, game_type: GameType, has_world: bool, has_main_player: bool) -> (schedule: FrameSchedule)
    ensures
        schedule == (FrameSchedule {
            init_world: world_exists(state) && !has_world,
            spawn_player: world_exists(state) && game_type == GameType::Singleplayer && !has_main_player,
            networking: game_type == GameType::Muliplayer,
            connecting_screen: state == GameState::Connecting,
            loading_screen: state == GameState::LoadingWorld,
            world_streaming: world_exists(state),
            gameplay: state == GameState::InGame,
        }),
        schedule.world_streaming == (state == GameState::LoadingWorld || state == GameState::InGame),
        schedule.init_world == ((state == GameState::LoadingWorld || state == GameState::InGame) && !has_world),
{
    let in_world = state == GameState::LoadingWorld || state == GameState::InGame;
    let single = game_type == GameType::Singleplayer;
    FrameSchedule {
        init_world: in_world && !has_world,
        spawn_player: in_world && single && !has_main_player,
        networking: game_type == GameType::Muliplayer,
        connecting_screen: state == GameState::Connecting,
        loading_screen: state == GameState::LoadingWorld,
        world_streaming: in_world,
        gameplay: state == GameState::InGame,
    }
}

/// An event of the window system's event loop, as far as the client's main loop reads it.
#[derive(Clone, Copy, Debug, PartialEq, Eq, Structural)]
pub enum LoopEvent {
    /// The application was resumed (its window can be used).
    Resumed,
    /// The application was suspended.
    Suspended,
    /// The user asked to close the window.
    CloseRequested,
    /// All pending events were handled; time for a frame.
    AboutToWait,
    /// Any other event.
    Other,
}

/// What the main loop does with one event.
#[derive(Clone, Copy, Debug, PartialEq, Eq, Structural)]
pub struct LoopStep {
    /// Only wait for the next event: the window is not ready yet.
    pub wait: bool,
    /// Create the renderer and run the startup systems first.
    pub start: bool,
    /// Hand the event to the UI and to the client's events, and poll for the next one.
    pub handle: bool,
    /// Run a frame: update, render, and clear the frame's events.
    pub run_frame: bool,
    /// Leave the event loop.
    pub exit: bool,
}

/// The main loop's step for `event`, given whether startup has run (`ready`): before
/// startup every event but a resume is only waited out; a resume starts the client. Once
/// started, every event is handled; a suspension on Android or a close request ends the
/// loop, and the end of a batch of events runs a frame (after which [`after_frame_exit`]
/// decides whether to leave).
pub open spec fn loop_step(ready: bool, event: LoopEvent, is_android: bool) -> LoopStep {
    if !ready && event != LoopEvent::Resumed {
        LoopStep { wait: true, start: false, handle: false, run_frame: false, exit: false }
    } else {
        LoopStep {
            wait: false,
            start: !ready,
            handle: true,
            run_frame: event == LoopEvent::AboutToWait,
            exit: (is_android && event == LoopEvent::Suspended) || event == LoopEvent::CloseRequested,
        }
    }
}

/// The main loop's step for `event` (see [`loop_step`]); `ready` records whether startup
/// has run, which a resume makes true.
pub fn kubi_main_step(ready: &mut bool, event: LoopEvent, is_android: bool) -> (step: LoopStep)
    ensures
        step == loop_step(*old(ready), event, is_android),
        *final(ready) == (*old(ready) || event == LoopEvent::Resumed),
        step.wait == (!*old(ready) && event != LoopEvent::Resumed),
        step.start == (!*old(ready) && event == LoopEvent::Resumed),
        step.handle == !step.wait,
        step.run_frame == (*old(ready) && event == LoopEvent::AboutToWait),
        step.exit == (*old(ready) && (event == LoopEvent::CloseRequested || (is_android && event == LoopEvent::Suspended))),
{
    let start = !*ready;
    if start {
        if event != LoopEvent::Resumed {
            return LoopStep { wait: true, start: false, handle: false, run_frame: false, exit: false };
        }
        *ready = true;
    }
    LoopStep {
        wait: false,
        start,
        handle: true,
        run_frame: event == LoopEvent::AboutToWait,
        exit: (is_android && event == LoopEvent::Suspended) || event == LoopEvent::CloseRequested,
    }
}

/// What one step of the main loop does: it only waits before startup unless the event is
/// a resume, which starts the client; every other step handles its event; a frame runs
/// exactly at the end of a batch of events after startup; and the loop is left exactly on a
/// close request, or on Android a suspension, after startup — never on any other event.
pub proof fn lemma_loop_step_reactions(ready: bool, event: LoopEvent, is_android: bool)
    ensures
        loop_step(ready, event, is_android).wait == (!ready && event != LoopEvent::Resumed),
        loop_step(ready, event, is_android).start == (!ready && event == LoopEvent::Resumed),
        loop_step(ready, event, is_android).handle == !loop_step(ready, event, is_android).wait,
        loop_step(ready, event, is_android).run_frame == (ready && event == LoopEvent::AboutToWait),
        loop_step(ready, event, is_android).exit
            == (ready && (event == LoopEvent::CloseRequested || (is_android && event == LoopEvent::Suspended))),
{
}

/// After a frame: leave the event loop exactly when a system of the frame asked to exit.
pub fn after_frame_exit(request_exit: bool) -> (exit: bool)
    ensures
        exit == request_exit,
{
    request_exit
}

/// Whether startup has run once the main loop, starting from `ready`, has handled `events`.
pub open spec fn ready_after(ready: bool, events: Seq<LoopEvent>) -> bool
    decreases events.len(),
{
    if events.len() == 0 {
        ready
    } else {
        ready_after(ready, events.drop_last()) || events.last() == LoopEvent::Resumed
    }
}

/// The step that the main loop, started without startup, takes for the `i`-th of `events`.
pub open spec fn step_at(events: Seq<LoopEvent>, i: int, is_android: bool) -> LoopStep {
    loop_step(ready_after(false, events.take(i)), events[i], is_android)
}

/// Some event before position `i` is a resume.
pub open spec fn resumed_before(events: Seq<LoopEvent>, i: int) -> bool {
    exists|j: int| 0 <= j < i && events[j] == LoopEvent::Resumed
}

proof fn lemma_ready_after_false(events: Seq<LoopEvent>)
    ensures
        ready_after(false, events) <==> resumed_before(events, events.len() as int),
    decreases events.len(),
{
    if events.len() > 0 {
        let init = events.drop_last();
        lemma_ready_after_false(init);
        if resumed_before(init, init.len() as int) {
            let j = choose|j: int| 0 <= j < init.len() && init[j] == LoopEvent::Resumed;
            assert(events[j] == LoopEvent::Resumed);
        }
        if resumed_before(events, events.len() as int) {
            let j = choose|j: int| 0 <= j < events.len() && events[j] == LoopEvent::Resumed;
            if j < init.len() {
                assert(init[j] == LoopEvent::Resumed);
            }
        }
    }
}

proof fn lemma_ready_at(events: Seq<LoopEvent>, i: int)
    requires
        0 <= i <= events.len(),
    ensures
        ready_after(false, events.take(i)) <==> resumed_before(events, i),
{
    let t = events.take(i);
    lemma_ready_after_false(t);
    if resumed_before(t, i) {
        let j = choose|j: int| 0 <= j < i && t[j] == LoopEvent::Resumed;
        assert(events[j] == LoopEvent::Resumed);
    }
    if resumed_before(events, i) {
        let j = choose|j: int| 0 <= j < i && events[j] == LoopEvent::Resumed;
        assert(t[j] == LoopEvent::Resumed);
    }
}

proof fn lemma_first_resume(events: Seq<LoopEvent>, i: int) -> (k: int)
    requires
        0 <= i < events.len(),
        resumed_before(events, i + 1),
    ensures
        0 <= k <= i,
        events[k] == LoopEvent::Resumed,
        !resumed_before(events, k),
    decreases i,
{
    if i > 0 && resumed_before(events, i) {
        lemma_first_resume(events, i - 1)
    } else {
        let j = choose|j: int| 0 <= j < i + 1 && events[j] == LoopEvent::Resumed;
        assert(j == i);
        i
    }
}

/// Over any run of events, the main loop only waits until the first resume; startup runs
/// exactly once, at that first resume, and before every other step that does something;
/// no frame runs before it or in its step.
pub proof fn lemma_startup_runs_once_first(events: Seq<LoopEvent>, is_android: bool)
    ensures
        forall|i: int| 0 <= i < events.len() ==>
            (#[trigger] step_at(events, i, is_android)).wait == !resumed_before(events, i + 1),
        forall|i: int| 0 <= i < events.len() ==>
            (#[trigger] step_at(events, i, is_android)).start
                == (events[i] == LoopEvent::Resumed && !resumed_before(events, i)),
        forall|i: int, j: int| 0 <= i < events.len() && 0 <= j < events.len()
            && (#[trigger] step_at(events, i, is_android)).start && (#[trigger] step_at(events, j, is_android)).start
            ==> i == j,
        forall|i: int| 0 <= i < events.len() && !(#[trigger] step_at(events, i, is_android)).wait
            ==> exists|k: int| 0 <= k <= i && (#[trigger] step_at(events, k, is_android)).start,
        forall|i: int| 0 <= i < events.len() && (#[trigger] step_at(events, i, is_android)).run_frame
            ==> exists|k: int| 0 <= k < i && (#[trigger] step_at(events, k, is_android)).start,
{
    assert forall|i: int| 0 <= i < events.len() implies
        (#[trigger] step_at(events, i, is_android)).wait == !resumed_before(events, i + 1)
        && step_at(events, i, is_android).start == (events[i] == LoopEvent::Resumed && !resumed_before(events, i)) by {
        lemma_ready_at(events, i);
        if events[i] == LoopEvent::Resumed {
            assert(resumed_before(events, i + 1));
        }
        if resumed_before(events, i + 1) && !resumed_before(events, i) {
            let j = choose|j: int| 0 <= j < i + 1 && events[j] == LoopEvent::Resumed;
            assert(j == i);
        }
        if resumed_before(events, i) {
            let j = choose|j: int| 0 <= j < i && events[j] == LoopEvent::Resumed;
            assert(0 <= j < i + 1 && events[j] == LoopEvent::Resumed);
        }
    }
    assert forall|i: int, j: int| 0 <= i < events.len() && 0 <= j < events.len()
        && (#[trigger] step_at(events, i, is_android)).start && (#[trigger] step_at(events, j, is_android)).start
        implies i == j by {
        if i < j {
            assert(events[i] == LoopEvent::Resumed && 0 <= i < j);
        } else if j < i {
            assert(events[j] == LoopEvent::Resumed && 0 <= j < i);
        }
    }
    assert forall|i: int| 0 <= i < events.len() && !(#[trigger] step_at(events, i, is_android)).wait
        implies exists|k: int| 0 <= k <= i && (#[trigger] step_at(events, k, is_android)).start by {
        let k = lemma_first_resume(events, i);
        assert(step_at(events, k, is_android).start);
    }
    assert forall|i: int| 0 <= i < events.len() && (#[trigger] step_at(events, i, is_android)).run_frame
        implies exists|k: int| 0 <= k < i && (#[trigger] step_at(events, k, is_android)).start by {
        let k = lemma_first_resume(events, i);
        assert(step_at(events, k, is_android).start);
        assert(k != i);
    }
}

/// How the client starts: on Android, or with the first argument `android`, it plays a
/// local world without a save; otherwise the first argument `play` plays the saved local
/// world, any other first argument is a server address to connect to, and without an
/// argument the main menu opens. Extra arguments after the first never matter.
pub proof fn lemma_launch_mode_rules(args: Seq<Seq<char>>, is_android: bool)
    ensures
        is_android ==> launch_mode_of(args, is_android) == LaunchMode::Android,
        args.len() <= 1 && !is_android ==> launch_mode_of(args, is_android) == LaunchMode::MainMenu,
        args.len() > 1 ==> launch_mode_of(args, is_android) == launch_mode_of(args.take(2), is_android),
        args.len() > 1 && !is_android && args[1] != "android"@ && args[1] != "play"@
            ==> launch_mode_of(args, is_android) == LaunchMode::Connect,
        args.len() > 1 && !is_android && args[1] == "play"@
            ==> launch_mode_of(args, is_android) == LaunchMode::LocalSave,
        args.len() > 1 && args[1] == "android"@ ==> launch_mode_of(args, is_android) == LaunchMode::Android,
{
    reveal_strlit("play");
    reveal_strlit("android");
    assert("play"@[0] != "android"@[0]);
    if args.len() > 1 {
        assert(args.take(2)[1] == args[1]);
    }
}

/// Decide how to start from the command line `args` (the program name first). When the
/// mode is `Connect`, `args[1]` is the server address.
pub fn initialize_from_args(args: &[String], is_android: bool) -> (mode: LaunchMode)
    ensures
        mode == launch_mode_of(args@.map_values(|a: String| a@), is_android),
{
    let android_arg = "android".to_owned();
    let play_arg = "play".to_owned();
    if is_android || (args.len() > 1 && args[1] == android_arg) {
        LaunchMode::Android
    } else if args.len() > 1 && args[1] == play_arg {
        LaunchMode::LocalSave
    } else if args.len() > 1 {
        LaunchMode::Connect
    } else {
        LaunchMode::MainMenu
    }
}

/// Once the server has accepted the client, go on to loading the world.
pub fn switch_to_loading_if_connected(next_state: &mut NextState, client_state: ClientJoinState)
    ensures
        *final(next_state) == (if client_state == ClientJoinState::Joined {
            NextState(Some(GameState::LoadingWorld))
        } else {
            *old(next_state)
        }),
{
    if client_state == ClientJoinState::Joined {
        next_state.0 = Some(GameState::LoadingWorld);
    }
}

/// How many chunks have reached the state they should be in.
pub open spec fn loaded_count(chunk_ready: Seq<bool>) -> nat
    decreases chunk_ready.len(),
{
    if chunk_ready.len() == 0 {
        0
    } else {
        loaded_count(chunk_ready.drop_last()) + if chunk_ready.last() { 1nat } else { 0nat }
    }
}

proof fn lemma_loaded_count_bound(chunk_ready: Seq<bool>)
    ensures
        loaded_count(chunk_ready) <= chunk_ready.len(),
    decreases chunk_ready.len(),
{
    if chunk_ready.len() > 0 {
        lemma_loaded_count_bound(chunk_ready.drop_last());
    }
}

/// The ready chunks of a list are those of its first part plus those of the rest.
pub proof fn lemma_loaded_count_concat(a: Seq<bool>, b: Seq<bool>)
    ensures
        loaded_count(a + b) == loaded_count(a) + loaded_count(b),
    decreases b.len(),
{
    if b.len() == 0 {
        assert(a + b =~= a);
    } else {
        assert((a + b).drop_last() =~= a + b.drop_last());
        assert((a + b).last() == b.last());
        lemma_loaded_count_concat(a, b.drop_last());
    }
}

/// One chunk counts as loaded exactly when it is ready.
pub proof fn lemma_loaded_count_one(ready: bool)
    ensures
        loaded_count(seq![ready]) == (if ready { 1nat } else { 0nat }),
{
    let one = seq![ready];
    assert(one.drop_last() =~= Seq::<bool>::empty());
    assert(one.last() == ready);
    assert(loaded_count(one.drop_last()) == 0);
}

/// The loading screen counts every chunk as ready exactly when the client may enter the
/// game: the number of ready chunks equals the number of chunks iff each chunk is ready.
pub proof fn lemma_full_progress_iff_all_ready(chunk_ready: Seq<bool>)
    ensures
        loaded_count(chunk_ready) == chunk_ready.len() <==> (forall|i: int| 0 <= i < chunk_ready.len() ==> chunk_ready[i]),
    decreases chunk_ready.len(),
{
    if chunk_ready.len() > 0 {
        let init = chunk_ready.drop_last();
        lemma_full_progress_iff_all_ready(init);
        lemma_loaded_count_bound(init);
        if forall|i: int| 0 <= i < chunk_ready.len() ==> chunk_ready[i] {
            assert forall|i: int| 0 <= i < init.len() implies init[i] by {
                assert(chunk_ready[i]);
            }
            assert(chunk_ready[chunk_ready.len() - 1]);
        }
        if loaded_count(chunk_ready) == chunk_ready.len() {
            assert forall|i: int| 0 <= i < chunk_ready.len() implies chunk_ready[i] by {
                if i < init.len() {
                    assert(init[i] == chunk_ready[i]);
                }
            }
        }
    }
}

/// The loading progress shown on the loading screen: (chunks ready, all chunks).
pub fn loading_progress(chunk_ready: &[bool]) -> (progress: (usize, usize))
    ensures
        progress.0 == loaded_count(chunk_ready@),
        progress.1 == chunk_ready@.len(),
        progress.0 <= progress.1,
{
    let mut loaded: usize = 0;
    let mut i: usize = 0;
    while i < chunk_ready.len()
        invariant
            i <= chunk_ready@.len(),
            loaded == loaded_count(chunk_ready@.take(i as int)),
            loaded <= i,
        decreases chunk_ready@.len() - i,
    {
        proof {
            let t = chunk_ready@.take(i + 1);
            assert(t.drop_last() =~= chunk_ready@.take(i as int));
        }
        if chunk_ready[i] {
            loaded = loaded + 1;
        }
        i = i + 1;
    }
    proof {
        assert(chunk_ready@.take(chunk_ready@.len() as int) =~= chunk_ready@);
    }
    (loaded, chunk_ready.len())
}

/// Enter the game once there are chunks and every one of them is ready.
pub fn switch_to_ingame_if_loaded(chunk_ready: &[bool], state: &mut NextState)
    ensures
        *final(state) == (if chunk_ready@.len() > 0 && (forall|i: int| 0 <= i < chunk_ready@.len() ==> chunk_ready@[i]) {
            NextState(Some(GameState::InGame))
        } else {
            *old(state)
        }),
{
    if chunk_ready.len() == 0 {
        return;
    }
    let mut i: usize = 0;
    while i < chunk_ready.len()
        invariant
            i <= chunk_ready@.len(),
            forall|j: int| 0 <= j < i ==> chunk_ready@[j],
        decreases chunk_ready@.len() - i,
    {
        if !chunk_ready[i] {
            return;
        }
        i = i + 1;
    }
    state.0 = Some(GameState::InGame);
}

/// Skip the loading screen while the key `skip_key` is held.
pub fn override_loading<M>(kbm_state: &RawKbmInputState<M>, skip_key: u32, state: &mut NextState)
    ensures
        *final(state) == (if kbm_state.keys().contains(skip_key) {
            NextState(Some(GameState::InGame))
        } else {
            *old(state)
        }),
{
    if kbm_state.key_down(skip_key) {
        state.0 = Some(GameState::InGame);
    }
}

} // verus!
