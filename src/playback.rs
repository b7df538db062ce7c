//! Decisions of the playback worker: which transport command does what to
//! the single sink it owns, and when its loop ends.

use vstd::prelude::*;

verus! {

/// A transport command sent to the playback worker.
pub enum AudioCommand {
    Play(String),
    Pause,
    Resume,
    Stop,
}

/// What the worker must do to its sink in answer to one command.
pub enum PlaybackAction {
    /// Decode the file at this path and play it in a fresh sink, replacing any
    /// sink already loaded; report the outcome with `after_load`.
    Load(String),
    /// Pause the loaded sink.
    PauseSink,
    /// Resume the loaded sink.
    ResumeSink,
    /// Stop the loaded sink, if `halt_sink`, then leave the worker loop.
    Exit { halt_sink: bool },
    /// Nothing to do.
    Ignore,
}

/// The worker's own record of its sink and of its loop.
#[derive(Clone, Copy, PartialEq, Eq, Structural)]
pub struct PlayerState {
    /// A sink holds a decoded track.
    pub loaded: bool,
    /// The loaded sink is paused.
    pub paused: bool,
    /// The worker loop goes on receiving commands.
    pub running: bool,
}

/// The state after `command`; a `Play` changes nothing until its load is reported.
pub open spec fn state_after_command(s: PlayerState, command: AudioCommand) -> PlayerState {
    match command {
        AudioCommand::Play(_) => s,
        AudioCommand::Pause => if s.loaded {
            PlayerState { paused: true, ..s }
        } else {
            s
        },
        AudioCommand::Resume => if s.loaded {
            PlayerState { paused: false, ..s }
        } else {
            s
        },
        AudioCommand::Stop => PlayerState { running: false, ..s },
    }
}

/// The action that answers `command` in state `s`.
pub open spec fn action_for(s: PlayerState, command: AudioCommand) -> PlaybackAction {
    match command {
        AudioCommand::Play(path) => PlaybackAction::Load(path),
        AudioCommand::Pause => if s.loaded {
            PlaybackAction::PauseSink
        } else {
            PlaybackAction::Ignore
        },
        AudioCommand::Resume => if s.loaded {
            PlaybackAction::ResumeSink
        } else {
            PlaybackAction::Ignore
        },
        AudioCommand::Stop => PlaybackAction::Exit { halt_sink: s.loaded },
    }
}

/// The state once a load has been tried: a decoded track plays in a fresh
/// sink; a failed decode leaves everything as it was.
pub open spec fn state_after_load(s: PlayerState, decoded: bool) -> PlayerState {
    if decoded {
        PlayerState { loaded: true, paused: false, ..s }
    } else {
        s
    }
}

impl PlayerState {
    /// A worker that has loaded nothing yet and waits for commands.
    pub fn new() -> (r: Self)
        ensures
            !r.loaded,
            !r.paused,
            r.running,
    {
        PlayerState { loaded: false, paused: false, running: true }
    }
}

/// Decides how the worker answers one command, and its state afterwards.
pub fn step(state: PlayerState, command: &AudioCommand) -> (r: (PlayerState, PlaybackAction))
    ensures
        r.0 == state_after_command(state, *command),
        r.1 == action_for(state, *command),
{
    match command {
        AudioCommand::Play(path) => (state, PlaybackAction::Load(path.clone())),
        AudioCommand::Pause => {
            if state.loaded {
                (PlayerState { paused: true, ..state }, PlaybackAction::PauseSink)
            } else {
                (state, PlaybackAction::Ignore)
            }
        },
        AudioCommand::Resume => {
            if state.loaded {
                (PlayerState { paused: false, ..state }, PlaybackAction::ResumeSink)
            } else {
                (state, PlaybackAction::Ignore)
            }
        },
        AudioCommand::Stop => (
            PlayerState { running: false, ..state },
            PlaybackAction::Exit { halt_sink: state.loaded },
        ),
    }
}

/// The state once the load that a `Play` asked for has succeeded or failed.
pub fn after_load(state: PlayerState, decoded: bool) -> (r: PlayerState)
    ensures
        r == state_after_load(state, decoded),
{
    if decoded {
        PlayerState { loaded: true, paused: false, ..state }
    } else {
        state
    }
}

/// `Play` followed by `Stop` ends the worker loop, whether or not the track
/// could be decoded, and the stop halts whatever sink is loaded.
pub proof fn lemma_play_then_stop_exits(s: PlayerState, path: String, decoded: bool)
    ensures
        ({
            let loaded = state_after_load(state_after_command(s, AudioCommand::Play(path)), decoded);
            &&& !state_after_command(loaded, AudioCommand::Stop).running
            &&& action_for(loaded, AudioCommand::Stop) == PlaybackAction::Exit {
                halt_sink: loaded.loaded,
            }
        }),
{
}

/// `Stop` is the only command that ends the worker loop.
pub proof fn lemma_only_stop_exits(s: PlayerState, command: AudioCommand)
    requires
        !(command is Stop),
    ensures
        state_after_command(s, command).running == s.running,
{
}

/// `Pause` and `Resume` before anything is loaded change nothing and do nothing.
pub proof fn lemma_transport_without_sink(s: PlayerState, command: AudioCommand)
    requires
        !s.loaded,
        command is Pause || command is Resume,
    ensures
        state_after_command(s, command) == s,
        action_for(s, command) == PlaybackAction::Ignore,
{
}

} // verus!
