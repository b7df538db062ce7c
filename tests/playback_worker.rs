use guitar_gaming::playback::{after_load, step, AudioCommand, PlaybackAction, PlayerState};

fn run(commands: Vec<AudioCommand>, decodes: bool) -> (PlayerState, Vec<PlaybackAction>) {
    let mut state = PlayerState::new();
    let mut actions = vec![];
    for command in &commands {
        if !state.running {
            break;
        }
        let (next, action) = step(state, command);
        state = next;
        if let PlaybackAction::Load(_) = &action {
            state = after_load(state, decodes);
        }
        actions.push(action);
    }
    (state, actions)
}

#[test]
fn play_then_stop_ends_the_worker() {
    let (state, actions) = run(vec![AudioCommand::Play("/songs/a/audio.mp3".to_string()), AudioCommand::Stop], true);
    assert!(!state.running);
    assert_eq!(actions.len(), 2);
    assert!(matches!(&actions[0], PlaybackAction::Load(p) if p == "/songs/a/audio.mp3"));
    assert!(matches!(actions[1], PlaybackAction::Exit { halt_sink: true }));
}

#[test]
fn play_that_fails_to_decode_then_stop_ends_the_worker() {
    let (state, actions) = run(vec![AudioCommand::Play("missing.mp3".to_string()), AudioCommand::Stop], false);
    assert!(!state.running);
    assert!(!state.loaded);
    assert!(matches!(actions[1], PlaybackAction::Exit { halt_sink: false }));
}

#[test]
fn pause_and_resume_without_a_track_do_nothing() {
    let start = PlayerState::new();
    let (after_pause, a1) = step(start, &AudioCommand::Pause);
    assert!(after_pause == start);
    assert!(matches!(a1, PlaybackAction::Ignore));
    let (after_resume, a2) = step(after_pause, &AudioCommand::Resume);
    assert!(after_resume == start);
    assert!(matches!(a2, PlaybackAction::Ignore));
    assert!(after_resume.running);
}

#[test]
fn pause_and_resume_toggle_a_loaded_track() {
    let loaded = after_load(PlayerState::new(), true);
    assert!(loaded.loaded && !loaded.paused);
    let (paused, a1) = step(loaded, &AudioCommand::Pause);
    assert!(paused.paused && paused.running);
    assert!(matches!(a1, PlaybackAction::PauseSink));
    let (resumed, a2) = step(paused, &AudioCommand::Resume);
    assert!(!resumed.paused);
    assert!(matches!(a2, PlaybackAction::ResumeSink));
}

#[test]
fn failed_decode_keeps_the_previous_track() {
    let loaded = after_load(PlayerState::new(), true);
    let (paused, _) = step(loaded, &AudioCommand::Pause);
    let (same, action) = step(paused, &AudioCommand::Play("broken.mp3".to_string()));
    assert!(matches!(action, PlaybackAction::Load(_)));
    assert!(after_load(same, false) == paused);
    let fresh = after_load(same, true);
    assert!(fresh.loaded && !fresh.paused);
}

#[test]
fn commands_after_stop_are_not_handled() {
    let (state, actions) = run(
        vec![AudioCommand::Stop, AudioCommand::Play("a.mp3".to_string()), AudioCommand::Resume],
        true,
    );
    assert!(!state.running);
    assert!(!state.loaded);
    assert_eq!(actions.len(), 1);
}
