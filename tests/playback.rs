use muzak::error::PlayError;
use muzak::fade::Gain;
use muzak::playback::{Action, Stage, TrackPlayback};

/// Runs a playback with every action succeeding, collecting its actions.
fn run_all(mut p: TrackPlayback) -> Vec<Action> {
    let mut out = Vec::new();
    loop {
        let a = p.action();
        let over = p.is_over();
        out.push(a);
        if over {
            return out;
        }
        p.advance(true);
    }
}

#[test]
fn zero_fade_goes_straight_to_full_volume() {
    let actions = run_all(TrackPlayback::new(String::from("Song.mp3"), 0, 60));
    assert_eq!(
        actions,
        vec![
            Action::OpenChannel,
            Action::SetGain(Gain { num: 0, den: 1 }),
            Action::OpenFile(String::from("Song.mp3")),
            Action::Decode,
            Action::Enqueue(String::from("Song")),
            Action::SetGain(Gain { num: 1, den: 1 }),
            Action::WaitForEnd,
            Action::Pause(60),
            Action::Finish,
        ]
    );
}

#[test]
fn one_second_fade_takes_five_hundred_ticks() {
    let actions = run_all(TrackPlayback::new(String::from("a.wav"), 1, 5));
    let ticks: Vec<&Action> = actions.iter().filter(|a| matches!(a, Action::RampTick(_, _))).collect();
    assert_eq!(ticks.len(), 500);
    assert_eq!(*ticks[0], Action::RampTick(Gain { num: 1, den: 500 }, 2));
    assert_eq!(*ticks[499], Action::RampTick(Gain { num: 500, den: 500 }, 2));
    assert_eq!(actions[4], Action::Enqueue(String::from("a")));
    assert_eq!(actions[5], Action::RampTick(Gain { num: 1, den: 500 }, 2));
    assert_eq!(actions[505], Action::WaitForEnd);
    assert_eq!(actions[506], Action::Pause(5));
    assert_eq!(actions.len(), 508);
}

#[test]
fn channel_failure_is_an_output_error() {
    let mut p = TrackPlayback::new(String::from("a.mp3"), 5, 1);
    p.advance(false);
    assert_eq!(p.current_stage(), Stage::Failed(PlayError::Output));
    assert_eq!(p.action(), Action::Abort(PlayError::Output));
    assert!(p.is_over());
}

#[test]
fn unopenable_file_is_a_data_error() {
    let mut p = TrackPlayback::new(String::from("a.mp3"), 5, 1);
    p.advance(true);
    p.advance(true);
    assert_eq!(p.current_stage(), Stage::OpenFile);
    p.advance(false);
    assert_eq!(p.action(), Action::Abort(PlayError::Data));
}

#[test]
fn undecodable_file_is_a_data_error() {
    let mut p = TrackPlayback::new(String::from("a.mp3"), 5, 1);
    for _ in 0..3 {
        p.advance(true);
    }
    assert_eq!(p.current_stage(), Stage::Decode);
    p.advance(false);
    assert_eq!(p.current_stage(), Stage::Failed(PlayError::Data));
    p.advance(true);
    assert_eq!(p.current_stage(), Stage::Failed(PlayError::Data));
}

#[test]
fn muted_before_anything_is_queued() {
    let actions = run_all(TrackPlayback::new(String::from("x.flac"), 2, 0));
    let mute = actions.iter().position(|a| *a == Action::SetGain(Gain { num: 0, den: 1 })).unwrap();
    let queue = actions.iter().position(|a| matches!(a, Action::Enqueue(_))).unwrap();
    assert!(mute < queue);
}
