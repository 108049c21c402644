use muzak::error::PlayError;
use muzak::fade::Gain;
use muzak::playback::{Action, Stage};
use muzak::session::{Run, RunConfig};
use std::collections::HashSet;

fn config(fade_seconds: u32, min: u64, max: u64, loop_mode: bool) -> RunConfig {
    RunConfig { fade_seconds, min_delay_seconds: min, max_delay_seconds: max, loop_mode }
}

#[test]
fn three_tracks_once_each_then_done() {
    let mut rng = rand::thread_rng();
    let entries: Vec<String> = ["a.mp3", "b.mp3", "c.mp3", "notes.txt"].iter().map(|s| s.to_string()).collect();
    let mut run = Run::start(&entries, config(5, 300, 600, false)).unwrap();
    let mut titles = HashSet::new();
    let mut plays = 0;
    while let Some(mut p) = run.next(&mut rng) {
        plays += 1;
        assert_eq!(p.current_stage(), Stage::OpenChannel);
        loop {
            match p.action() {
                Action::Enqueue(t) => {
                    assert!(titles.insert(t));
                }
                Action::Pause(s) => assert!((300..600).contains(&s)),
                Action::Finish => break,
                _ => {}
            }
            p.advance(true);
        }
    }
    assert_eq!(plays, 3);
    assert_eq!(titles.len(), 3);
    assert!(run.next(&mut rng).is_none());
}

#[test]
fn empty_directory_is_a_data_error() {
    assert!(matches!(Run::start(&Vec::new(), config(5, 300, 600, false)), Err(PlayError::Data)));
}

#[test]
fn one_track_without_fade_plays_full_then_pauses() {
    let mut rng = rand::thread_rng();
    let entries = vec![String::from("only.mp3")];
    let mut run = Run::start(&entries, config(0, 60, 60, false)).unwrap();
    let mut p = run.next(&mut rng).unwrap();
    let mut actions = Vec::new();
    while !p.is_over() {
        actions.push(p.action());
        p.advance(true);
    }
    assert_eq!(actions[5], Action::SetGain(Gain { num: 1, den: 1 }));
    assert!(!actions.iter().any(|a| matches!(a, Action::RampTick(_, _))));
    assert_eq!(actions[7], Action::Pause(60));
    assert!(run.next(&mut rng).is_none());
}

#[test]
fn looping_run_never_ends_nor_repeats() {
    let mut rng = rand::thread_rng();
    let entries: Vec<String> = ["a.wav", "b.wav", "c.wav"].iter().map(|s| s.to_string()).collect();
    let mut run = Run::start(&entries, config(1, 1, 2, true)).unwrap();
    let mut prev = String::new();
    for _ in 0..1_000 {
        let mut p = run.next(&mut rng).unwrap();
        for _ in 0..4 {
            p.advance(true);
        }
        let title = match p.action() {
            Action::Enqueue(t) => t,
            other => panic!("unexpected {:?}", other),
        };
        assert_ne!(title, prev);
        prev = title;
        assert_eq!(run.remaining(), 3);
    }
}
