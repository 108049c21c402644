use muzak::selector::{index_from_draw, Selector};
use std::collections::HashSet;

fn tracks(n: usize) -> Vec<String> {
    (0..n).map(|i| format!("t{}.mp3", i)).collect()
}

#[test]
fn once_through_plays_every_track_exactly_once() {
    let mut rng = rand::thread_rng();
    for n in 1..8usize {
        let mut sel = Selector::new(tracks(n), false);
        let mut seen = HashSet::new();
        while let Some(t) = sel.next_track(&mut rng) {
            assert!(seen.insert(t));
        }
        assert_eq!(seen.len(), n);
        assert_eq!(sel.remaining(), 0);
        assert_eq!(sel.next_track(&mut rng), None);
    }
}

#[test]
fn once_through_shrinks_by_one_per_pick() {
    let mut rng = rand::thread_rng();
    let mut sel = Selector::new(tracks(4), false);
    for left in (0..4usize).rev() {
        assert!(sel.next_track(&mut rng).is_some());
        assert_eq!(sel.remaining(), left);
    }
}

#[test]
fn loop_over_more_than_two_never_repeats() {
    let mut rng = rand::thread_rng();
    for n in 3..6usize {
        let mut sel = Selector::new(tracks(n), true);
        let mut prev = sel.choose_next(&mut rng);
        for _ in 0..10_000 {
            let next = sel.choose_next(&mut rng);
            assert!(next < n);
            assert_ne!(next, prev);
            prev = next;
        }
        assert_eq!(sel.remaining(), n);
    }
}

#[test]
fn loop_over_two_allows_repeats() {
    let mut rng = rand::thread_rng();
    let mut sel = Selector::new(tracks(2), true);
    let mut prev = sel.choose_next(&mut rng);
    let mut repeats = 0;
    for _ in 0..1_000 {
        let next = sel.choose_next(&mut rng);
        assert!(next < 2);
        if next == prev {
            repeats += 1;
        }
        prev = next;
    }
    assert!(repeats > 0);
}

#[test]
fn loop_over_one_keeps_picking_it() {
    let mut rng = rand::thread_rng();
    let mut sel = Selector::new(tracks(1), true);
    for _ in 0..100 {
        assert_eq!(sel.next_track(&mut rng), Some(String::from("t0.mp3")));
    }
}

#[test]
fn draw_skips_the_last_pick_when_looping() {
    assert_eq!(index_from_draw(5, true, Some(2), 1), 1);
    assert_eq!(index_from_draw(5, true, Some(2), 2), 3);
    assert_eq!(index_from_draw(5, true, Some(2), 3), 4);
    assert_eq!(index_from_draw(5, true, None, 2), 2);
    assert_eq!(index_from_draw(5, false, None, 4), 4);
}

#[test]
fn draw_is_taken_as_is_for_two_tracks() {
    assert_eq!(index_from_draw(2, true, Some(1), 1), 1);
    assert_eq!(index_from_draw(2, true, Some(0), 0), 0);
    assert_eq!(index_from_draw(1, true, Some(0), 0), 0);
}
