use muzak::fade::{fade_gain, fade_steps, Gain, TICK_MILLIS};

#[test]
fn ticks_are_five_hundred_per_second() {
    assert_eq!(fade_steps(0), 0);
    assert_eq!(fade_steps(1), 500);
    assert_eq!(fade_steps(5), 2500);
    assert_eq!(fade_steps(u32::MAX), u32::MAX as u64 * 500);
    assert_eq!(TICK_MILLIS, 2);
}

#[test]
fn ramp_starts_one_step_up_and_ends_full() {
    let n = fade_steps(3);
    assert_eq!(fade_gain(0, n), Gain { num: 1, den: 1500 });
    assert_eq!(fade_gain(749, n), Gain { num: 750, den: 1500 });
    let last = fade_gain(n - 1, n);
    assert_eq!(last, Gain { num: 1500, den: 1500 });
    let value = last.num as f32 / last.den as f32;
    assert!((value - 1.0).abs() <= 1e-6);
}

#[test]
fn ramp_rises_by_one_step_per_tick() {
    let n = fade_steps(1);
    for i in 1..n {
        assert_eq!(fade_gain(i, n).num, fade_gain(i - 1, n).num + 1);
    }
}
