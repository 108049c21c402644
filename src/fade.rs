//! The volume ramp at the start of each track.
//!
//! The ramp runs in ticks of `TICK_MILLIS` milliseconds, `fade_seconds * 500`
//! of them. At tick `i` of `n` the gain is set to `(i + 1) / n`: it starts one
//! step above silence and ends at full volume exactly.

use vstd::prelude::*;

verus! {

/// Length of one tick of the ramp, in milliseconds.
pub const TICK_MILLIS: u64 = 2;

/// An output gain, as the fraction `num / den`: 0 is silence, 1 full volume.
#[derive(Clone, Copy, Debug, PartialEq, Eq, Structural)]
pub struct Gain {
    pub num: u64,
    pub den: u64,
}

impl Gain {
    pub open spec fn wf(self) -> bool {
        self.den > 0 && self.num <= self.den
    }

    pub open spec fn is_silent(self) -> bool {
        self.num == 0
    }

    pub open spec fn is_full(self) -> bool {
        self.num == self.den
    }

    /// No sound.
    pub fn silence() -> (g: Gain)
        ensures
            g.wf(),
            g.is_silent(),
            g.den == 1,
    {
        Gain { num: 0, den: 1 }
    }

    /// Full volume.
    pub fn full() -> (g: Gain)
        ensures
            g.wf(),
            g.is_full(),
            g.num == 1,
    {
        Gain { num: 1, den: 1 }
    }
}

pub open spec fn ramp_ticks(fade_seconds: int) -> int {
    fade_seconds * 1000 / TICK_MILLIS as int
}

/// How many ticks the ramp takes for a fade of `fade_seconds`.
pub fn fade_steps(fade_seconds: u32) -> (r: u64)
    ensures
        r == ramp_ticks(fade_seconds as int),
        r == fade_seconds * 500,
{
    fade_seconds as u64 * 1000 / TICK_MILLIS
}

/// The gain at tick `tick` of a ramp of `steps` ticks.
pub open spec fn gain_at(tick: int, steps: int) -> Gain {
    Gain { num: (tick + 1) as u64, den: steps as u64 }
}

/// The gain set at tick `tick` of a ramp of `steps` ticks:
/// `tick * (1 / steps) + 1 / steps`.
pub fn fade_gain(tick: u64, steps: u64) -> (g: Gain)
    requires
        tick < steps,
    ensures
        g.wf(),
        g == gain_at(tick as int, steps as int),
{
    Gain { num: tick + 1, den: steps }
}

/// A fade of `fade_seconds` takes `fade_seconds * 500` ticks, none when it is
/// zero; the first tick sets one step above silence, each tick raises the
/// gain by one step, and the last one sets full volume.
pub proof fn lemma_ramp_shape(fade_seconds: u32)
    ensures
        ramp_ticks(fade_seconds as int) == fade_seconds * 500,
        fade_seconds == 0 ==> ramp_ticks(fade_seconds as int) == 0,
        fade_seconds > 0 ==> ({
            let n = ramp_ticks(fade_seconds as int);
            &&& gain_at(0, n).wf() && !gain_at(0, n).is_silent() && gain_at(0, n).num == 1
            &&& gain_at(n - 1, n).wf() && gain_at(n - 1, n).is_full()
            &&& forall|i: int|
                0 <= i < n - 1 ==> #[trigger] gain_at(i + 1, n).num == gain_at(i, n).num + 1
                    && gain_at(i + 1, n).den == gain_at(i, n).den
        }),
{
}

} // verus!
