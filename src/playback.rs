//! The steps of playing one track, as a machine that the caller drives.
//!
//! The caller asks for the current `Action`, performs it on the audio device,
//! and reports whether it succeeded with `advance`. A channel is opened and
//! muted before anything is queued; a failure to open the channel, the file or
//! its decoder ends the track with an error; after the audio is queued the
//! volume ramps in, the track plays to its end, and a pause follows.

use vstd::prelude::*;
use crate::error::PlayError;
use crate::fade::{fade_gain, fade_steps, gain_at, ramp_ticks, Gain, TICK_MILLIS};
use crate::tracks::{stem_of, track_title};

verus! {

/// Where the playback of one track stands.
#[derive(Clone, Copy, Debug, PartialEq, Eq, Structural)]
pub enum Stage {
    OpenChannel,
    Mute,
    OpenFile,
    Decode,
    Enqueue,
    /// Tick of the volume ramp.
    Ramp(u64),
    /// A fade of zero length: straight to full volume.
    FullVolume,
    WaitEnd,
    Rest,
    Done,
    Failed(PlayError),
}

/// What the caller has to do next.
#[derive(Debug, PartialEq, Eq)]
pub enum Action {
    /// Take a new playback channel on the output device.
    OpenChannel,
    /// Set the channel's gain.
    SetGain(Gain),
    /// Open the file of that name.
    OpenFile(String),
    /// Decode the opened file.
    Decode,
    /// Queue the decoded audio, and announce the track under that title.
    Enqueue(String),
    /// Set the channel's gain, then wait that many milliseconds.
    RampTick(Gain, u64),
    /// Wait until the channel has played all it holds.
    WaitForEnd,
    /// Wait that many seconds.
    Pause(u64),
    /// The track is over.
    Finish,
    /// The track could not be played; the run ends with this error.
    Abort(PlayError),
}

/// The stage that follows `stage` in a ramp of `steps` ticks, when the
/// action of `stage` succeeded (`ok`) or failed.
pub open spec fn next_stage(stage: Stage, steps: int, ok: bool) -> Stage {
    match stage {
        Stage::OpenChannel => if ok {
            Stage::Mute
        } else {
            Stage::Failed(PlayError::Output)
        },
        Stage::Mute => Stage::OpenFile,
        Stage::OpenFile => if ok {
            Stage::Decode
        } else {
            Stage::Failed(PlayError::Data)
        },
        Stage::Decode => if ok {
            Stage::Enqueue
        } else {
            Stage::Failed(PlayError::Data)
        },
        Stage::Enqueue => if steps > 0 {
            Stage::Ramp(0)
        } else {
            Stage::FullVolume
        },
        Stage::Ramp(t) => if t + 1 < steps {
            Stage::Ramp((t + 1) as u64)
        } else {
            Stage::WaitEnd
        },
        Stage::FullVolume => Stage::WaitEnd,
        Stage::WaitEnd => Stage::Rest,
        Stage::Rest => Stage::Done,
        Stage::Done => Stage::Done,
        Stage::Failed(e) => Stage::Failed(e),
    }
}

/// The stage reached from `stage` after `k` actions that all succeeded.
pub open spec fn stage_after(stage: Stage, steps: int, k: nat) -> Stage
    decreases k,
{
    if k == 0 {
        stage
    } else {
        stage_after(next_stage(stage, steps, true), steps, (k - 1) as nat)
    }
}

/// The playback of one track, with its fade and the pause after it.
pub struct TrackPlayback {
    track: String,
    title: String,
    steps: u64,
    pause_seconds: u64,
    stage: Stage,
}

impl TrackPlayback {
    pub closed spec fn track(&self) -> Seq<char> {
        self.track@
    }

    pub closed spec fn steps(&self) -> int {
        self.steps as int
    }

    pub closed spec fn pause_seconds(&self) -> int {
        self.pause_seconds as int
    }

    pub closed spec fn stage(&self) -> Stage {
        self.stage
    }

    pub closed spec fn wf(&self) -> bool {
        &&& self.title@ == stem_of(self.track@)
        &&& self.stage matches Stage::Ramp(t) ==> t < self.steps
    }

    /// The playback of the file `track`, with a fade of `fade_seconds` and a
    /// pause of `pause_seconds` after it.
    pub fn new(track: String, fade_seconds: u32, pause_seconds: u64) -> (p: TrackPlayback)
        ensures
            p.wf(),
            p.track() == track@,
            p.steps() == ramp_ticks(fade_seconds as int),
            p.pause_seconds() == pause_seconds,
            p.stage() == Stage::OpenChannel,
    {
        let title = track_title(&track);
        TrackPlayback {
            track,
            title,
            steps: fade_steps(fade_seconds),
            pause_seconds,
            stage: Stage::OpenChannel,
        }
    }

    /// The current stage.
    pub fn current_stage(&self) -> (r: Stage)
        ensures
            r == self.stage(),
    {
        self.stage
    }

    /// Whether nothing is left to do, after success or failure.
    pub fn is_over(&self) -> (r: bool)
        ensures
            r == (self.stage() is Done || self.stage() is Failed),
    {
        match self.stage {
            Stage::Done | Stage::Failed(_) => true,
            _ => false,
        }
    }

    /// What to do at the current stage.
    pub fn action(&self) -> (r: Action)
        requires
            self.wf(),
        ensures
            self.stage() is OpenChannel ==> r is OpenChannel,
            self.stage() is Mute ==> r == Action::SetGain(Gain { num: 0, den: 1 }),
            self.stage() is OpenFile ==> (r matches Action::OpenFile(f) && f@ == self.track()),
            self.stage() is Decode ==> r is Decode,
            self.stage() is Enqueue ==> (r matches Action::Enqueue(t) && t@ == stem_of(
                self.track(),
            )),
            self.stage() matches Stage::Ramp(t) ==> r == Action::RampTick(
                gain_at(t as int, self.steps()),
                TICK_MILLIS,
            ),
            self.stage() is FullVolume ==> r == Action::SetGain(Gain { num: 1, den: 1 }),
            self.stage() is WaitEnd ==> r is WaitForEnd,
            self.stage() is Rest ==> r == Action::Pause(self.pause_seconds() as u64),
            self.stage() is Done ==> r is Finish,
            self.stage() matches Stage::Failed(e) ==> r == Action::Abort(e),
    {
        match self.stage {
            Stage::OpenChannel => Action::OpenChannel,
            Stage::Mute => Action::SetGain(Gain::silence()),
            Stage::OpenFile => Action::OpenFile(self.track.clone()),
            Stage::Decode => Action::Decode,
            Stage::Enqueue => Action::Enqueue(self.title.clone()),
            Stage::Ramp(t) => Action::RampTick(fade_gain(t, self.steps), TICK_MILLIS),
            Stage::FullVolume => Action::SetGain(Gain::full()),
            Stage::WaitEnd => Action::WaitForEnd,
            Stage::Rest => Action::Pause(self.pause_seconds),
            Stage::Done => Action::Finish,
            Stage::Failed(e) => Action::Abort(e),
        }
    }

    /// Moves on after the current action succeeded (`ok`) or failed. Only
    /// opening the channel, the file and its decoder can fail.
    pub fn advance(&mut self, ok: bool)
        requires
            old(self).wf(),
        ensures
            final(self).wf(),
            final(self).stage() == next_stage(old(self).stage(), old(self).steps(), ok),
            final(self).track() == old(self).track(),
            final(self).steps() == old(self).steps(),
            final(self).pause_seconds() == old(self).pause_seconds(),
    {
        let next = match self.stage {
            Stage::OpenChannel => if ok {
                Stage::Mute
            } else {
                Stage::Failed(PlayError::Output)
            },
            Stage::Mute => Stage::OpenFile,
            Stage::OpenFile => if ok {
                Stage::Decode
            } else {
                Stage::Failed(PlayError::Data)
            },
            Stage::Decode => if ok {
                Stage::Enqueue
            } else {
                Stage::Failed(PlayError::Data)
            },
            Stage::Enqueue => if self.steps > 0 {
                Stage::Ramp(0)
            } else {
                Stage::FullVolume
            },
            Stage::Ramp(t) => if t + 1 < self.steps {
                Stage::Ramp(t + 1)
            } else {
                Stage::WaitEnd
            },
            Stage::FullVolume => Stage::WaitEnd,
            Stage::WaitEnd => Stage::Rest,
            Stage::Rest => Stage::Done,
            Stage::Done => Stage::Done,
            Stage::Failed(e) => Stage::Failed(e),
        };
        self.stage = next;
    }
}

proof fn lemma_stage_after_split(stage: Stage, steps: int, a: nat, b: nat)
    ensures
        stage_after(stage, steps, a + b) == stage_after(stage_after(stage, steps, a), steps, b),
    decreases a,
{
    if a > 0 {
        lemma_stage_after_split(next_stage(stage, steps, true), steps, (a - 1) as nat, b);
        assert((a + b - 1) as nat == (a - 1) as nat + b);
    }
}

proof fn lemma_ramp_ticks_in_order(steps: int, k: nat)
    requires
        k < steps <= u64::MAX,
    ensures
        stage_after(Stage::Ramp(0), steps, k) == Stage::Ramp(k as u64),
    decreases k,
{
    reveal_with_fuel(stage_after, 2);
    if k > 0 {
        lemma_ramp_ticks_in_order(steps, (k - 1) as nat);
        lemma_stage_after_split(Stage::Ramp(0), steps, (k - 1) as nat, 1);
        assert(stage_after(Stage::Ramp((k - 1) as u64), steps, 1) == next_stage(
            Stage::Ramp((k - 1) as u64),
            steps,
            true,
        ));
    }
}

/// How many gain-setting actions follow the queuing of a track: one per ramp
/// tick, or one straight to full volume when there is no ramp.
pub open spec fn gain_actions(steps: int) -> nat {
    if steps > 0 {
        steps as nat
    } else {
        1
    }
}

/// When every action succeeds, a track goes through opening a channel,
/// muting it, opening and decoding the file and queuing it, in that order;
/// then through exactly `steps` ramp ticks, `0, 1, ..., steps - 1`, or
/// straight to full volume when there is no ramp; then waits for the end,
/// pauses, and is done.
pub proof fn lemma_track_runs_in_order(steps: u64)
    ensures
        stage_after(Stage::OpenChannel, steps as int, 1) == Stage::Mute,
        stage_after(Stage::OpenChannel, steps as int, 2) == Stage::OpenFile,
        stage_after(Stage::OpenChannel, steps as int, 3) == Stage::Decode,
        stage_after(Stage::OpenChannel, steps as int, 4) == Stage::Enqueue,
        forall|k: nat|
            k < steps ==> #[trigger] stage_after(Stage::OpenChannel, steps as int, 5 + k)
                == Stage::Ramp(k as u64),
        steps == 0 ==> stage_after(Stage::OpenChannel, steps as int, 5) == Stage::FullVolume,
        stage_after(Stage::OpenChannel, steps as int, 5 + gain_actions(steps as int))
            == Stage::WaitEnd,
        stage_after(Stage::OpenChannel, steps as int, 6 + gain_actions(steps as int))
            == Stage::Rest,
        stage_after(Stage::OpenChannel, steps as int, 7 + gain_actions(steps as int))
            == Stage::Done,
{
    let n = steps as int;
    let g = gain_actions(n);
    reveal_with_fuel(stage_after, 9);
    assert forall|k: nat| k < steps implies #[trigger] stage_after(Stage::OpenChannel, n, 5 + k)
        == Stage::Ramp(k as u64) by {
        lemma_stage_after_split(Stage::OpenChannel, n, 5, k);
        lemma_ramp_ticks_in_order(n, k);
    }
    if steps > 0 {
        let m = (steps - 1) as nat;
        assert(stage_after(Stage::OpenChannel, n, 5 + m) == Stage::Ramp(m as u64));
        lemma_stage_after_split(Stage::OpenChannel, n, 5 + m, 1);
        assert(5 + m + 1 == 5 + g);
    }
    lemma_stage_after_split(Stage::OpenChannel, n, 5 + g, 1);
    lemma_stage_after_split(Stage::OpenChannel, n, 5 + g, 2);
    assert(5 + g + 1 == 6 + g);
    assert(5 + g + 2 == 7 + g);
    assert(stage_after(Stage::WaitEnd, n, 2) == Stage::Done);
}

} // verus!
