//! A whole run: the tracks of a directory played one after the other.

use vstd::prelude::*;
use rand::rngs::ThreadRng;
use crate::error::PlayError;
use crate::fade::ramp_ticks;
use crate::playback::{Stage, TrackPlayback};
use crate::random::draw_delay;
use crate::selector::Selector;
use crate::tracks::{discover, tracks_among};

verus! {

/// The settings of a run, fixed at its start.
#[derive(Clone, Copy, Debug, PartialEq, Eq, Structural)]
pub struct RunConfig {
    /// Length of the volume ramp at the start of each track.
    pub fade_seconds: u32,
    /// Shortest pause after a track.
    pub min_delay_seconds: u64,
    /// Longest pause after a track (not reached).
    pub max_delay_seconds: u64,
    /// Whether to play on forever.
    pub loop_mode: bool,
}

/// The pauses that can follow a track: `[min, max)`, or `min` alone when
/// that range is empty.
pub open spec fn is_pause_for(config: RunConfig, pause: int) -> bool {
    if config.min_delay_seconds < config.max_delay_seconds {
        config.min_delay_seconds <= pause < config.max_delay_seconds
    } else {
        pause == config.min_delay_seconds
    }
}

/// A run in progress: its settings and the tracks it picks from.
pub struct Run {
    config: RunConfig,
    selector: Selector,
}

impl Run {
    pub closed spec fn config(&self) -> RunConfig {
        self.config
    }

    pub closed spec fn selector(&self) -> Selector {
        self.selector
    }

    pub closed spec fn wf(&self) -> bool {
        &&& self.selector.wf()
        &&& self.selector.is_looping() == self.config.loop_mode
    }

    /// Starts a run over the entries of a directory, given by name. Fails
    /// with `PlayError::Data` when none of them is a track.
    pub fn start(entries: &Vec<String>, config: RunConfig) -> (r: Result<Run, PlayError>)
        ensures
            r is Err <==> tracks_among(entries@).len() == 0,
            r matches Err(e) ==> e == PlayError::Data,
            r matches Ok(run) ==> run.wf() && run.config() == config
                && run.selector().candidates() == tracks_among(entries@)
                && run.selector().last() is None,
    {
        match discover(entries) {
            Ok(tracks) => Ok(Run { config, selector: Selector::new(tracks, config.loop_mode) }),
            Err(e) => Err(e),
        }
    }

    /// How many tracks are left to pick from.
    pub fn remaining(&self) -> (r: usize)
        ensures
            r == self.selector().candidates().len(),
    {
        self.selector.remaining()
    }

    /// The playback of the next track, with the pause drawn for it, or `None`
    /// when the run is over.
    pub fn next(&mut self, rng: &mut ThreadRng) -> (r: Option<TrackPlayback>)
        requires
            old(self).wf(),
        ensures
            final(self).wf(),
            final(self).config() == old(self).config(),
            r is None <==> old(self).selector().candidates().len() == 0,
            r matches Some(p) ==> {
                &&& p.wf()
                &&& p.stage() == Stage::OpenChannel
                &&& p.steps() == ramp_ticks(old(self).config().fade_seconds as int)
                &&& is_pause_for(old(self).config(), p.pause_seconds())
                &&& exists|i: int|
                    0 <= i < old(self).selector().candidates().len() && p.track()
                        == old(self).selector().candidates()[i]@
                        && final(self).selector().candidates() == (if old(
                        self,
                    ).config().loop_mode {
                        old(self).selector().candidates()
                    } else {
                        old(self).selector().candidates().remove(i)
                    })
            },
            old(self).config().loop_mode && old(self).selector().candidates().len() > 2
                && old(self).selector().last() is Some ==> final(self).selector().last()
                != old(self).selector().last(),
            final(self).selector().is_looping() ==> (final(self).selector().last() is Some
                || old(self).selector().candidates().len() == 0),
    {
        match self.selector.next_track(rng) {
            None => None,
            Some(track) => {
                let pause = draw_delay(
                    rng,
                    self.config.min_delay_seconds,
                    self.config.max_delay_seconds,
                );
                Some(TrackPlayback::new(track, self.config.fade_seconds, pause))
            },
        }
    }
}

} // verus!
