//! The ways a run can fail.

use vstd::prelude::*;

verus! {

/// Every failure ends the whole run.
#[derive(Clone, Copy, Debug, PartialEq, Eq, Structural)]
pub enum PlayError {
    /// No playable file was found, the directory could not be read, or a
    /// track could not be opened or decoded.
    Data,
    /// The audio device could not give a playback channel.
    Output,
}

} // verus!
