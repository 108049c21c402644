//! Scheduling core of an ambient music shuffler: which files of a directory
//! are tracks, which track plays next, how the volume ramps in, and in which
//! order the steps of one track's playback happen.

pub mod error;
pub mod fade;
pub mod flags;
pub mod playback;
mod text;
pub mod tracks;
pub mod random;
pub mod selector;
pub mod session;
