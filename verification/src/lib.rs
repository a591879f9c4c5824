//! An interactive audio player library: a playlist model, a playback
//! controller, and a progress reconciler that infers the current track
//! from the depth of the output sink's queue.
use vstd::prelude::*;

pub mod command;
pub mod player;
pub mod playlist;
pub mod text;
pub mod volume;

verus! {

/// The errors a player operation can report.
#[derive(Clone, Copy, PartialEq, Eq, Structural, Debug)]
pub enum PlayerError {
    /// A file could not be opened or read.
    IoError,
    /// An audio container was unrecognized or corrupt.
    DecodeError,
    /// A playlist directory does not exist.
    NotFoundError,
    /// A volume argument was not numeric.
    ParseError,
}

} // verus!
