//! The animation shown while a long step runs.

use vstd::prelude::*;

verus! {

/// The height of a frame, in terminal rows.
pub const FRAME_HEIGHT: u16 = 16;

/// Plays the build animation.
#[derive(Debug, PartialEq)]
pub struct BuilderAnimation {}

impl BuilderAnimation {
    pub fn new() -> (animation: Self) {
        BuilderAnimation {  }
    }

    /// How many terminal rows the cursor moves up before the next frame is
    /// drawn over the last one.
    pub fn rows_to_rewind(&self) -> (rows: u16)
        ensures
            rows == FRAME_HEIGHT,
    {
        FRAME_HEIGHT
    }
}

} // verus!
