//! What the game rules ask of the camera.

use vstd::prelude::*;

verus! {

/// A request to shake the screen. When the shake starts and which way it
/// goes is the camera's business.
#[derive(Clone, Copy, Debug, PartialEq, Eq, Structural)]
pub struct ScreenShake {
    /// How far the screen moves at most, in thousandths of a world unit.
    pub intensity: u32,
    /// How long the shake lasts, in milliseconds.
    pub duration: u32,
}

impl ScreenShake {
    pub fn new(intensity: u32, duration: u32) -> (shake: ScreenShake)
        ensures
            shake == (ScreenShake { intensity, duration }),
    {
        ScreenShake { intensity, duration }
    }
}

} // verus!
