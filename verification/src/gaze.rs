//! Gaze samples and where they come from.

use crate::duration::Duration;
use crate::projection::Vec3;
use vstd::prelude::*;

verus! {

/// A gaze sample on the tracking timeline.
#[verifier::ext_equal]
#[derive(Clone, Copy, Debug)]
pub struct GazeSample {
    /// When the eyes looked this way.
    pub sample_timestamp: Duration,
    /// The head-local unit gaze directions of the left eye and the right one.
    pub directions: [Vec3; 2],
}

/// Which gaze the configuration asks for.
#[derive(Clone, Copy, Debug, PartialEq, Eq, Structural)]
pub enum GazeInputSource {
    /// Gaze is not used.
    Disabled,
    /// The gaze that the headset sends.
    Headset,
    /// The gaze that a tracker on the host sends over UDP.
    ExternalUdp,
}

} // verus!
