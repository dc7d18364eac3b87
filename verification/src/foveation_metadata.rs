//! Keeps the centers that the encoder reports, where gaze is not tracked.

use crate::binary32::Binary32;
use crate::center_history::{lookup, recorded, CenterHistory};
use crate::duration::Duration;
use crate::projection::Vec2;
use vstd::prelude::*;

verus! {

/// Takes the centers that the encoder used for a frame.
pub fn set_encoder_foveation_centers(
    history: &mut CenterHistory,
    timestamp_ns: u64,
    left_x: Binary32,
    left_y: Binary32,
    right_x: Binary32,
    right_y: Binary32,
)
    ensures
        final(history)@ == recorded(
            old(history)@,
            Duration { nanos: timestamp_ns as u128 },
            [Vec2 { x: left_x, y: left_y }, Vec2 { x: right_x, y: right_y }],
        ),
        final(history).wf(),
{
    let centers = [Vec2 { x: left_x, y: left_y }, Vec2 { x: right_x, y: right_y }];
    assert(centers =~= [Vec2 { x: left_x, y: left_y }, Vec2 { x: right_x, y: right_y }]);
    history.insert(Duration::from_nanos(timestamp_ns), centers);
}

/// Forgets all centers.
pub fn reset(history: &mut CenterHistory)
    ensures
        final(history)@.len() == 0,
        final(history).wf(),
{
    history.clear();
}

/// The centers that the encoder used for a frame, if they are still known.
pub fn rendered_centers(history: &CenterHistory, timestamp: Duration) -> (r: Option<[Vec2; 2]>)
    ensures
        r == lookup(history@, timestamp),
{
    history.get(timestamp)
}

} // verus!
