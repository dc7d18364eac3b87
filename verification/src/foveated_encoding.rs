//! Turns head-local gaze samples into foveated-encoding center shifts, and keeps the encoder and
//! decoder transforms synchronized for each video frame.

use crate::binary32::{Binary32, ZERO_BITS};
use crate::center_history::{
    law_insert_adds_one_entry, law_insert_keeps_other_frames, law_insert_then_get, lookup, recorded,
    CenterHistory, Entry,
};
use crate::duration::{nanos_since, Duration};
use crate::gaze::{GazeInputSource, GazeSample};
use crate::projection::{
    both_centers, eye_center, head_local_directions_to_centers, in_range,
    law_centers_stay_in_range, law_each_eye_has_its_own_center, EyeProjection, Vec2, Vec3,
};
use vstd::prelude::*;

verus! {

/// The time constant of the gaze filter, in milliseconds.
pub const GAZE_FILTER_TIME_CONSTANT_MILLIS: u64 = 30;

/// How long the last valid gaze stands in for a missing one, in milliseconds.
pub const INVALID_GAZE_HOLD_DURATION_MILLIS: u64 = 100;

/// The least time between two diagnostic messages, in milliseconds.
pub const GAZE_DIAGNOSTIC_LOG_INTERVAL_MILLIS: u64 = 500;

/// Where the gaze of a frame comes from.
#[derive(Clone, Copy, Debug, PartialEq, Eq, Structural)]
pub enum GazeSource {
    ExternalUdp,
    Headset,
    Held,
    Static,
}

impl GazeSource {
    /// A name for messages.
    pub fn description(self) -> (r: &'static str)
        ensures
            r@ == (match self {
                GazeSource::ExternalUdp => "external UDP gaze"@,
                GazeSource::Headset => "headset gaze"@,
                GazeSource::Held => "last valid gaze (short hold)"@,
                GazeSource::Static => "configured static center"@,
            }),
    {
        match self {
            GazeSource::ExternalUdp => "external UDP gaze",
            GazeSource::Headset => "headset gaze",
            GazeSource::Held => "last valid gaze (short hold)",
            GazeSource::Static => "configured static center",
        }
    }
}

/// A live sample: its source, its timestamp and the directions of the left eye and the right one.
pub type LiveSample = (GazeSource, Duration, [Vec3; 2]);

/// That `blend` can give `blended` for a previous and a current direction and the time between
/// them.
pub open spec fn blends<B: Fn(Vec3, Vec3, Duration) -> Option<Vec3>>(
    blend: B,
    previous: Vec3,
    current: Vec3,
    elapsed: Duration,
    blended: Option<Vec3>,
) -> bool {
    call_ensures(blend, (previous, current, elapsed), blended)
}

/// That filtering can give `filtered`: what `blend` gives, or the current direction where that is
/// nothing.
pub open spec fn filters_to<B: Fn(Vec3, Vec3, Duration) -> Option<Vec3>>(
    blend: B,
    previous: Vec3,
    current: Vec3,
    elapsed: Duration,
    filtered: Vec3,
) -> bool {
    exists|blended: Option<Vec3>|
        #[trigger] blends(blend, previous, current, elapsed, blended) && filtered == (
        match blended {
            Some(direction) => direction,
            None => current,
        })
}

/// That `project` can give `eyes` for the directions of the left eye and the right one.
pub open spec fn projects<P: Fn([Vec3; 2]) -> [EyeProjection; 2]>(
    project: P,
    directions: [Vec3; 2],
    eyes: [EyeProjection; 2],
) -> bool {
    call_ensures(project, (directions,), eyes)
}

/// Moves a direction towards the current one. `blend` does the arithmetic and gives nothing where
/// the directions have no blend.
pub fn lerp_direction<B>(previous: Vec3, current: Vec3, elapsed: Duration, blend: &B) -> (r: Vec3)
    where B: Fn(Vec3, Vec3, Duration) -> Option<Vec3>
    requires
        call_requires(*blend, (previous, current, elapsed)),
    ensures
        filters_to(*blend, previous, current, elapsed, r),
{
    let blended = blend(previous, current, elapsed);
    assert(blends(*blend, previous, current, elapsed, blended));
    match blended {
        Some(direction) => direction,
        None => current,
    }
}

/// The gaze filter, and the centers that it gave for recent frames.
pub struct FilteredGazeState {
    pub center_history: CenterHistory,
    pub live_source: Option<GazeSource>,
    pub filtered_directions: Option<[Vec3; 2]>,
    pub last_filter_timestamp: Option<Duration>,
    pub last_valid_sample_timestamp: Option<Duration>,
}

impl FilteredGazeState {
    /// The filter either follows a source, and knows the directions and the time of its last
    /// sample, or knows nothing.
    pub open spec fn wf(self) -> bool {
        &&& self.center_history.wf()
        &&& self.live_source is Some <==> self.filtered_directions is Some
        &&& self.live_source is Some <==> self.last_filter_timestamp is Some
        &&& self.last_valid_sample_timestamp == self.last_filter_timestamp
    }

    /// Whether the filter follows no source.
    pub open spec fn idle(self) -> bool {
        &&& self.live_source is None
        &&& self.filtered_directions is None
        &&& self.last_filter_timestamp is None
        &&& self.last_valid_sample_timestamp is None
    }

    /// Whether both follow the same source at the same point.
    pub open spec fn same_track(self, other: FilteredGazeState) -> bool {
        &&& self.live_source == other.live_source
        &&& self.filtered_directions == other.filtered_directions
        &&& self.last_filter_timestamp == other.last_filter_timestamp
        &&& self.last_valid_sample_timestamp == other.last_valid_sample_timestamp
    }

    /// Whether the last valid sample is recent enough to stand in for a missing one.
    pub open spec fn holds(self, frame_timestamp: Duration) -> bool {
        match self.last_valid_sample_timestamp {
            Some(timestamp) => nanos_since(frame_timestamp, timestamp)
                <= INVALID_GAZE_HOLD_DURATION_MILLIS * 1_000_000,
            None => false,
        }
    }

    /// Whether a sample of this source is filtered: not if it is the first one.
    pub open spec fn follows(self, source: GazeSource) -> bool {
        &&& self.live_source == Some(source)
        &&& self.filtered_directions is Some
        &&& self.last_filter_timestamp is Some
    }

    /// That the filter, given a sample or none, can go on to follow what `next` does.
    pub open spec fn tracks<B: Fn(Vec3, Vec3, Duration) -> Option<Vec3>>(
        self,
        next: FilteredGazeState,
        frame_timestamp: Duration,
        sample: Option<LiveSample>,
        blend: B,
    ) -> bool {
        match sample {
            Some((source, sample_timestamp, raw)) => {
                &&& next.live_source == Some(source)
                &&& next.last_filter_timestamp == Some(sample_timestamp)
                &&& next.last_valid_sample_timestamp == Some(sample_timestamp)
                &&& next.filtered_directions matches Some(filtered) && if self.follows(source) {
                    let previous = self.filtered_directions->0;
                    let elapsed = Duration {
                        nanos: nanos_since(sample_timestamp, self.last_filter_timestamp->0) as u128,
                    };
                    &&& filters_to(blend, previous[0], raw[0], elapsed, filtered[0])
                    &&& filters_to(blend, previous[1], raw[1], elapsed, filtered[1])
                } else {
                    filtered == raw
                }
            },
            None => if self.holds(frame_timestamp) {
                next.same_track(self)
            } else {
                next.idle()
            },
        }
    }

    /// That the centers of two projected eyes, if they have any, were recorded for the frame, and
    /// that `has_centers` says whether they have.
    pub open spec fn records_eyes(
        self,
        next: FilteredGazeState,
        frame_timestamp: Duration,
        eyes: [EyeProjection; 2],
        has_centers: bool,
    ) -> bool {
        match both_centers(eyes[0], eyes[1]) {
            Some(centers) => has_centers && next.center_history@ == recorded(
                self.center_history@,
                frame_timestamp,
                centers,
            ),
            None => !has_centers && next.center_history@ == self.center_history@,
        }
    }

    /// That the centers of the directions that `next` follows, if there are any, were recorded for
    /// the frame, and that `has_centers` says whether there are any.
    pub open spec fn records<P: Fn([Vec3; 2]) -> [EyeProjection; 2]>(
        self,
        next: FilteredGazeState,
        frame_timestamp: Duration,
        project: P,
        has_centers: bool,
    ) -> bool {
        match next.filtered_directions {
            Some(directions) => exists|eyes: [EyeProjection; 2]|
                #[trigger] projects(project, directions, eyes) && self.records_eyes(
                    next,
                    frame_timestamp,
                    eyes,
                    has_centers,
                ),
            None => !has_centers && next.center_history@ == self.center_history@,
        }
    }

    /// A filter that follows no source and has no centers.
    pub fn new() -> (r: FilteredGazeState)
        ensures
            r.idle(),
            r.center_history@.len() == 0,
            r.wf(),
    {
        FilteredGazeState {
            center_history: CenterHistory::new(),
            live_source: None,
            filtered_directions: None,
            last_filter_timestamp: None,
            last_valid_sample_timestamp: None,
        }
    }

    /// Forgets everything.
    pub fn clear(&mut self)
        ensures
            final(self).idle(),
            final(self).center_history@.len() == 0,
            final(self).wf(),
    {
        self.center_history.clear();
        self.live_source = None;
        self.filtered_directions = None;
        self.last_filter_timestamp = None;
        self.last_valid_sample_timestamp = None;
    }

    /// Takes in the gaze of a frame, or that there is none, and says whether the frame has
    /// centers. `blend` and `project` do the arithmetic.
    pub fn update<B, P>(
        &mut self,
        frame_timestamp: Duration,
        sample: Option<LiveSample>,
        blend: &B,
        project: &P,
    ) -> (r: bool)
        where B: Fn(Vec3, Vec3, Duration) -> Option<Vec3>, P: Fn([Vec3; 2]) -> [EyeProjection; 2]
        requires
            forall|previous: Vec3, current: Vec3, elapsed: Duration|
                call_requires(*blend, (previous, current, elapsed)),
            forall|directions: [Vec3; 2]| call_requires(*project, (directions,)),
        ensures
            old(self).tracks(*final(self), frame_timestamp, sample, *blend),
            old(self).records(*final(self), frame_timestamp, *project, r),
            old(self).wf() ==> final(self).wf(),
    {
        let directions = match sample {
            Some((source, sample_timestamp, raw_directions)) => {
                let follows = match self.live_source {
                    Some(live_source) => live_source == source,
                    None => false,
                };
                if !follows {
                    self.filtered_directions = None;
                    self.last_filter_timestamp = None;
                }
                let filtered_directions = match (
                    self.filtered_directions,
                    self.last_filter_timestamp,
                ) {
                    (Some(previous), Some(previous_timestamp)) => {
                        let elapsed = sample_timestamp.saturating_sub(previous_timestamp);
                        [
                            lerp_direction(previous[0], raw_directions[0], elapsed, blend),
                            lerp_direction(previous[1], raw_directions[1], elapsed, blend),
                        ]
                    },
                    _ => raw_directions,
                };
                self.live_source = Some(source);
                self.filtered_directions = Some(filtered_directions);
                self.last_filter_timestamp = Some(sample_timestamp);
                self.last_valid_sample_timestamp = Some(sample_timestamp);
                Some(filtered_directions)
            },
            None => {
                let hold = match self.last_valid_sample_timestamp {
                    Some(sample_timestamp) => frame_timestamp.saturating_sub(sample_timestamp).nanos
                        <= Duration::from_millis(INVALID_GAZE_HOLD_DURATION_MILLIS).nanos,
                    None => false,
                };
                if hold {
                    self.filtered_directions
                } else {
                    self.live_source = None;
                    self.filtered_directions = None;
                    self.last_filter_timestamp = None;
                    self.last_valid_sample_timestamp = None;
                    None
                }
            },
        };
        assert(directions == self.filtered_directions);
        let centers = match directions {
            Some(known) => {
                let eyes = project(known);
                assert(projects(*project, known, eyes));
                head_local_directions_to_centers(eyes)
            },
            None => None,
        };
        match centers {
            Some(found) => {
                self.center_history.insert(frame_timestamp, found);
                true
            },
            None => false,
        }
    }

    /// The centers of a frame, if they are still known.
    pub fn get(&self, timestamp: Duration) -> (r: Option<[Vec2; 2]>)
        ensures
            r == lookup(self.center_history@, timestamp),
    {
        self.center_history.get(timestamp)
    }
}

/// The centers of one frame as the encoder reads them. Where `valid` is false, all shifts are zero.
#[derive(Clone, Copy, Debug, PartialEq, Eq, Structural)]
pub struct FoveationCenters {
    pub valid: bool,
    pub left_x: Binary32,
    pub left_y: Binary32,
    pub right_x: Binary32,
    pub right_y: Binary32,
}

/// The form in which the encoder reads centers, or that there are none.
pub open spec fn encoder_centers(centers: Option<[Vec2; 2]>) -> FoveationCenters {
    match centers {
        Some(known) => FoveationCenters {
            valid: true,
            left_x: known[0].x,
            left_y: known[0].y,
            right_x: known[1].x,
            right_y: known[1].y,
        },
        None => FoveationCenters {
            valid: false,
            left_x: Binary32 { bits: ZERO_BITS },
            left_y: Binary32 { bits: ZERO_BITS },
            right_x: Binary32 { bits: ZERO_BITS },
            right_y: Binary32 { bits: ZERO_BITS },
        },
    }
}

/// Hands the centers of a frame to the encoder.
pub fn get_eye_tracked_foveation_centers(state: &FilteredGazeState, timestamp_ns: u64) -> (r:
    FoveationCenters)
    ensures
        r == encoder_centers(
            lookup(state.center_history@, Duration { nanos: timestamp_ns as u128 }),
        ),
{
    match state.get(Duration::from_nanos(timestamp_ns)) {
        Some(centers) => FoveationCenters {
            valid: true,
            left_x: centers[0].x,
            left_y: centers[0].y,
            right_x: centers[1].x,
            right_y: centers[1].y,
        },
        None => {
            let zero = Binary32 { bits: ZERO_BITS };
            FoveationCenters {
                valid: false,
                left_x: zero,
                left_y: zero,
                right_x: zero,
                right_y: zero,
            }
        },
    }
}

/// Takes the centers that the encoder used for a frame.
pub fn set_encoder_foveation_centers(
    rendered: &mut CenterHistory,
    timestamp_ns: u64,
    left_x: Binary32,
    left_y: Binary32,
    right_x: Binary32,
    right_y: Binary32,
)
    ensures
        final(rendered)@ == recorded(
            old(rendered)@,
            Duration { nanos: timestamp_ns as u128 },
            [Vec2 { x: left_x, y: left_y }, Vec2 { x: right_x, y: right_y }],
        ),
        final(rendered).wf(),
{
    let centers = [Vec2 { x: left_x, y: left_y }, Vec2 { x: right_x, y: right_y }];
    assert(centers =~= [Vec2 { x: left_x, y: left_y }, Vec2 { x: right_x, y: right_y }]);
    rendered.insert(Duration::from_nanos(timestamp_ns), centers);
}

/// The source that the configuration selects.
pub open spec fn selected_source(input: GazeInputSource) -> GazeSource {
    match input {
        GazeInputSource::Disabled => GazeSource::Static,
        GazeInputSource::Headset => GazeSource::Headset,
        GazeInputSource::ExternalUdp => GazeSource::ExternalUdp,
    }
}

/// The sample of the selected source.
pub open spec fn selected_sample(
    input: GazeInputSource,
    external_gaze: Option<GazeSample>,
    headset_gaze: Option<GazeSample>,
) -> Option<LiveSample> {
    let sample = match input {
        GazeInputSource::Disabled => None,
        GazeInputSource::Headset => headset_gaze,
        GazeInputSource::ExternalUdp => external_gaze,
    };
    match sample {
        Some(gaze) => Some((selected_source(input), gaze.sample_timestamp, gaze.directions)),
        None => None,
    }
}

/// What is reported of a frame: the selected source where a live sample gave centers, a hold where
/// an earlier one did.
pub open spec fn reported_source(input: GazeInputSource, live: bool, has_centers: bool) -> GazeSource {
    if !has_centers {
        GazeSource::Static
    } else if live {
        selected_source(input)
    } else {
        GazeSource::Held
    }
}

/// That the selected sample, or none, can take the filter from `state` to `next` and be reported
/// as `reported`.
pub open spec fn updates_to<
    B: Fn(Vec3, Vec3, Duration) -> Option<Vec3>,
    P: Fn([Vec3; 2]) -> [EyeProjection; 2],
>(
    state: FilteredGazeState,
    next: FilteredGazeState,
    timestamp: Duration,
    sample: Option<LiveSample>,
    input: GazeInputSource,
    blend: B,
    project: P,
    reported: GazeSource,
) -> bool {
    let has_centers = reported != GazeSource::Static;
    &&& state.tracks(next, timestamp, sample, blend)
    &&& state.records(next, timestamp, project, has_centers)
    &&& reported == reported_source(input, sample is Some, has_centers)
}

/// Picks the sample of the source that the configuration selects.
pub fn select_sample(
    input: GazeInputSource,
    external_gaze: Option<GazeSample>,
    headset_gaze: Option<GazeSample>,
) -> (r: Option<LiveSample>)
    ensures
        r == selected_sample(input, external_gaze, headset_gaze),
{
    let (source, gaze) = match input {
        GazeInputSource::Disabled => (GazeSource::Static, None),
        GazeInputSource::Headset => (GazeSource::Headset, headset_gaze),
        GazeInputSource::ExternalUdp => (GazeSource::ExternalUdp, external_gaze),
    };
    match gaze {
        Some(live) => Some((source, live.sample_timestamp, live.directions)),
        None => None,
    }
}

/// Takes in the gaze of a frame and says where it comes from. Only the source that is selected is
/// used. `blend` and `project` do the arithmetic.
pub fn update<B, P>(
    state: &mut FilteredGazeState,
    timestamp: Duration,
    external_gaze: Option<GazeSample>,
    headset_gaze: Option<GazeSample>,
    input: GazeInputSource,
    blend: &B,
    project: &P,
) -> (r: GazeSource)
    where B: Fn(Vec3, Vec3, Duration) -> Option<Vec3>, P: Fn([Vec3; 2]) -> [EyeProjection; 2]
    requires
        forall|previous: Vec3, current: Vec3, elapsed: Duration|
            call_requires(*blend, (previous, current, elapsed)),
        forall|directions: [Vec3; 2]| call_requires(*project, (directions,)),
    ensures
        updates_to(
            *old(state),
            *final(state),
            timestamp,
            selected_sample(input, external_gaze, headset_gaze),
            input,
            *blend,
            *project,
            r,
        ),
        old(state).wf() ==> final(state).wf(),
{
    let sample = select_sample(input, external_gaze, headset_gaze);
    let has_centers = state.update(timestamp, sample, blend, project);
    match sample {
        Some((source, _, _)) if has_centers => source,
        _ => if has_centers {
            GazeSource::Held
        } else {
            GazeSource::Static
        },
    }
}

/// Decides whether a diagnostic message is due for a frame, and takes note of it. Timestamps that
/// go back start anew.
pub fn diagnostic_due(last_log: &mut Option<Duration>, timestamp: Duration) -> (r: bool)
    ensures
        r == (match *old(last_log) {
            Some(last) => timestamp.nanos < last.nanos || timestamp.nanos - last.nanos
                >= GAZE_DIAGNOSTIC_LOG_INTERVAL_MILLIS * 1_000_000,
            None => true,
        }),
        *final(last_log) == (if r {
            Some(timestamp)
        } else {
            *old(last_log)
        }),
{
    let due = match *last_log {
        Some(last) => timestamp.nanos < last.nanos || timestamp.saturating_sub(last).nanos
            >= Duration::from_millis(GAZE_DIAGNOSTIC_LOG_INTERVAL_MILLIS).nanos,
        None => true,
    };
    if due {
        *last_log = Some(timestamp);
    }
    due
}

/// Forgets all gaze, all centers and when the last diagnostic message was.
pub fn reset(
    state: &mut FilteredGazeState,
    rendered: &mut CenterHistory,
    last_log: &mut Option<Duration>,
)
    ensures
        final(state).idle(),
        final(state).center_history@.len() == 0,
        final(state).wf(),
        final(rendered)@.len() == 0,
        final(rendered).wf(),
        *final(last_log) is None,
{
    state.clear();
    rendered.clear();
    *last_log = None;
}

/// The centers that the encoder used for a frame, if they are still known.
pub fn rendered_centers(rendered: &CenterHistory, timestamp: Duration) -> (r: Option<[Vec2; 2]>)
    ensures
        r == lookup(rendered@, timestamp),
{
    rendered.get(timestamp)
}

/// What the encoder reported for a frame is what the decoder is told of it.
pub proof fn law_decoder_gets_encoder_centers(
    rendered: CenterHistory,
    next: CenterHistory,
    timestamp: Duration,
    centers: [Vec2; 2],
)
    requires
        next@ == recorded(rendered@, timestamp, centers),
    ensures
        lookup(next@, timestamp) == Some(centers),
{
    law_insert_then_get(rendered@, timestamp, centers);
}

/// A frame is said to have centers only if they are found under its timestamp afterwards: those of
/// the directions that the filter then follows. A frame without centers leaves all others alone.
pub proof fn law_reported_centers_are_found<P: Fn([Vec3; 2]) -> [EyeProjection; 2]>(
    state: FilteredGazeState,
    next: FilteredGazeState,
    frame_timestamp: Duration,
    project: P,
    has_centers: bool,
)
    requires
        state.records(next, frame_timestamp, project, has_centers),
    ensures
        has_centers ==> exists|eyes: [EyeProjection; 2]|
            {
                &&& #[trigger] projects(project, next.filtered_directions->0, eyes)
                &&& both_centers(eyes[0], eyes[1]) is Some
                &&& lookup(next.center_history@, frame_timestamp) == both_centers(eyes[0], eyes[1])
            },
        !has_centers ==> next.center_history@ == state.center_history@,
{
    if has_centers {
        let eyes = choose|eyes: [EyeProjection; 2]|
            #[trigger] projects(project, next.filtered_directions->0, eyes) && state.records_eyes(
                next,
                frame_timestamp,
                eyes,
                has_centers,
            );
        assert(projects(project, next.filtered_directions->0, eyes));
        law_insert_then_get(
            state.center_history@,
            frame_timestamp,
            both_centers(eyes[0], eyes[1])->0,
        );
    }
}

/// Where a frame was said to have centers, the encoder reads valid ones for it, all between -1 and
/// 1.
pub proof fn law_encoder_reads_reported_centers<P: Fn([Vec3; 2]) -> [EyeProjection; 2]>(
    state: FilteredGazeState,
    next: FilteredGazeState,
    timestamp_ns: u64,
    project: P,
)
    requires
        state.records(next, Duration { nanos: timestamp_ns as u128 }, project, true),
    ensures
        ({
            let read = encoder_centers(
                lookup(next.center_history@, Duration { nanos: timestamp_ns as u128 }),
            );
            &&& read.valid
            &&& in_range(Vec2 { x: read.left_x, y: read.left_y })
            &&& in_range(Vec2 { x: read.right_x, y: read.right_y })
        }),
{
    let timestamp = Duration { nanos: timestamp_ns as u128 };
    law_reported_centers_are_found(state, next, timestamp, project, true);
    let eyes = choose|eyes: [EyeProjection; 2]|
        {
            &&& #[trigger] projects(project, next.filtered_directions->0, eyes)
            &&& both_centers(eyes[0], eyes[1]) is Some
            &&& lookup(next.center_history@, timestamp) == both_centers(eyes[0], eyes[1])
        };
    law_centers_stay_in_range(eyes[0], false);
    law_centers_stay_in_range(eyes[1], true);
}

/// Whether all the centers of a history are numbers between -1 and 1.
pub open spec fn all_in_range(entries: Seq<Entry>) -> bool {
    forall|i: int|
        0 <= i < entries.len() ==> in_range((#[trigger] entries[i]).1[0]) && in_range(
            entries[i].1[1],
        )
}

/// The filter keeps no centers but numbers between -1 and 1.
pub proof fn law_known_centers_stay_in_range<P: Fn([Vec3; 2]) -> [EyeProjection; 2]>(
    state: FilteredGazeState,
    next: FilteredGazeState,
    frame_timestamp: Duration,
    project: P,
    has_centers: bool,
)
    requires
        all_in_range(state.center_history@),
        state.records(next, frame_timestamp, project, has_centers),
    ensures
        all_in_range(next.center_history@),
{
    if has_centers {
        let eyes = choose|eyes: [EyeProjection; 2]|
            #[trigger] projects(project, next.filtered_directions->0, eyes) && state.records_eyes(
                next,
                frame_timestamp,
                eyes,
                has_centers,
            );
        law_centers_stay_in_range(eyes[0], false);
        law_centers_stay_in_range(eyes[1], true);
        let centers = both_centers(eyes[0], eyes[1])->0;
        let all = state.center_history@.push((frame_timestamp, centers));
        assert(all_in_range(all));
    }
}

/// The first sample of a source is taken as it is: it is not blended with those of another.
pub proof fn law_new_source_is_not_blended<B: Fn(Vec3, Vec3, Duration) -> Option<Vec3>>(
    state: FilteredGazeState,
    next: FilteredGazeState,
    frame_timestamp: Duration,
    sample: LiveSample,
    blend: B,
)
    requires
        state.tracks(next, frame_timestamp, Some(sample), blend),
        state.live_source != Some(sample.0),
    ensures
        next.filtered_directions == Some(sample.2),
{
}

/// A gap is bridged for a short time: up to the hold duration after a sample, a frame without gaze
/// keeps its directions and, where the projection is the same, has the centers that the sample
/// had.
pub proof fn law_short_gaps_are_bridged<
    B: Fn(Vec3, Vec3, Duration) -> Option<Vec3>,
    P: Fn([Vec3; 2]) -> [EyeProjection; 2],
>(
    state: FilteredGazeState,
    next: FilteredGazeState,
    frame_timestamp: Duration,
    blend: B,
    project: P,
    eyes: [EyeProjection; 2],
    has_centers: bool,
)
    requires
        state.wf(),
        state.live_source is Some,
        nanos_since(frame_timestamp, state.last_valid_sample_timestamp->0)
            <= INVALID_GAZE_HOLD_DURATION_MILLIS * 1_000_000,
        state.tracks(next, frame_timestamp, None, blend),
        state.records(next, frame_timestamp, project, has_centers),
        forall|given: [EyeProjection; 2]| #[trigger]
            projects(project, state.filtered_directions->0, given) ==> given == eyes,
    ensures
        next.same_track(state),
        has_centers <==> both_centers(eyes[0], eyes[1]) is Some,
        has_centers ==> lookup(next.center_history@, frame_timestamp) == both_centers(
            eyes[0],
            eyes[1],
        ),
{
    law_reported_centers_are_found(state, next, frame_timestamp, project, has_centers);
}

/// Frames without gaze do not prolong a hold: how long it lasts goes by the last sample alone.
pub proof fn law_holding_does_not_prolong_the_hold<
    B: Fn(Vec3, Vec3, Duration) -> Option<Vec3>,
>(
    state: FilteredGazeState,
    next: FilteredGazeState,
    frame_timestamp: Duration,
    later: Duration,
    blend: B,
)
    requires
        state.tracks(next, frame_timestamp, None, blend),
    ensures
        state.holds(frame_timestamp) ==> next.holds(later) == state.holds(later),
        !state.holds(frame_timestamp) ==> !next.holds(later),
{
}

/// A longer gap is not bridged: the frame has no centers, and the filter forgets the directions.
pub proof fn law_long_gaps_end_the_hold<
    B: Fn(Vec3, Vec3, Duration) -> Option<Vec3>,
    P: Fn([Vec3; 2]) -> [EyeProjection; 2],
>(
    state: FilteredGazeState,
    next: FilteredGazeState,
    frame_timestamp: Duration,
    blend: B,
    project: P,
    has_centers: bool,
)
    requires
        state.wf(),
        state.live_source is Some ==> nanos_since(
            frame_timestamp,
            state.last_valid_sample_timestamp->0,
        ) > INVALID_GAZE_HOLD_DURATION_MILLIS * 1_000_000,
        state.tracks(next, frame_timestamp, None, blend),
        state.records(next, frame_timestamp, project, has_centers),
    ensures
        !has_centers,
        next.idle(),
        next.center_history@ == state.center_history@,
{
}

/// Whether two pairs of samples differ at most in gaze that the configuration does not select.
pub open spec fn same_selected_gaze(
    input: GazeInputSource,
    external_gaze: Option<GazeSample>,
    headset_gaze: Option<GazeSample>,
    other_external_gaze: Option<GazeSample>,
    other_headset_gaze: Option<GazeSample>,
) -> bool {
    match input {
        GazeInputSource::Disabled => true,
        GazeInputSource::Headset => headset_gaze == other_headset_gaze,
        GazeInputSource::ExternalUdp => external_gaze == other_external_gaze,
    }
}

/// That `blend` gives one result for each input.
pub open spec fn blends_once<B: Fn(Vec3, Vec3, Duration) -> Option<Vec3>>(blend: B) -> bool {
    forall|previous: Vec3, current: Vec3, elapsed: Duration, one: Option<Vec3>, other: Option<Vec3>|
        #[trigger] blends(blend, previous, current, elapsed, one) && #[trigger] blends(
            blend,
            previous,
            current,
            elapsed,
            other,
        ) ==> one == other
}

/// That `project` gives one result for each input.
pub open spec fn projects_once<P: Fn([Vec3; 2]) -> [EyeProjection; 2]>(project: P) -> bool {
    forall|directions: [Vec3; 2], one: [EyeProjection; 2], other: [EyeProjection; 2]|
        #[trigger] projects(project, directions, one) && #[trigger] projects(
            project,
            directions,
            other,
        ) ==> one == other
}

/// Gaze that the configuration does not select has no influence and never stands in for the
/// selected one. With any other such gaze the same outcomes are possible; where the arithmetic
/// gives one result for each input, two runs from equal states give equal results and leave equal
/// states.
pub proof fn law_unselected_gaze_is_ignored<
    B: Fn(Vec3, Vec3, Duration) -> Option<Vec3>,
    P: Fn([Vec3; 2]) -> [EyeProjection; 2],
>(
    state: FilteredGazeState,
    next: FilteredGazeState,
    reported: GazeSource,
    other_state: FilteredGazeState,
    other_next: FilteredGazeState,
    other_reported: GazeSource,
    timestamp: Duration,
    input: GazeInputSource,
    external_gaze: Option<GazeSample>,
    headset_gaze: Option<GazeSample>,
    other_external_gaze: Option<GazeSample>,
    other_headset_gaze: Option<GazeSample>,
    blend: B,
    project: P,
)
    requires
        same_selected_gaze(
            input,
            external_gaze,
            headset_gaze,
            other_external_gaze,
            other_headset_gaze,
        ),
        state.same_track(other_state),
        state.center_history@ == other_state.center_history@,
    ensures
        ({
            let sample = selected_sample(input, external_gaze, headset_gaze);
            let other_sample = selected_sample(input, other_external_gaze, other_headset_gaze);
            &&& input == GazeInputSource::Disabled ==> sample is None
            &&& updates_to(state, next, timestamp, sample, input, blend, project, reported)
                == updates_to(
                other_state,
                next,
                timestamp,
                other_sample,
                input,
                blend,
                project,
                reported,
            )
            &&& blends_once(blend) && projects_once(project) && updates_to(
                state,
                next,
                timestamp,
                sample,
                input,
                blend,
                project,
                reported,
            ) && updates_to(
                other_state,
                other_next,
                timestamp,
                other_sample,
                input,
                blend,
                project,
                other_reported,
            ) ==> {
                &&& reported == other_reported
                &&& next.same_track(other_next)
                &&& next.center_history@ == other_next.center_history@
            }
        }),
{
    let sample = selected_sample(input, external_gaze, headset_gaze);
    assert(sample == selected_sample(input, other_external_gaze, other_headset_gaze));
    if blends_once(blend) && projects_once(project) && updates_to(
        state,
        next,
        timestamp,
        sample,
        input,
        blend,
        project,
        reported,
    ) && updates_to(
        other_state,
        other_next,
        timestamp,
        sample,
        input,
        blend,
        project,
        other_reported,
    ) {
        if next.filtered_directions is Some {
            assert(next.filtered_directions->0 =~= other_next.filtered_directions->0);
        }
        assert(next.same_track(other_next));
    }
}

/// After a reset no frame has centers, neither tracked nor rendered ones.
pub proof fn law_reset_forgets_all_frames(history: CenterHistory, timestamp: Duration)
    requires
        history@.len() == 0,
    ensures
        lookup(history@, timestamp) is None,
        !encoder_centers(lookup(history@, timestamp)).valid,
{
}

/// Filtering goes from the previous direction to the current one. For arithmetic that gives `f` of
/// a previous direction, a current one and the time between them, a filtered direction is that, or
/// the current direction where that is nothing.
pub proof fn law_filtering_goes_from_previous_to_current<
    B: Fn(Vec3, Vec3, Duration) -> Option<Vec3>,
>(
    blend: B,
    f: spec_fn(Vec3, Vec3, Duration) -> Option<Vec3>,
    previous: Vec3,
    current: Vec3,
    elapsed: Duration,
    filtered: Vec3,
)
    requires
        filters_to(blend, previous, current, elapsed, filtered),
        forall|from: Vec3, to: Vec3, time: Duration, blended: Option<Vec3>| #[trigger]
            call_ensures(blend, (from, to, time), blended) ==> blended == f(from, to, time),
    ensures
        f(previous, current, elapsed) matches Some(direction) ==> filtered == direction,
        f(previous, current, elapsed) is None ==> filtered == current,
{
    let blended = choose|blended: Option<Vec3>|
        #[trigger] blends(blend, previous, current, elapsed, blended) && filtered == (
        match blended {
            Some(direction) => direction,
            None => current,
        });
    assert(call_ensures(blend, (previous, current, elapsed), blended));
}

/// A sample of the source that is followed moves each eye from its own filtered direction towards
/// its own direction in the sample, over the time between the two samples. Where the arithmetic
/// has no blend the direction of the sample is taken. Source and time of the sample are remembered.
pub proof fn law_each_eye_moves_towards_its_sample<B: Fn(Vec3, Vec3, Duration) -> Option<Vec3>>(
    state: FilteredGazeState,
    next: FilteredGazeState,
    frame_timestamp: Duration,
    source: GazeSource,
    sample_timestamp: Duration,
    raw: [Vec3; 2],
    previous: [Vec3; 2],
    previous_timestamp: Duration,
    blend: B,
    f: spec_fn(Vec3, Vec3, Duration) -> Option<Vec3>,
    elapsed: Duration,
    eye: int,
)
    requires
        state.tracks(next, frame_timestamp, Some((source, sample_timestamp, raw)), blend),
        state.live_source == Some(source),
        state.filtered_directions == Some(previous),
        state.last_filter_timestamp == Some(previous_timestamp),
        forall|from: Vec3, to: Vec3, time: Duration, blended: Option<Vec3>| #[trigger]
            call_ensures(blend, (from, to, time), blended) ==> blended == f(from, to, time),
        sample_timestamp.nanos == previous_timestamp.nanos + elapsed.nanos || (elapsed.nanos == 0
            && sample_timestamp.nanos < previous_timestamp.nanos),
        eye == 0 || eye == 1,
    ensures
        next.live_source == Some(source),
        next.last_filter_timestamp == Some(sample_timestamp),
        next.last_valid_sample_timestamp == Some(sample_timestamp),
        next.filtered_directions matches Some(filtered) && match f(
            previous[eye],
            raw[eye],
            elapsed,
        ) {
            Some(direction) => filtered[eye] == direction,
            None => filtered[eye] == raw[eye],
        },
{
    let filtered = next.filtered_directions->0;
    assert(elapsed.nanos == nanos_since(sample_timestamp, previous_timestamp));
    let time = Duration {
        nanos: nanos_since(sample_timestamp, previous_timestamp) as u128,
    };
    assert(time == elapsed);
    law_filtering_goes_from_previous_to_current(
        blend,
        f,
        previous[0],
        raw[0],
        elapsed,
        filtered[0],
    );
    law_filtering_goes_from_previous_to_current(
        blend,
        f,
        previous[1],
        raw[1],
        elapsed,
        filtered[1],
    );
}

/// A filter whose arithmetic always arrives at the current direction, or has no blend, follows the
/// samples exactly; one whose arithmetic never leaves the previous direction stands still.
pub proof fn law_filter_arrives_or_stays<B: Fn(Vec3, Vec3, Duration) -> Option<Vec3>>(
    state: FilteredGazeState,
    next: FilteredGazeState,
    frame_timestamp: Duration,
    sample: LiveSample,
    blend: B,
)
    requires
        state.tracks(next, frame_timestamp, Some(sample), blend),
        state.live_source == Some(sample.0),
        state.filtered_directions is Some,
        state.last_filter_timestamp is Some,
    ensures
        (forall|from: Vec3, to: Vec3, time: Duration, blended: Option<Vec3>| #[trigger]
            call_ensures(blend, (from, to, time), blended) ==> blended is None || blended == Some(to))
            ==> next.filtered_directions == Some(sample.2),
        (forall|from: Vec3, to: Vec3, time: Duration, blended: Option<Vec3>| #[trigger]
            call_ensures(blend, (from, to, time), blended) ==> blended == Some(from))
            ==> next.filtered_directions == state.filtered_directions,
{
    let filtered = next.filtered_directions->0;
    let previous = state.filtered_directions->0;
    if forall|from: Vec3, to: Vec3, time: Duration, blended: Option<Vec3>| #[trigger]
        call_ensures(blend, (from, to, time), blended) ==> blended is None || blended == Some(to) {
        assert(filtered =~= sample.2);
    }
    if forall|from: Vec3, to: Vec3, time: Duration, blended: Option<Vec3>| #[trigger]
        call_ensures(blend, (from, to, time), blended) ==> blended == Some(from) {
        assert(filtered =~= previous);
    }
}

/// A sample of a source that is not followed starts the filter at its own directions and time.
pub proof fn law_first_sample_starts_the_filter<B: Fn(Vec3, Vec3, Duration) -> Option<Vec3>>(
    state: FilteredGazeState,
    next: FilteredGazeState,
    frame_timestamp: Duration,
    source: GazeSource,
    sample_timestamp: Duration,
    raw: [Vec3; 2],
    blend: B,
)
    requires
        state.tracks(next, frame_timestamp, Some((source, sample_timestamp, raw)), blend),
        state.live_source != Some(source) || state.filtered_directions is None
            || state.last_filter_timestamp is None,
    ensures
        next.live_source == Some(source),
        next.filtered_directions == Some(raw),
        next.last_filter_timestamp == Some(sample_timestamp),
        next.last_valid_sample_timestamp == Some(sample_timestamp),
{
}

/// Without a sample the filter keeps all that it knows up to 100 milliseconds after the last valid
/// one, and then forgets it all.
pub proof fn law_hold_lasts_100_milliseconds<B: Fn(Vec3, Vec3, Duration) -> Option<Vec3>>(
    state: FilteredGazeState,
    next: FilteredGazeState,
    frame_timestamp: Duration,
    blend: B,
)
    requires
        state.tracks(next, frame_timestamp, None, blend),
    ensures
        ({
            let held = state.last_valid_sample_timestamp matches Some(last) && frame_timestamp.nanos
                <= last.nanos + 100_000_000;
            &&& held ==> {
                &&& next.live_source == state.live_source
                &&& next.filtered_directions == state.filtered_directions
                &&& next.last_filter_timestamp == state.last_filter_timestamp
                &&& next.last_valid_sample_timestamp == state.last_valid_sample_timestamp
            }
            &&& !held ==> {
                &&& next.live_source is None
                &&& next.filtered_directions is None
                &&& next.last_filter_timestamp is None
                &&& next.last_valid_sample_timestamp is None
            }
        }),
{
}

/// A frame has centers exactly where the filter follows directions and both eyes can be projected.
/// For arithmetic that gives `g` of the directions, the first of its results is the left eye's.
/// The frame's centers are then found under its timestamp, and no other frame's are changed, but
/// for the oldest entry of a full history. Without centers nothing is changed.
pub proof fn law_frame_gets_the_centers_of_its_directions<
    P: Fn([Vec3; 2]) -> [EyeProjection; 2],
>(
    state: FilteredGazeState,
    next: FilteredGazeState,
    frame_timestamp: Duration,
    project: P,
    g: spec_fn([Vec3; 2]) -> [EyeProjection; 2],
    has_centers: bool,
    other: Duration,
)
    requires
        state.records(next, frame_timestamp, project, has_centers),
        forall|directions: [Vec3; 2], eyes: [EyeProjection; 2]| #[trigger]
            call_ensures(project, (directions,), eyes) ==> eyes == g(directions),
    ensures
        next.filtered_directions is None ==> !has_centers,
        next.filtered_directions matches Some(directions) ==> {
            let left = eye_center(g(directions)[0], false);
            let right = eye_center(g(directions)[1], true);
            &&& has_centers <==> left is Some && right is Some
            &&& has_centers ==> {
                &&& lookup(next.center_history@, frame_timestamp) matches Some(centers)
                    && left == Some(centers[0]) && right == Some(centers[1])
                &&& next.center_history@.last().0 == frame_timestamp
            }
        },
        has_centers && other != frame_timestamp && (state.center_history@.len() < 360 || (
        state.center_history@.len() == 360 && state.center_history@[0].0 != other)) ==> lookup(
            next.center_history@,
            other,
        ) == lookup(state.center_history@, other),
        !has_centers ==> next.center_history@ == state.center_history@,
{
    if next.filtered_directions is Some {
        let directions = next.filtered_directions->0;
        let eyes = choose|eyes: [EyeProjection; 2]|
            #[trigger] projects(project, directions, eyes) && state.records_eyes(
                next,
                frame_timestamp,
                eyes,
                has_centers,
            );
        assert(call_ensures(project, (directions,), eyes));
        law_each_eye_has_its_own_center(eyes[0], eyes[1]);
        if has_centers {
            let centers = both_centers(eyes[0], eyes[1])->0;
            law_insert_then_get(state.center_history@, frame_timestamp, centers);
            law_insert_adds_one_entry(state.center_history@, frame_timestamp, centers);
            if other != frame_timestamp && (state.center_history@.len() < 360 || (
            state.center_history@.len() == 360 && state.center_history@[0].0 != other)) {
                law_insert_keeps_other_frames(
                    state.center_history@,
                    frame_timestamp,
                    centers,
                    other,
                );
            }
        }
    }
}

/// The sample that is used is that of the selected source, under its name, with its own timestamp
/// and directions.
pub proof fn law_selected_sample_is_passed_on(
    external_gaze: Option<GazeSample>,
    headset_gaze: Option<GazeSample>,
)
    ensures
        selected_sample(GazeInputSource::Disabled, external_gaze, headset_gaze) is None,
        selected_sample(GazeInputSource::Headset, external_gaze, headset_gaze) is Some
            <==> headset_gaze is Some,
        headset_gaze matches Some(gaze) ==> selected_sample(
            GazeInputSource::Headset,
            external_gaze,
            headset_gaze,
        ) == Some((GazeSource::Headset, gaze.sample_timestamp, gaze.directions)),
        selected_sample(GazeInputSource::ExternalUdp, external_gaze, headset_gaze) is Some
            <==> external_gaze is Some,
        external_gaze matches Some(gaze) ==> selected_sample(
            GazeInputSource::ExternalUdp,
            external_gaze,
            headset_gaze,
        ) == Some((GazeSource::ExternalUdp, gaze.sample_timestamp, gaze.directions)),
{
}

/// What is reported of a frame. A frame is static exactly where it has no centers: where the filter
/// follows no directions, or the eyes cannot be projected. Else it is headset or external gaze
/// where that is selected and there is a sample of it, and held where there is none.
pub proof fn law_report_tells_where_gaze_came_from<
    B: Fn(Vec3, Vec3, Duration) -> Option<Vec3>,
    P: Fn([Vec3; 2]) -> [EyeProjection; 2],
>(
    state: FilteredGazeState,
    next: FilteredGazeState,
    timestamp: Duration,
    input: GazeInputSource,
    external_gaze: Option<GazeSample>,
    headset_gaze: Option<GazeSample>,
    blend: B,
    project: P,
    g: spec_fn([Vec3; 2]) -> [EyeProjection; 2],
    reported: GazeSource,
)
    requires
        updates_to(
            state,
            next,
            timestamp,
            selected_sample(input, external_gaze, headset_gaze),
            input,
            blend,
            project,
            reported,
        ),
        forall|directions: [Vec3; 2], eyes: [EyeProjection; 2]| #[trigger]
            call_ensures(project, (directions,), eyes) ==> eyes == g(directions),
    ensures
        ({
            let has_centers = next.filtered_directions matches Some(directions) && eye_center(
                g(directions)[0],
                false,
            ) is Some && eye_center(g(directions)[1], true) is Some;
            &&& reported == GazeSource::Static <==> !has_centers
            &&& reported == GazeSource::Headset <==> has_centers && input
                == GazeInputSource::Headset && headset_gaze is Some
            &&& reported == GazeSource::ExternalUdp <==> has_centers && input
                == GazeInputSource::ExternalUdp && external_gaze is Some
            &&& reported == GazeSource::Held <==> has_centers && (input == GazeInputSource::Headset
                ==> headset_gaze is None) && (input == GazeInputSource::ExternalUdp
                ==> external_gaze is None)
        }),
{
    law_frame_gets_the_centers_of_its_directions(
        state,
        next,
        timestamp,
        project,
        g,
        reported != GazeSource::Static,
        timestamp,
    );
}

/// The encoder reads all four shifts of the centers that are known under a timestamp, each in its
/// place, and is told where there are none: then all four are zero.
pub proof fn law_encoder_reads_all_four_shifts(centers: Option<[Vec2; 2]>)
    ensures
        ({
            let read = encoder_centers(centers);
            &&& read.valid <==> centers is Some
            &&& centers matches Some(known) ==> {
                &&& read.left_x == known[0].x
                &&& read.left_y == known[0].y
                &&& read.right_x == known[1].x
                &&& read.right_y == known[1].y
            }
            &&& centers is None ==> {
                &&& read.left_x.bits == 0
                &&& read.left_y.bits == 0
                &&& read.right_x.bits == 0
                &&& read.right_y.bits == 0
            }
        }),
{
}

/// After a frame that has centers, the encoder reads under its timestamp the very centers of the
/// eyes that were projected: the left eye's and the right eye's, horizontal and vertical.
pub proof fn law_encoder_reads_the_centers_of_the_frame<P: Fn([Vec3; 2]) -> [EyeProjection; 2]>(
    state: FilteredGazeState,
    next: FilteredGazeState,
    timestamp_ns: u64,
    project: P,
    g: spec_fn([Vec3; 2]) -> [EyeProjection; 2],
)
    requires
        state.records(next, Duration { nanos: timestamp_ns as u128 }, project, true),
        forall|directions: [Vec3; 2], eyes: [EyeProjection; 2]| #[trigger]
            call_ensures(project, (directions,), eyes) ==> eyes == g(directions),
    ensures
        ({
            let read = encoder_centers(
                lookup(next.center_history@, Duration { nanos: timestamp_ns as u128 }),
            );
            &&& read.valid
            &&& next.filtered_directions matches Some(directions) && eye_center(
                g(directions)[0],
                false,
            ) == Some(Vec2 { x: read.left_x, y: read.left_y }) && eye_center(g(directions)[1], true)
                == Some(Vec2 { x: read.right_x, y: read.right_y })
        }),
{
    let timestamp = Duration { nanos: timestamp_ns as u128 };
    law_frame_gets_the_centers_of_its_directions(
        state,
        next,
        timestamp,
        project,
        g,
        true,
        timestamp,
    );
    law_encoder_reads_all_four_shifts(lookup(next.center_history@, timestamp));
}

} // verus!
