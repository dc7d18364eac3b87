use gaze_foveation::binary32::Binary32;
use gaze_foveation::center_history::{CenterHistory, CENTER_HISTORY_CAPACITY};
use gaze_foveation::duration::Duration;
use gaze_foveation::foveated_encoding::{
    diagnostic_due, get_eye_tracked_foveation_centers, lerp_direction, rendered_centers, reset,
    select_sample, set_encoder_foveation_centers, update, FilteredGazeState, GazeSource,
};
use gaze_foveation::foveation_metadata;
use gaze_foveation::gaze::{GazeInputSource, GazeSample};
use gaze_foveation::projection::{
    head_local_direction_to_center, head_local_directions_to_centers, project_direction_to_view_uv,
    uv_delta_to_center_shift, EyeProjection, Vec2, Vec3,
};

fn number(value: f32) -> Binary32 {
    Binary32 { bits: value.to_bits() }
}

fn pair(x: f32, y: f32) -> Vec2 {
    Vec2 { x: number(x), y: number(y) }
}

fn vector(x: f32, y: f32, z: f32) -> Vec3 {
    Vec3 { x: number(x), y: number(y), z: number(z) }
}

fn millis(value: u64) -> Duration {
    Duration::from_millis(value)
}

/// A view of 90 degrees each way, and a center that fills half of each axis.
fn project_eye(direction: Vec3) -> EyeProjection {
    let x = f32::from_bits(direction.x.bits);
    let y = f32::from_bits(direction.y.bits);
    let z = f32::from_bits(direction.z.bits);
    let u = (x / -z + 1.0) / 2.0;
    let v = (1.0 - y / -z) / 2.0;
    EyeProjection {
        direction,
        horizontal_span: number(2.0),
        vertical_span: number(2.0),
        uv: pair(u, v),
        movable_fraction: pair(0.5, 0.5),
        scaled_offset: pair((u - 0.5) * 2.0 / 0.5, (v - 0.5) * 2.0 / 0.5),
        mirrored_scaled_offset_x: number(((1.0 - u) - 0.5) * 2.0 / 0.5),
    }
}

fn project(directions: [Vec3; 2]) -> [EyeProjection; 2] {
    [project_eye(directions[0]), project_eye(directions[1])]
}

fn midpoint(previous: Vec3, current: Vec3, _elapsed: Duration) -> Option<Vec3> {
    let mid = |a: Binary32, b: Binary32| {
        number((f32::from_bits(a.bits) + f32::from_bits(b.bits)) / 2.0)
    };
    Some(Vec3 {
        x: mid(previous.x, current.x),
        y: mid(previous.y, current.y),
        z: mid(previous.z, current.z),
    })
}

fn gaze(at: u64, x: f32) -> Option<GazeSample> {
    Some(GazeSample { sample_timestamp: millis(at), directions: [vector(x, 0.0, -1.0); 2] })
}

fn step(state: &mut FilteredGazeState, at: u64, headset: Option<GazeSample>) -> GazeSource {
    update(
        state,
        millis(at),
        None,
        headset,
        GazeInputSource::Headset,
        &midpoint,
        &project,
    )
}

#[test]
fn comparisons_agree_with_floating_point() {
    let values = [
        0.0_f32,
        -0.0,
        1.0,
        -1.0,
        f32::EPSILON,
        -f32::EPSILON,
        1e-45,
        -1e-45,
        f32::MIN_POSITIVE,
        f32::MAX,
        f32::MIN,
        f32::INFINITY,
        f32::NEG_INFINITY,
        f32::NAN,
        -f32::NAN,
        0.1,
        -12345.678,
    ];
    for a in values {
        assert_eq!(number(a).is_nan(), a.is_nan());
        assert_eq!(number(a).is_finite(), a.is_finite());
        for b in values {
            assert_eq!(number(a).is_below(number(b)), a < b, "{} < {}", a, b);
            assert_eq!(number(a).is_at_most(number(b)), a <= b, "{} <= {}", a, b);
        }
    }
}

#[test]
fn durations_saturate() {
    assert_eq!(millis(3).saturating_sub(millis(1)), millis(2));
    assert_eq!(millis(1).saturating_sub(millis(3)), millis(0));
    assert_eq!(millis(1).saturating_add(Duration::from_micros(5)), Duration::from_nanos(1_005_000));
    let longest = Duration { nanos: u128::MAX };
    assert_eq!(longest.saturating_add(millis(1)), longest);
}

#[test]
fn descriptions_name_the_sources() {
    assert_eq!(GazeSource::ExternalUdp.description(), "external UDP gaze");
    assert_eq!(GazeSource::Headset.description(), "headset gaze");
    assert_eq!(GazeSource::Held.description(), "last valid gaze (short hold)");
    assert_eq!(GazeSource::Static.description(), "configured static center");
}

#[test]
fn directions_that_cannot_be_projected_have_no_position() {
    let uv = pair(0.25, 0.75);
    let two = number(2.0);
    let forward = vector(0.0, 0.0, -1.0);
    assert_eq!(project_direction_to_view_uv(forward, two, two, uv), Some(uv));
    for direction in [
        vector(0.0, 0.0, 1.0),
        vector(1.0, 0.0, 0.0),
        vector(0.0, 0.0, -f32::EPSILON),
        vector(f32::NAN, 0.0, -1.0),
        vector(0.0, f32::INFINITY, -1.0),
        vector(0.0, 0.0, f32::NEG_INFINITY),
    ] {
        assert_eq!(project_direction_to_view_uv(direction, two, two, uv), None);
    }
    let just_forward = vector(0.0, 0.0, -1.1 * f32::EPSILON);
    assert_eq!(project_direction_to_view_uv(just_forward, two, two, uv), Some(uv));
    for span in [0.0, -1.0, f32::EPSILON] {
        assert_eq!(project_direction_to_view_uv(forward, number(span), two, uv), None);
        assert_eq!(project_direction_to_view_uv(forward, two, number(span), uv), None);
    }
    let wide = number(2.0 * f32::EPSILON);
    assert_eq!(project_direction_to_view_uv(forward, wide, wide, uv), Some(uv));
    assert_eq!(project_direction_to_view_uv(forward, two, two, pair(f32::NAN, 0.0)), None);
    assert_eq!(project_direction_to_view_uv(forward, two, two, pair(0.0, f32::INFINITY)), None);
}

#[test]
fn a_center_that_fills_an_axis_does_not_move_on_it() {
    let offset = pair(0.5, -0.5);
    assert_eq!(uv_delta_to_center_shift(pair(0.5, 0.5), offset), offset);
    assert_eq!(uv_delta_to_center_shift(pair(0.0, 0.5), offset), pair(0.0, -0.5));
    assert_eq!(uv_delta_to_center_shift(pair(0.5, -1.0), offset), pair(0.5, 0.0));
    assert_eq!(uv_delta_to_center_shift(pair(f32::EPSILON, f32::NAN), offset), pair(0.0, 0.0));
}

#[test]
fn centers_are_mirrored_and_limited() {
    let eye = project_eye(vector(0.25, 0.125, -1.0));
    assert_eq!(head_local_direction_to_center(eye, false), Some(pair(0.5, -0.25)));
    assert_eq!(head_local_direction_to_center(eye, true), Some(pair(-0.5, -0.25)));
    let far = project_eye(vector(3.0, -3.0, -1.0));
    assert_eq!(head_local_direction_to_center(far, false), Some(pair(1.0, 1.0)));
    assert_eq!(head_local_direction_to_center(far, true), Some(pair(-1.0, 1.0)));
    assert_eq!(
        head_local_directions_to_centers([eye, eye]),
        Some([pair(0.5, -0.25), pair(-0.5, -0.25)])
    );
    let behind = project_eye(vector(0.0, 0.0, 1.0));
    assert_eq!(head_local_directions_to_centers([eye, behind]), None);
    assert_eq!(head_local_directions_to_centers([behind, eye]), None);
    let mut odd = eye;
    odd.scaled_offset = pair(f32::NAN, f32::NEG_INFINITY);
    assert_eq!(head_local_direction_to_center(odd, false), Some(pair(-1.0, -1.0)));
}

#[test]
fn history_gives_back_the_latest_centers_of_a_frame() {
    let mut history = CenterHistory::new();
    assert_eq!(history.get(millis(1)), None);
    history.insert(millis(1), [pair(0.1, 0.2); 2]);
    history.insert(millis(2), [pair(0.3, 0.4); 2]);
    assert_eq!(history.get(millis(1)), Some([pair(0.1, 0.2); 2]));
    history.insert(millis(1), [pair(0.5, 0.6); 2]);
    assert_eq!(history.get(millis(1)), Some([pair(0.5, 0.6); 2]));
    assert_eq!(history.get(millis(2)), Some([pair(0.3, 0.4); 2]));
    assert_eq!(history.get(millis(3)), None);
    history.clear();
    assert_eq!(history.get(millis(1)), None);
}

#[test]
fn history_keeps_as_many_frames_as_it_has_room_for() {
    assert_eq!(CENTER_HISTORY_CAPACITY, 360);
    let mut history = CenterHistory::new();
    for frame in 0..360 {
        history.insert(millis(frame), [pair(frame as f32, 0.0); 2]);
    }
    assert_eq!(history.get(millis(0)), Some([pair(0.0, 0.0); 2]));
    history.insert(millis(360), [pair(360.0, 0.0); 2]);
    assert_eq!(history.get(millis(0)), None);
    assert_eq!(history.get(millis(1)), Some([pair(1.0, 0.0); 2]));
    assert_eq!(history.get(millis(360)), Some([pair(360.0, 0.0); 2]));
}

#[test]
fn a_direction_without_a_blend_is_taken_as_it_is() {
    let previous = vector(0.0, 0.0, -1.0);
    let current = vector(1.0, 0.0, 0.0);
    let none = |_: Vec3, _: Vec3, _: Duration| None;
    assert_eq!(lerp_direction(previous, current, millis(5), &none), current);
    assert_eq!(
        lerp_direction(previous, current, millis(5), &midpoint),
        vector(0.5, 0.0, -0.5)
    );
}

#[test]
fn first_sample_is_not_filtered_and_later_ones_are() {
    let mut state = FilteredGazeState::new();
    assert_eq!(step(&mut state, 10, gaze(10, 0.25)), GazeSource::Headset);
    assert_eq!(state.get(millis(10)), Some([pair(0.5, 0.0), pair(-0.5, 0.0)]));
    assert_eq!(step(&mut state, 20, gaze(20, -0.25)), GazeSource::Headset);
    assert_eq!(state.get(millis(20)), Some([pair(0.0, 0.0), pair(0.0, 0.0)]));
    assert_eq!(state.filtered_directions, Some([vector(0.0, 0.0, -1.0); 2]));
    assert_eq!(state.last_filter_timestamp, Some(millis(20)));
    assert_eq!(state.last_valid_sample_timestamp, Some(millis(20)));
}

#[test]
fn the_filter_gets_the_time_between_samples() {
    let mut state = FilteredGazeState::new();
    step(&mut state, 10, gaze(10, 0.25));
    let elapsed_is = |expected: Duration| {
        move |_: Vec3, current: Vec3, elapsed: Duration| {
            assert_eq!(elapsed, expected);
            Some(current)
        }
    };
    let mut at = |sample: u64, expected: u64| {
        update(
            &mut state,
            millis(sample),
            None,
            gaze(sample, 0.25),
            GazeInputSource::Headset,
            &elapsed_is(millis(expected)),
            &project,
        )
    };
    assert_eq!(at(17, 7), GazeSource::Headset);
    assert_eq!(at(3, 0), GazeSource::Headset);
}

#[test]
fn a_new_source_is_not_blended_with_the_old_one() {
    let mut state = FilteredGazeState::new();
    step(&mut state, 10, gaze(10, 0.25));
    let source = update(
        &mut state,
        millis(20),
        gaze(20, -0.25),
        gaze(20, 0.25),
        GazeInputSource::ExternalUdp,
        &midpoint,
        &project,
    );
    assert_eq!(source, GazeSource::ExternalUdp);
    assert_eq!(state.live_source, Some(GazeSource::ExternalUdp));
    assert_eq!(state.get(millis(20)), Some([pair(-0.5, 0.0), pair(0.5, 0.0)]));
}

#[test]
fn gaze_is_held_over_short_gaps_only() {
    let mut state = FilteredGazeState::new();
    assert_eq!(step(&mut state, 5, None), GazeSource::Static);
    step(&mut state, 10, gaze(10, 0.25));
    assert_eq!(step(&mut state, 110, None), GazeSource::Held);
    assert_eq!(state.get(millis(110)), Some([pair(0.5, 0.0), pair(-0.5, 0.0)]));
    assert_eq!(step(&mut state, 111, None), GazeSource::Static);
    assert_eq!(state.get(millis(111)), None);
    assert_eq!(state.live_source, None);
    assert_eq!(state.filtered_directions, None);
    assert_eq!(state.last_filter_timestamp, None);
    assert_eq!(state.last_valid_sample_timestamp, None);
    assert_eq!(step(&mut state, 50, None), GazeSource::Static);
    assert_eq!(state.get(millis(10)), Some([pair(0.5, 0.0), pair(-0.5, 0.0)]));
}

#[test]
fn gaze_that_cannot_be_projected_leaves_the_static_center() {
    let mut state = FilteredGazeState::new();
    let behind = Some(GazeSample {
        sample_timestamp: millis(10),
        directions: [vector(0.0, 0.0, 1.0); 2],
    });
    assert_eq!(step(&mut state, 10, behind), GazeSource::Static);
    assert_eq!(state.get(millis(10)), None);
    assert_eq!(state.live_source, Some(GazeSource::Headset));
}

#[test]
fn unselected_gaze_is_ignored() {
    let mut state = FilteredGazeState::new();
    let mut with = |input: GazeInputSource, external: Option<GazeSample>| {
        update(&mut state, millis(10), external, gaze(10, 0.25), input, &midpoint, &project)
    };
    assert_eq!(with(GazeInputSource::Disabled, gaze(10, 0.25)), GazeSource::Static);
    assert_eq!(with(GazeInputSource::ExternalUdp, None), GazeSource::Static);
    assert_eq!(with(GazeInputSource::Headset, None), GazeSource::Headset);
    assert_eq!(with(GazeInputSource::Disabled, gaze(10, 0.25)), GazeSource::Held);
    let external = gaze(1, 0.5);
    let headset = gaze(2, 0.75);
    assert_eq!(select_sample(GazeInputSource::Disabled, external, headset), None);
    assert_eq!(
        select_sample(GazeInputSource::Headset, external, headset),
        Some((GazeSource::Headset, millis(2), [vector(0.75, 0.0, -1.0); 2]))
    );
    assert_eq!(
        select_sample(GazeInputSource::ExternalUdp, external, headset),
        Some((GazeSource::ExternalUdp, millis(1), [vector(0.5, 0.0, -1.0); 2]))
    );
}

#[test]
fn runs_that_differ_in_unselected_gaze_end_alike() {
    let run = |input: GazeInputSource, external: Option<GazeSample>, headset| {
        let mut state = FilteredGazeState::new();
        step(&mut state, 10, gaze(10, 0.25));
        let source =
            update(&mut state, millis(20), external, headset, input, &midpoint, &project);
        (
            source,
            state.get(millis(20)),
            state.live_source,
            state.filtered_directions,
            state.last_filter_timestamp,
            state.last_valid_sample_timestamp,
        )
    };
    let one = gaze(20, -0.25);
    for other in [None, gaze(15, 0.75)] {
        assert_eq!(
            run(GazeInputSource::Headset, other, one),
            run(GazeInputSource::Headset, one, one)
        );
        assert_eq!(
            run(GazeInputSource::ExternalUdp, one, other),
            run(GazeInputSource::ExternalUdp, one, one)
        );
        assert_eq!(
            run(GazeInputSource::ExternalUdp, None, other),
            run(GazeInputSource::ExternalUdp, None, one)
        );
        assert_eq!(
            run(GazeInputSource::Disabled, other, other),
            run(GazeInputSource::Disabled, one, one)
        );
    }
}

#[test]
fn mirroring_negates_the_horizontal_shift() {
    for x in [0.0, 0.125, -0.375, 0.5, 2.0, -3.0] {
        let eye = project_eye(vector(x, 0.125, -1.0));
        let plain = head_local_direction_to_center(eye, false).unwrap();
        let mirrored = head_local_direction_to_center(eye, true).unwrap();
        assert_eq!(f32::from_bits(mirrored.x.bits), -f32::from_bits(plain.x.bits));
        assert_eq!(mirrored.y, plain.y);
    }
    let mut fixed = project_eye(vector(0.0, 0.125, -1.0));
    fixed.movable_fraction.x = number(0.0);
    fixed.scaled_offset.x = number(f32::NAN);
    fixed.mirrored_scaled_offset_x = number(f32::NAN);
    assert_eq!(head_local_direction_to_center(fixed, false), Some(pair(0.0, -0.25)));
    assert_eq!(head_local_direction_to_center(fixed, true), Some(pair(0.0, -0.25)));
    let mut odd = fixed;
    odd.movable_fraction.x = number(0.5);
    assert_eq!(head_local_direction_to_center(odd, false), Some(pair(-1.0, -0.25)));
    assert_eq!(head_local_direction_to_center(odd, true), Some(pair(-1.0, -0.25)));
}

#[test]
fn the_encoder_reads_centers_by_nanoseconds() {
    let mut state = FilteredGazeState::new();
    step(&mut state, 10, gaze(10, 0.25));
    let known = get_eye_tracked_foveation_centers(&state, 10_000_000);
    assert!(known.valid);
    assert_eq!(known.left_x, number(0.5));
    assert_eq!(known.left_y, number(0.0));
    assert_eq!(known.right_x, number(-0.5));
    assert_eq!(known.right_y, number(0.0));
    let unknown = get_eye_tracked_foveation_centers(&state, 10_000_001);
    assert!(!unknown.valid);
    assert_eq!(unknown.left_x, number(0.0));
    assert_eq!(unknown.right_y, number(0.0));
}

#[test]
fn the_decoder_gets_what_the_encoder_set() {
    let mut rendered = CenterHistory::new();
    set_encoder_foveation_centers(
        &mut rendered,
        42,
        number(0.1),
        number(0.2),
        number(0.3),
        number(0.4),
    );
    let expected = Some([pair(0.1, 0.2), pair(0.3, 0.4)]);
    assert_eq!(rendered_centers(&rendered, Duration::from_nanos(42)), expected);
    assert_eq!(rendered_centers(&rendered, Duration::from_nanos(41)), None);
}

#[test]
fn reset_forgets_everything() {
    let mut state = FilteredGazeState::new();
    let mut rendered = CenterHistory::new();
    let mut last_log = Some(millis(1));
    step(&mut state, 10, gaze(10, 0.25));
    rendered.insert(millis(10), [pair(0.0, 0.0); 2]);
    reset(&mut state, &mut rendered, &mut last_log);
    assert_eq!(state.get(millis(10)), None);
    assert_eq!(state.live_source, None);
    assert_eq!(rendered_centers(&rendered, millis(10)), None);
    assert_eq!(last_log, None);
    assert_eq!(step(&mut state, 11, None), GazeSource::Static);
}

#[test]
fn metadata_alone_keeps_rendered_centers() {
    let mut history = CenterHistory::new();
    foveation_metadata::set_encoder_foveation_centers(
        &mut history,
        42,
        number(0.1),
        number(0.2),
        number(0.3),
        number(0.4),
    );
    let at = Duration::from_nanos(42);
    let expected = Some([pair(0.1, 0.2), pair(0.3, 0.4)]);
    assert_eq!(foveation_metadata::rendered_centers(&history, at), expected);
    foveation_metadata::reset(&mut history);
    assert_eq!(foveation_metadata::rendered_centers(&history, at), None);
}

#[test]
fn diagnostics_are_spaced_and_restart_when_time_goes_back() {
    let mut last_log = None;
    assert!(diagnostic_due(&mut last_log, millis(1_000)));
    assert!(!diagnostic_due(&mut last_log, millis(1_499)));
    assert_eq!(last_log, Some(millis(1_000)));
    assert!(diagnostic_due(&mut last_log, millis(1_500)));
    assert!(diagnostic_due(&mut last_log, millis(200)));
    assert_eq!(last_log, Some(millis(200)));
}
