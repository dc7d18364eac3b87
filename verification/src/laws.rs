//! What the operations do, call by call.
//!
//! Each law speaks of what a call can give and how it leaves the values that it was lent, in terms
//! of their fields, of bit patterns, of bytes and of nanoseconds. Where arithmetic
//! is handed in, `f` or `g` says what it gives.

use crate::binary32::{law_order_by_pattern, Binary32};
use crate::center_history::{
    law_insert_adds_one_entry, law_insert_then_get, law_lookup_gives_most_recent, CenterHistory,
};
use crate::duration::Duration;
use crate::external_gaze::{
    accept_direction, clear_sample, decode_direction, decode_packet, decodes_to, latest_sample,
    law_accepted_direction_is_the_normalized_one, law_sample_comes_from_the_bytes,
    law_unnamed_directions_never_matter, measures_once, raw_direction, read_f32, read_u32,
    receiver_loop, receiver_not_spawned, sequence_is_newer, start_receiver, stop_receiver,
    DecodedSample, MeasuredDirection, PacketFilter, PacketOutcome, ReceivedSample, Receiver,
    ReceiverAction, ReceiverEvent, StopPhase, PACKET_SIZE,
};
use crate::foveated_encoding::{
    diagnostic_due, get_eye_tracked_foveation_centers, law_each_eye_moves_towards_its_sample,
    law_filtering_goes_from_previous_to_current, law_frame_gets_the_centers_of_its_directions,
    law_report_tells_where_gaze_came_from, lerp_direction, rendered_centers, reset, select_sample,
    set_encoder_foveation_centers, update, FilteredGazeState, FoveationCenters, GazeSource,
    LiveSample,
};
use crate::foveation_metadata;
use crate::gaze::{GazeInputSource, GazeSample};
use crate::projection::{
    both_centers, eye_center, head_local_direction_to_center, head_local_directions_to_centers,
    law_axis_shift_by_pattern, law_center_moves_by_offset, law_each_eye_has_its_own_center,
    law_projectable_gaze, project_direction_to_view_uv, uv_delta_to_center_shift, EyeProjection,
    Vec2, Vec3,
};
use vstd::prelude::*;

verus! {

/// A receiver that was just made does not run and has no sample, and a filter that was just made
/// has seen no packet.
pub proof fn law_receiver_begins_with_nothing(receiver: Receiver, filter: PacketFilter)
    requires
        call_ensures(Receiver::new, (), receiver),
        call_ensures(PacketFilter::new, (), filter),
    ensures
        !receiver.running,
        receiver.latest is None,
        filter.last_sequence is None,
        filter.last_accepted_at is None,
        filter.last_malformed_log is None,
{
}

/// The receiver starts unless it runs, with no sample of an earlier run; a call while it runs
/// changes nothing.
pub proof fn law_receiver_starts_once()
    ensures
        forall|receiver: &mut Receiver, spawn: bool| #[trigger]
            call_ensures(start_receiver, (receiver,), spawn) ==> {
                &&& receiver.running ==> !spawn && *final(receiver) == *receiver
                &&& !receiver.running ==> spawn && final(receiver).running
                &&& !receiver.running ==> final(receiver).latest is None
            },
        forall|receiver: &mut Receiver| #[trigger]
            call_ensures(receiver_not_spawned, (receiver,), ()) ==> !final(receiver).running
                && final(receiver).latest == receiver.latest,
{
}

/// A stop tells the thread to end and keeps the sample; when the thread has ended the sample goes.
pub proof fn law_receiver_stops_in_two_phases()
    ensures
        forall|receiver: &mut Receiver, phase: StopPhase| #[trigger]
            call_ensures(stop_receiver, (receiver, phase), ()) ==> {
                &&& phase is Requested ==> !final(receiver).running && final(receiver).latest
                    == receiver.latest
                &&& phase is Joined ==> final(receiver).latest is None && final(receiver).running
                    == receiver.running
            },
        forall|latest: &mut Option<ReceivedSample>| #[trigger]
            call_ensures(clear_sample, (latest,), ()) ==> *final(latest) is None,
{
}

/// Numbers are read least significant byte first, exactly where all four bytes are there.
pub proof fn law_numbers_are_read_little_endian(
    packet: &[u8],
    offset: usize,
    number: Option<u32>,
    float: Option<Binary32>,
)
    requires
        call_ensures(read_u32, (packet, offset), number),
        call_ensures(read_f32, (packet, offset), float),
    ensures
        number is Some <==> offset + 4 <= packet@.len(),
        float is Some <==> offset + 4 <= packet@.len(),
        number matches Some(value) ==> value == packet@[offset as int] + 0x100 * packet@[offset + 1]
            + 0x1_0000 * packet@[offset + 2] + 0x100_0000 * packet@[offset + 3],
        number matches Some(value) ==> float == Some(Binary32 { bits: value }),
{
}

/// A direction counts where its squared length is within the tolerance of one, and is then the
/// normalized direction, unchanged.
pub proof fn law_direction_counts_as_it_was_normalized(
    measured: MeasuredDirection,
    accepted: Option<Vec3>,
)
    requires
        call_ensures(accept_direction, (measured,), accepted),
    ensures
        0x3f7a_e148 <= measured.length_squared.bits <= 0x3f82_8f5c ==> accepted
            == measured.normalized,
        !(0x3f7a_e148 <= measured.length_squared.bits <= 0x3f82_8f5c) ==> accepted is None,
{
    law_accepted_direction_is_the_normalized_one(measured);
}

/// A direction is read from its own twelve bytes and measured as read.
pub proof fn law_direction_is_read_from_its_bytes<M: Fn(Vec3) -> MeasuredDirection>(
    packet: &[u8],
    index: usize,
    measure: &M,
    f: spec_fn(Vec3) -> MeasuredDirection,
    accepted: Option<Vec3>,
)
    requires
        call_ensures(decode_direction::<M>, (packet, index, measure), accepted),
        forall|direction: Vec3, measured: MeasuredDirection| #[trigger]
            call_ensures(*measure, (direction,), measured) ==> measured == f(direction),
    ensures
        ({
            let start = 16 + 12 * index;
            let word = |i: int|
                packet@[i] + 0x100 * packet@[i + 1] + 0x1_0000 * packet@[i + 2] + 0x100_0000
                    * packet@[i + 3];
            let measured = f(
                Vec3 {
                    x: Binary32 { bits: word(start) as u32 },
                    y: Binary32 { bits: word(start + 4) as u32 },
                    z: Binary32 { bits: word(start + 8) as u32 },
                },
            );
            accepted == (if start + 12 <= packet@.len() && 0x3f7a_e148
                <= measured.length_squared.bits <= 0x3f82_8f5c {
                measured.normalized
            } else {
                None
            })
        }),
{
    let direction = raw_direction(packet@, index as int);
    law_accepted_direction_is_the_normalized_one(f(direction));
}

/// A packet decodes to what its bytes say.
pub proof fn law_packet_decodes_to_what_its_bytes_say<M: Fn(Vec3) -> MeasuredDirection>(
    packet: &[u8],
    measure: &M,
    f: spec_fn(Vec3) -> MeasuredDirection,
    sample: Option<DecodedSample>,
)
    requires
        call_ensures(decode_packet::<M>, (packet, measure), sample),
        forall|direction: Vec3, measured: MeasuredDirection| #[trigger]
            call_ensures(*measure, (direction,), measured) ==> measured == f(direction),
    ensures
        ({
            let p = packet@;
            let word = |i: int|
                p[i] + 0x100 * p[i + 1] + 0x1_0000 * p[i + 2] + 0x100_0000 * p[i + 3];
            let vector = |i: int|
                Vec3 {
                    x: Binary32 { bits: word(i) as u32 },
                    y: Binary32 { bits: word(i + 4) as u32 },
                    z: Binary32 { bits: word(i + 8) as u32 },
                };
            let left = f(
                if p[6] == 2 {
                    vector(28)
                } else {
                    vector(16)
                },
            );
            let right = f(
                if p[6] == 1 {
                    vector(16)
                } else {
                    vector(28)
                },
            );
            let counts = |m: MeasuredDirection|
                m.normalized is Some && 0x3f7a_e148 <= m.length_squared.bits <= 0x3f82_8f5c;
            &&& sample is Some <==> {
                &&& p.len() == 40
                &&& p[0] == 0x41 && p[1] == 0x47 && p[2] == 0x41 && p[3] == 0x5a
                &&& p[4] == 1
                &&& (p[5] == 0 && p[6] == 1) || (p[5] == 1 && 1 <= p[6] <= 3)
                &&& p[7] == 0
                &&& word(12) <= 100_000
                &&& counts(left)
                &&& counts(right)
            }
            &&& sample matches Some(decoded) ==> {
                &&& decoded.sequence == word(8)
                &&& decoded.source_age.nanos == 1_000 * word(12)
                &&& left.normalized == Some(decoded.directions[0])
                &&& right.normalized == Some(decoded.directions[1])
            }
        }),
{
    law_sample_comes_from_the_bytes(packet@, *measure, f, sample);
}

/// A sequence number is newer exactly if it is ahead, going around, by less than half the way.
pub proof fn law_newer_means_ahead(sequence: u32, previous: u32, steps: int, is_newer: bool)
    requires
        call_ensures(sequence_is_newer, (sequence, previous), is_newer),
        0 <= steps < 0x1_0000_0000,
        sequence == previous + steps || sequence == previous + steps - 0x1_0000_0000,
    ensures
        is_newer <==> 1 <= steps <= 0x7fff_ffff,
{
}

/// What becomes of a decoded sample: it is accepted where none was before, where the last one is
/// more than 100 milliseconds ago, and where it is ahead; it is then the latest, and is remembered
/// with its time. Any other is refused and changes nothing.
pub proof fn law_decoded_samples_are_taken_in_order(
    sample: DecodedSample,
    now: Duration,
    steps: int,
    is_first: bool,
)
    requires
        0 <= steps < 0x1_0000_0000,
    ensures
        forall|
            filter: &mut PacketFilter,
            latest: &mut Option<ReceivedSample>,
            outcome: PacketOutcome,
        | #[trigger]
            call_ensures(
                PacketFilter::receive_sample,
                (filter, latest, Some(sample), now),
                outcome,
            ) && (match filter.last_sequence {
                Some(previous) => !is_first && (sample.sequence == previous + steps
                    || sample.sequence == previous + steps - 0x1_0000_0000),
                None => is_first,
            }) ==> {
                let accept = is_first || 1 <= steps <= 0x7fff_ffff || match filter.last_accepted_at {
                    Some(last) => now.nanos > last.nanos + 100_000_000,
                    None => true,
                };
                &&& accept ==> {
                    &&& outcome == PacketOutcome::Accepted
                    &&& final(filter).last_sequence == Some(sample.sequence)
                    &&& final(filter).last_accepted_at == Some(now)
                    &&& final(filter).last_malformed_log == filter.last_malformed_log
                    &&& *final(latest) matches Some(received) && received.directions
                        == sample.directions && received.source_age == sample.source_age
                        && received.received_at == now
                }
                &&& !accept ==> {
                    &&& outcome == PacketOutcome::OutOfOrder
                    &&& *final(filter) == *filter
                    &&& *final(latest) == *latest
                }
            },
{
}

/// What becomes of a packet that did not decode: a warning is due where there was none for a
/// second, and nothing else is changed.
pub proof fn law_undecoded_packets_change_no_sample(now: Duration)
    ensures
        forall|
            filter: &mut PacketFilter,
            latest: &mut Option<ReceivedSample>,
            outcome: PacketOutcome,
        | #[trigger]
            call_ensures(PacketFilter::receive_sample, (filter, latest, None, now), outcome) ==> {
                let due = match filter.last_malformed_log {
                    Some(last) => now.nanos >= last.nanos + 1_000_000_000,
                    None => true,
                };
                &&& outcome == (PacketOutcome::Malformed { warn: due })
                &&& final(filter).last_malformed_log == (if due {
                    Some(now)
                } else {
                    filter.last_malformed_log
                })
                &&& final(filter).last_sequence == filter.last_sequence
                &&& final(filter).last_accepted_at == filter.last_accepted_at
                &&& *final(latest) == *latest
            },
{
}

/// The latest sample is handed out up to an age of 100 milliseconds, with its own directions and
/// dated back by its age.
pub proof fn law_latest_sample_is_dated_back(
    latest: &Option<ReceivedSample>,
    waited: nat,
    now: Duration,
    reference_timestamp: Duration,
    found: Option<GazeSample>,
)
    requires
        call_ensures(latest_sample, (latest, now, reference_timestamp), found),
        *latest matches Some(received) ==> now.nanos == received.received_at.nanos + waited || (
        waited == 0 && now.nanos < received.received_at.nanos),
    ensures
        found is Some <==> (*latest matches Some(received) && received.source_age.nanos + waited
            <= 100_000_000),
        found matches Some(sample) ==> {
            let received = latest->0;
            let age = received.source_age.nanos + waited;
            &&& sample.directions == received.directions
            &&& age <= reference_timestamp.nanos ==> sample.sample_timestamp.nanos + age
                == reference_timestamp.nanos
            &&& age > reference_timestamp.nanos ==> sample.sample_timestamp.nanos == 0
        },
{
}

/// A packet is taken in as what it decodes to: a sample is accepted, and is then the latest, where
/// none was before, where the last one is more than 100 milliseconds ago, and where it is ahead; a
/// packet that does not decode is warned of where there was no warning for a second.
pub proof fn law_packets_are_taken_as_decoded<M: Fn(Vec3) -> MeasuredDirection>(
    packet: &[u8],
    measure: &M,
    sample: Option<DecodedSample>,
    now: Duration,
    steps: int,
    is_first: bool,
)
    requires
        decodes_to(packet@, *measure, sample),
        measures_once(*measure),
        0 <= steps < 0x1_0000_0000,
    ensures
        forall|
            filter: &mut PacketFilter,
            latest: &mut Option<ReceivedSample>,
            outcome: PacketOutcome,
        | #[trigger]
            call_ensures(
                PacketFilter::receive_packet::<M>,
                (filter, latest, packet, now, measure),
                outcome,
            ) && (sample matches Some(decoded) ==> match filter.last_sequence {
                Some(previous) => !is_first && (decoded.sequence == previous + steps
                    || decoded.sequence == previous + steps - 0x1_0000_0000),
                None => is_first,
            }) ==> {
                let accept = sample is Some && (is_first || 1 <= steps <= 0x7fff_ffff
                    || match filter.last_accepted_at {
                    Some(last) => now.nanos > last.nanos + 100_000_000,
                    None => true,
                });
                let warn = sample is None && match filter.last_malformed_log {
                    Some(last) => now.nanos >= last.nanos + 1_000_000_000,
                    None => true,
                };
                &&& outcome is Accepted <==> accept
                &&& outcome is OutOfOrder <==> sample is Some && !accept
                &&& sample is None ==> outcome == (PacketOutcome::Malformed { warn })
                &&& accept ==> {
                    &&& final(filter).last_sequence == Some(sample->0.sequence)
                    &&& final(filter).last_accepted_at == Some(now)
                    &&& *final(latest) matches Some(received) && received.directions
                        == sample->0.directions && received.source_age == sample->0.source_age
                        && received.received_at == now
                }
                &&& !accept ==> {
                    &&& final(filter).last_sequence == filter.last_sequence
                    &&& final(filter).last_accepted_at == filter.last_accepted_at
                    &&& *final(latest) == *latest
                }
                &&& final(filter).last_malformed_log == (if warn {
                    Some(now)
                } else {
                    filter.last_malformed_log
                })
            },
{
    assert forall|other: Option<DecodedSample>| #[trigger]
        decodes_to(packet@, *measure, other) implies other == sample by {
        if packet@.len() == PACKET_SIZE {
            law_unnamed_directions_never_matter(packet@, packet@, *measure, other, sample);
        }
    }
}

/// A step of the receiver: a packet is taken in as what it decodes to, a failure ends the receiver,
/// and nothing else changes anything. It goes on as long as it is to run.
pub proof fn law_receiver_steps<M: Fn(Vec3) -> MeasuredDirection>(
    packet: &[u8],
    now: Duration,
    measure: &M,
    sample: Option<DecodedSample>,
    steps: int,
    is_first: bool,
)
    requires
        decodes_to(packet@, *measure, sample),
        measures_once(*measure),
        0 <= steps < 0x1_0000_0000,
    ensures
        forall|
            receiver: &mut Receiver,
            filter: &mut PacketFilter,
            event: ReceiverEvent,
            action: ReceiverAction,
        | #[trigger]
            call_ensures(receiver_loop::<M>, (receiver, filter, event, measure), action) ==> {
                &&& action.receive_again <==> final(receiver).running
                &&& event is BindFailed || event is ConfigureFailed || event is ReceiveFailed
                    ==> !final(receiver).running
                &&& event is Listening || event is NoPacket || event is Packet ==> final(
                    receiver).running == receiver.running
                &&& event !is Packet ==> {
                    &&& *final(filter) == *filter
                    &&& final(receiver).latest == receiver.latest
                    &&& !action.warn_malformed
                }
            },
        forall|receiver: &mut Receiver, filter: &mut PacketFilter, action: ReceiverAction| #[trigger]
            call_ensures(
                receiver_loop::<M>,
                (receiver, filter, ReceiverEvent::Packet { bytes: packet, now }, measure),
                action,
            ) && (sample matches Some(decoded) ==> match filter.last_sequence {
                Some(previous) => !is_first && (decoded.sequence == previous + steps
                    || decoded.sequence == previous + steps - 0x1_0000_0000),
                None => is_first,
            }) ==> {
                let accept = sample is Some && (is_first || 1 <= steps <= 0x7fff_ffff
                    || match filter.last_accepted_at {
                    Some(last) => now.nanos > last.nanos + 100_000_000,
                    None => true,
                });
                let warn = sample is None && match filter.last_malformed_log {
                    Some(last) => now.nanos >= last.nanos + 1_000_000_000,
                    None => true,
                };
                &&& action.warn_malformed <==> warn
                &&& accept ==> {
                    &&& final(filter).last_sequence == Some(sample->0.sequence)
                    &&& final(filter).last_accepted_at == Some(now)
                    &&& final(receiver).latest matches Some(received) && received.directions
                        == sample->0.directions && received.source_age == sample->0.source_age
                        && received.received_at == now
                }
                &&& !accept ==> {
                    &&& final(filter).last_sequence == filter.last_sequence
                    &&& final(filter).last_accepted_at == filter.last_accepted_at
                    &&& final(receiver).latest == receiver.latest
                }
                &&& final(filter).last_malformed_log == (if warn {
                    Some(now)
                } else {
                    filter.last_malformed_log
                })
            },
{
    assert forall|other: Option<DecodedSample>| #[trigger]
        decodes_to(packet@, *measure, other) implies other == sample by {
        if packet@.len() == PACKET_SIZE {
            law_unnamed_directions_never_matter(packet@, packet@, *measure, other, sample);
        }
    }
}

/// A history that was just made or cleared is empty; an insertion puts one entry last and keeps the
/// last 360; a lookup finds the last entry of its timestamp.
pub proof fn law_history_keeps_the_last_entries(
    timestamp: Duration,
    centers: [Vec2; 2],
    read: &CenterHistory,
    found: Option<[Vec2; 2]>,
)
    requires
        call_ensures(CenterHistory::get, (read, timestamp), found),
    ensures
        forall|made: CenterHistory| #[trigger]
            call_ensures(CenterHistory::new, (), made) ==> made@.len() == 0,
        forall|history: &mut CenterHistory| #[trigger]
            call_ensures(CenterHistory::clear, (history,), ()) ==> final(history)@.len() == 0,
        forall|history: &mut CenterHistory| #[trigger]
            call_ensures(CenterHistory::insert, (history, timestamp, centers), ()) ==> {
                let before = history@;
                let now = final(history)@;
                &&& now.len() == (if before.len() < 360 {
                    before.len() + 1
                } else {
                    360
                })
                &&& now[now.len() - 1] == (timestamp, centers)
                &&& forall|i: int|
                    0 <= i < now.len() - 1 ==> #[trigger] now[i] == before[before.len() + 1
                        - now.len() + i]
            },
        match found {
            Some(known) => exists|i: int|
                #![trigger read@[i]]
                0 <= i < read@.len() && read@[i] == (timestamp, known) && forall|j: int|
                    i < j < read@.len() ==> (#[trigger] read@[j]).0 != timestamp,
            None => forall|i: int| 0 <= i < read@.len() ==> (#[trigger] read@[i]).0 != timestamp,
        },
{
    law_lookup_gives_most_recent(read@, timestamp);
    assert forall|history: &mut CenterHistory| #[trigger]
        call_ensures(CenterHistory::insert, (history, timestamp, centers), ()) implies {
        let before = history@;
        let now = final(history)@;
        &&& now.len() == (if before.len() < 360 {
            before.len() + 1
        } else {
            360
        })
        &&& now[now.len() - 1] == (timestamp, centers)
        &&& forall|i: int|
            0 <= i < now.len() - 1 ==> #[trigger] now[i] == before[before.len() + 1 - now.len() + i]
    } by {
        law_insert_adds_one_entry(history@, timestamp, centers);
    }
}

/// The decoder is told of a frame what the encoder reported for it, all four shifts in their
/// places; the reports of other frames stay, up to 360 in all. So it is with gaze tracking and
/// without.
pub proof fn law_decoder_is_told_what_the_encoder_reported(
    timestamp_ns: u64,
    left_x: Binary32,
    left_y: Binary32,
    right_x: Binary32,
    right_y: Binary32,
    next: &CenterHistory,
    timestamp: Duration,
    found: Option<[Vec2; 2]>,
)
    requires
        timestamp.nanos == timestamp_ns,
        call_ensures(rendered_centers, (next, timestamp), found)
            || call_ensures(foveation_metadata::rendered_centers, (next, timestamp), found),
    ensures
        forall|rendered: &mut CenterHistory|
            (call_ensures(
                set_encoder_foveation_centers,
                (rendered, timestamp_ns, left_x, left_y, right_x, right_y),
                (),
            ) || call_ensures(
                foveation_metadata::set_encoder_foveation_centers,
                (rendered, timestamp_ns, left_x, left_y, right_x, right_y),
                (),
            )) && #[trigger] final(rendered)@ == next@ ==> {
                &&& found matches Some(centers) && centers[0].x == left_x && centers[0].y == left_y
                    && centers[1].x == right_x && centers[1].y == right_y
                &&& next@.len() == (if rendered@.len() < 360 {
                    rendered@.len() + 1
                } else {
                    360
                })
                &&& forall|i: int|
                    0 <= i < next@.len() - 1 ==> #[trigger] next@[i] == rendered@[rendered@.len()
                        + 1 - next@.len() + i]
            },
{
    let centers = [Vec2 { x: left_x, y: left_y }, Vec2 { x: right_x, y: right_y }];
    assert forall|rendered: &mut CenterHistory|
        (call_ensures(
            set_encoder_foveation_centers,
            (rendered, timestamp_ns, left_x, left_y, right_x, right_y),
            (),
        ) || call_ensures(
            foveation_metadata::set_encoder_foveation_centers,
            (rendered, timestamp_ns, left_x, left_y, right_x, right_y),
            (),
        )) && #[trigger] final(rendered)@ == next@ implies {
        &&& found matches Some(centers) && centers[0].x == left_x && centers[0].y == left_y
            && centers[1].x == right_x && centers[1].y == right_y
        &&& next@.len() == (if rendered@.len() < 360 {
            rendered@.len() + 1
        } else {
            360
        })
        &&& forall|i: int|
            0 <= i < next@.len() - 1 ==> #[trigger] next@[i] == rendered@[rendered@.len() + 1
                - next@.len() + i]
    } by {
        law_insert_then_get(rendered@, timestamp, centers);
        law_insert_adds_one_entry(rendered@, timestamp, centers);
        assert(timestamp == (Duration { nanos: timestamp_ns as u128 }));
    }
}

/// The gaze of a source that is followed moves each eye from where the filter was towards its own
/// direction in the sample, over the time between the samples.
pub proof fn law_update_moves_each_eye_towards_its_sample<
    B: Fn(Vec3, Vec3, Duration) -> Option<Vec3>,
    P: Fn([Vec3; 2]) -> [EyeProjection; 2],
>(
    frame_timestamp: Duration,
    source: GazeSource,
    sample_timestamp: Duration,
    raw: [Vec3; 2],
    previous: [Vec3; 2],
    previous_timestamp: Duration,
    elapsed: Duration,
    blend: &B,
    project: &P,
    f: spec_fn(Vec3, Vec3, Duration) -> Option<Vec3>,
    eye: int,
)
    requires
        forall|from: Vec3, to: Vec3, time: Duration, blended: Option<Vec3>| #[trigger]
            call_ensures(*blend, (from, to, time), blended) ==> blended == f(from, to, time),
        sample_timestamp.nanos == previous_timestamp.nanos + elapsed.nanos || (elapsed.nanos == 0
            && sample_timestamp.nanos < previous_timestamp.nanos),
        eye == 0 || eye == 1,
    ensures
        forall|state: &mut FilteredGazeState, has_centers: bool| #[trigger]
            call_ensures(
                FilteredGazeState::update::<B, P>,
                (state, frame_timestamp, Some((source, sample_timestamp, raw)), blend, project),
                has_centers,
            ) && state.live_source == Some(source) && state.filtered_directions == Some(previous)
                && state.last_filter_timestamp == Some(previous_timestamp) ==> {
                &&& final(state).live_source == Some(source)
                &&& final(state).last_filter_timestamp == Some(sample_timestamp)
                &&& final(state).last_valid_sample_timestamp == Some(sample_timestamp)
                &&& final(state).filtered_directions matches Some(filtered) && match f(
                    previous[eye],
                    raw[eye],
                    elapsed,
                ) {
                    Some(direction) => filtered[eye] == direction,
                    None => filtered[eye] == raw[eye],
                }
            },
{
    assert forall|state: &mut FilteredGazeState, has_centers: bool| #[trigger]
        call_ensures(
            FilteredGazeState::update::<B, P>,
            (state, frame_timestamp, Some((source, sample_timestamp, raw)), blend, project),
            has_centers,
        ) && state.live_source == Some(source) && state.filtered_directions == Some(previous)
            && state.last_filter_timestamp == Some(previous_timestamp) implies {
        &&& final(state).live_source == Some(source)
        &&& final(state).last_filter_timestamp == Some(sample_timestamp)
        &&& final(state).last_valid_sample_timestamp == Some(sample_timestamp)
        &&& final(state).filtered_directions matches Some(filtered) && match f(
            previous[eye],
            raw[eye],
            elapsed,
        ) {
            Some(direction) => filtered[eye] == direction,
            None => filtered[eye] == raw[eye],
        }
    } by {
        law_each_eye_moves_towards_its_sample(
            *state,
            *final(state),
            frame_timestamp,
            source,
            sample_timestamp,
            raw,
            previous,
            previous_timestamp,
            *blend,
            f,
            elapsed,
            eye,
        );
    }
}

/// Other gaze starts the filter anew; without gaze it is held for 100 milliseconds after the last
/// sample and then forgotten.
pub proof fn law_update_starts_holds_and_forgets<
    B: Fn(Vec3, Vec3, Duration) -> Option<Vec3>,
    P: Fn([Vec3; 2]) -> [EyeProjection; 2],
>(
    frame_timestamp: Duration,
    source: GazeSource,
    sample_timestamp: Duration,
    raw: [Vec3; 2],
    blend: &B,
    project: &P,
)
    ensures
        forall|state: &mut FilteredGazeState, has_centers: bool| #[trigger]
            call_ensures(
                FilteredGazeState::update::<B, P>,
                (state, frame_timestamp, Some((source, sample_timestamp, raw)), blend, project),
                has_centers,
            ) && (state.live_source != Some(source) || state.filtered_directions is None
                || state.last_filter_timestamp is None) ==> {
                &&& final(state).live_source == Some(source)
                &&& final(state).filtered_directions == Some(raw)
                &&& final(state).last_filter_timestamp == Some(sample_timestamp)
                &&& final(state).last_valid_sample_timestamp == Some(sample_timestamp)
            },
        forall|state: &mut FilteredGazeState, has_centers: bool| #[trigger]
            call_ensures(
                FilteredGazeState::update::<B, P>,
                (state, frame_timestamp, None, blend, project),
                has_centers,
            ) ==> {
                let held = state.last_valid_sample_timestamp matches Some(last)
                    && frame_timestamp.nanos <= last.nanos + 100_000_000;
                &&& held ==> {
                    &&& final(state).live_source == state.live_source
                    &&& final(state).filtered_directions == state.filtered_directions
                    &&& final(state).last_filter_timestamp == state.last_filter_timestamp
                    &&& final(state).last_valid_sample_timestamp
                        == state.last_valid_sample_timestamp
                }
                &&& !held ==> {
                    &&& final(state).live_source is None
                    &&& final(state).filtered_directions is None
                    &&& final(state).last_filter_timestamp is None
                    &&& final(state).last_valid_sample_timestamp is None
                    &&& !has_centers
                }
            },
{
}

/// A frame has centers where the filter follows directions and both eyes can be projected. They are
/// then found under its timestamp, the left eye's first; else the history is as it was.
pub proof fn law_update_records_the_centers_of_the_frame<
    B: Fn(Vec3, Vec3, Duration) -> Option<Vec3>,
    P: Fn([Vec3; 2]) -> [EyeProjection; 2],
>(
    frame_timestamp: Duration,
    sample: Option<LiveSample>,
    blend: &B,
    project: &P,
    g: spec_fn([Vec3; 2]) -> [EyeProjection; 2],
    next: &FilteredGazeState,
    found: Option<[Vec2; 2]>,
)
    requires
        forall|directions: [Vec3; 2], eyes: [EyeProjection; 2]| #[trigger]
            call_ensures(*project, (directions,), eyes) ==> eyes == g(directions),
        call_ensures(FilteredGazeState::get, (next, frame_timestamp), found),
    ensures
        forall|state: &mut FilteredGazeState, has_centers: bool| #[trigger]
            call_ensures(
                FilteredGazeState::update::<B, P>,
                (state, frame_timestamp, sample, blend, project),
                has_centers,
            ) && *final(state) == *next ==> {
                &&& next.filtered_directions is None ==> !has_centers
                &&& next.filtered_directions matches Some(directions) ==> {
                    let left = eye_center(g(directions)[0], false);
                    let right = eye_center(g(directions)[1], true);
                    &&& has_centers <==> left is Some && right is Some
                    &&& has_centers ==> (found matches Some(centers) && left == Some(centers[0])
                        && right == Some(centers[1]))
                }
                &&& !has_centers ==> next.center_history@ == state.center_history@
                &&& has_centers ==> {
                    let before = state.center_history@;
                    let now = next.center_history@;
                    &&& now.len() == (if before.len() < 360 {
                        before.len() + 1
                    } else {
                        360
                    })
                    &&& forall|i: int|
                        0 <= i < now.len() - 1 ==> #[trigger] now[i] == before[before.len() + 1
                            - now.len() + i]
                }
            },
{
    assert forall|state: &mut FilteredGazeState, has_centers: bool| #[trigger]
        call_ensures(
            FilteredGazeState::update::<B, P>,
            (state, frame_timestamp, sample, blend, project),
            has_centers,
        ) && *final(state) == *next implies {
        &&& next.filtered_directions is None ==> !has_centers
        &&& next.filtered_directions matches Some(directions) ==> {
            let left = eye_center(g(directions)[0], false);
            let right = eye_center(g(directions)[1], true);
            &&& has_centers <==> left is Some && right is Some
            &&& has_centers ==> (found matches Some(centers) && left == Some(centers[0]) && right
                == Some(centers[1]))
        }
        &&& !has_centers ==> next.center_history@ == state.center_history@
        &&& has_centers ==> {
            let before = state.center_history@;
            let now = next.center_history@;
            &&& now.len() == (if before.len() < 360 {
                before.len() + 1
            } else {
                360
            })
            &&& forall|i: int|
                0 <= i < now.len() - 1 ==> #[trigger] now[i] == before[before.len() + 1 - now.len()
                    + i]
        }
    } by {
        law_frame_gets_the_centers_of_its_directions(
            *state,
            *next,
            frame_timestamp,
            *project,
            g,
            has_centers,
            frame_timestamp,
        );
        if has_centers {
            let eyes = g(next.filtered_directions->0);
            law_each_eye_has_its_own_center(eyes[0], eyes[1]);
            law_insert_adds_one_entry(
                state.center_history@,
                frame_timestamp,
                both_centers(eyes[0], eyes[1])->0,
            );
        }
    }
}

/// The selected source alone is used, and what is reported tells where the gaze of the frame came
/// from.
pub proof fn law_update_reports_the_source<
    B: Fn(Vec3, Vec3, Duration) -> Option<Vec3>,
    P: Fn([Vec3; 2]) -> [EyeProjection; 2],
>(
    timestamp: Duration,
    external_gaze: Option<GazeSample>,
    headset_gaze: Option<GazeSample>,
    input: GazeInputSource,
    blend: &B,
    project: &P,
    g: spec_fn([Vec3; 2]) -> [EyeProjection; 2],
    selected: Option<LiveSample>,
)
    requires
        forall|directions: [Vec3; 2], eyes: [EyeProjection; 2]| #[trigger]
            call_ensures(*project, (directions,), eyes) ==> eyes == g(directions),
        call_ensures(select_sample, (input, external_gaze, headset_gaze), selected),
    ensures
        input is Disabled ==> selected is None,
        input is Headset ==> match headset_gaze {
            Some(gaze) => selected == Some(
                (GazeSource::Headset, gaze.sample_timestamp, gaze.directions),
            ),
            None => selected is None,
        },
        input is ExternalUdp ==> match external_gaze {
            Some(gaze) => selected == Some(
                (GazeSource::ExternalUdp, gaze.sample_timestamp, gaze.directions),
            ),
            None => selected is None,
        },
        forall|state: &mut FilteredGazeState, reported: GazeSource| #[trigger]
            call_ensures(
                update::<B, P>,
                (state, timestamp, external_gaze, headset_gaze, input, blend, project),
                reported,
            ) ==> {
                let has_centers = final(state).filtered_directions matches Some(directions)
                    && eye_center(g(directions)[0], false) is Some && eye_center(
                    g(directions)[1],
                    true,
                ) is Some;
                &&& reported is Static <==> !has_centers
                &&& reported is Headset <==> has_centers && input is Headset && headset_gaze is Some
                &&& reported is ExternalUdp <==> has_centers && input is ExternalUdp
                    && external_gaze is Some
                &&& reported is Held <==> has_centers && selected is None
                &&& state.tracks(*final(state), timestamp, selected, *blend)
                &&& state.records(*final(state), timestamp, *project, has_centers)
            },
{
    assert forall|state: &mut FilteredGazeState, reported: GazeSource| #[trigger]
        call_ensures(
            update::<B, P>,
            (state, timestamp, external_gaze, headset_gaze, input, blend, project),
            reported,
        ) implies {
        let has_centers = final(state).filtered_directions matches Some(directions) && eye_center(
            g(directions)[0],
            false,
        ) is Some && eye_center(g(directions)[1], true) is Some;
        &&& reported is Static <==> !has_centers
        &&& reported is Headset <==> has_centers && input is Headset && headset_gaze is Some
        &&& reported is ExternalUdp <==> has_centers && input is ExternalUdp && external_gaze is Some
        &&& reported is Held <==> has_centers && selected is None
        &&& state.tracks(*final(state), timestamp, selected, *blend)
        &&& state.records(*final(state), timestamp, *project, has_centers)
    } by {
        law_report_tells_where_gaze_came_from(
            *state,
            *final(state),
            timestamp,
            input,
            external_gaze,
            headset_gaze,
            *blend,
            *project,
            g,
            reported,
        );
    }
}

/// A filter that was just made, cleared or reset knows nothing, and neither does a history that was
/// reset.
pub proof fn law_reset_leaves_nothing()
    ensures
        forall|made: FilteredGazeState| #[trigger]
            call_ensures(FilteredGazeState::new, (), made) ==> made.live_source is None
                && made.filtered_directions is None && made.last_filter_timestamp is None
                && made.last_valid_sample_timestamp is None && made.center_history@.len() == 0,
        forall|state: &mut FilteredGazeState| #[trigger]
            call_ensures(FilteredGazeState::clear, (state,), ()) ==> final(
                state).live_source is None && final(state).filtered_directions is None && final(
                state).last_filter_timestamp is None && final(
                state).last_valid_sample_timestamp is None && final(state).center_history@.len()
                == 0,
        forall|
            state: &mut FilteredGazeState,
            rendered: &mut CenterHistory,
            last_log: &mut Option<Duration>,
        | #[trigger]
            call_ensures(reset, (state, rendered, last_log), ()) ==> final(
                state).live_source is None && final(state).filtered_directions is None && final(
                state).last_filter_timestamp is None && final(
                state).last_valid_sample_timestamp is None && final(state).center_history@.len()
                == 0 && final(rendered)@.len() == 0 && *final(last_log) is None,
        forall|history: &mut CenterHistory| #[trigger]
            call_ensures(foveation_metadata::reset, (history,), ()) ==> final(history)@.len() == 0,
{
}

/// The encoder reads under a timestamp the four shifts of the centers that are found under it.
pub proof fn law_encoder_reads_what_is_found(
    state: &FilteredGazeState,
    timestamp_ns: u64,
    timestamp: Duration,
    found: Option<[Vec2; 2]>,
    read: FoveationCenters,
)
    requires
        timestamp.nanos == timestamp_ns,
        call_ensures(FilteredGazeState::get, (state, timestamp), found),
        call_ensures(get_eye_tracked_foveation_centers, (state, timestamp_ns), read),
    ensures
        read.valid <==> found is Some,
        found matches Some(centers) ==> {
            &&& read.left_x == centers[0].x
            &&& read.left_y == centers[0].y
            &&& read.right_x == centers[1].x
            &&& read.right_y == centers[1].y
        },
        found is None ==> {
            &&& read.left_x.bits == 0
            &&& read.left_y.bits == 0
            &&& read.right_x.bits == 0
            &&& read.right_y.bits == 0
        },
{
    assert(timestamp == (Duration { nanos: timestamp_ns as u128 }));
}

/// A diagnostic message is due where there was none, where half a second has passed since, or where
/// time has gone back; only then is it noted.
pub proof fn law_diagnostics_are_spaced(timestamp: Duration)
    ensures
        forall|last_log: &mut Option<Duration>, due: bool| #[trigger]
            call_ensures(diagnostic_due, (last_log, timestamp), due) ==> {
                &&& due <==> match *last_log {
                    Some(last) => timestamp.nanos < last.nanos || timestamp.nanos >= last.nanos
                        + 500_000_000,
                    None => true,
                }
                &&& *final(last_log) == (if due {
                    Some(timestamp)
                } else {
                    *last_log
                })
            },
{
}

/// A blend goes from the previous direction to the current one, which is taken where there is no
/// blend.
pub proof fn law_blend_goes_from_previous_to_current<B: Fn(Vec3, Vec3, Duration) -> Option<Vec3>>(
    previous: Vec3,
    current: Vec3,
    elapsed: Duration,
    blend: &B,
    f: spec_fn(Vec3, Vec3, Duration) -> Option<Vec3>,
    filtered: Vec3,
)
    requires
        call_ensures(lerp_direction::<B>, (previous, current, elapsed, blend), filtered),
        forall|from: Vec3, to: Vec3, time: Duration, blended: Option<Vec3>| #[trigger]
            call_ensures(*blend, (from, to, time), blended) ==> blended == f(from, to, time),
    ensures
        match f(previous, current, elapsed) {
            Some(direction) => filtered == direction,
            None => filtered == current,
        },
{
    law_filtering_goes_from_previous_to_current(*blend, f, previous, current, elapsed, filtered);
}

/// A view position counts exactly where the direction is finite and forward, the spans are wide
/// enough and the position is finite; it is then the position itself.
pub proof fn law_view_position_counts_as_it_is(
    direction: Vec3,
    horizontal_span: Binary32,
    vertical_span: Binary32,
    uv: Vec2,
    found: Option<Vec2>,
)
    requires
        call_ensures(
            project_direction_to_view_uv,
            (direction, horizontal_span, vertical_span, uv),
            found,
        ),
    ensures
        ({
            let finite = |v: Binary32|
                v.bits < 0x7f80_0000 || 0x8000_0000 <= v.bits < 0xff80_0000;
            let wide = |v: Binary32|
                0x3400_0000 < v.bits < 0x8000_0000 || 0xff80_0000 < v.bits;
            found == (if finite(direction.x) && finite(direction.y) && 0xb400_0000
                < direction.z.bits < 0xff80_0000 && wide(horizontal_span) && wide(vertical_span)
                && finite(uv.x) && finite(uv.y) {
                Some(uv)
            } else {
                None
            })
        }),
{
    let eye = EyeProjection {
        direction,
        horizontal_span,
        vertical_span,
        uv,
        movable_fraction: uv,
        scaled_offset: uv,
        mirrored_scaled_offset_x: uv.x,
    };
    law_projectable_gaze(eye, false);
}

/// An offset is kept on each axis whose movable fraction exceeds epsilon, and zero on the other.
pub proof fn law_shift_is_the_offset_where_it_can_move(
    movable_fraction: Vec2,
    scaled_offset: Vec2,
    shift: Vec2,
)
    requires
        call_ensures(uv_delta_to_center_shift, (movable_fraction, scaled_offset), shift),
    ensures
        0x3400_0000 < movable_fraction.x.bits <= 0x7f80_0000 ==> shift.x == scaled_offset.x,
        !(0x3400_0000 < movable_fraction.x.bits <= 0x7f80_0000) ==> shift.x.bits == 0,
        0x3400_0000 < movable_fraction.y.bits <= 0x7f80_0000 ==> shift.y == scaled_offset.y,
        !(0x3400_0000 < movable_fraction.y.bits <= 0x7f80_0000) ==> shift.y.bits == 0,
{
    law_axis_shift_by_pattern(movable_fraction.x, scaled_offset.x);
    law_axis_shift_by_pattern(movable_fraction.y, scaled_offset.y);
}

/// The center of an eye, where its gaze can be projected, is its offset on each axis on which it
/// can move, cut to the range from -1 to 1.
pub proof fn law_center_is_the_offset_in_range(
    eye: EyeProjection,
    mirror_x: bool,
    vertical: bool,
    found: Option<Vec2>,
)
    requires
        call_ensures(head_local_direction_to_center, (eye, mirror_x), found),
    ensures
        ({
            let finite = |v: Binary32|
                v.bits < 0x7f80_0000 || 0x8000_0000 <= v.bits < 0xff80_0000;
            let wide = |v: Binary32|
                0x3400_0000 < v.bits < 0x8000_0000 || 0xff80_0000 < v.bits;
            found is Some <==> {
                &&& finite(eye.direction.x)
                &&& finite(eye.direction.y)
                &&& 0xb400_0000 < eye.direction.z.bits < 0xff80_0000
                &&& wide(eye.horizontal_span)
                &&& wide(eye.vertical_span)
                &&& finite(eye.uv.x)
                &&& finite(eye.uv.y)
            }
        }),
        found matches Some(center) ==> {
            let shift = if vertical {
                center.y
            } else {
                center.x
            };
            let movable_fraction = if vertical {
                eye.movable_fraction.y
            } else {
                eye.movable_fraction.x
            };
            let offset = if vertical {
                eye.scaled_offset.y
            } else if mirror_x {
                eye.mirrored_scaled_offset_x
            } else {
                eye.scaled_offset.x
            };
            &&& 0x3400_0000 < movable_fraction.bits <= 0x7f80_0000 ==> {
                &&& offset.bits <= 0x3f80_0000 ==> shift == offset
                &&& 0x8000_0000 <= offset.bits <= 0xbf80_0000 ==> shift == offset
                &&& 0x3f80_0000 < offset.bits <= 0x7f80_0000 ==> shift.bits == 0x3f80_0000
                &&& 0x7f80_0000 < offset.bits < 0x8000_0000 ==> shift.bits == 0xbf80_0000
                &&& 0xbf80_0000 < offset.bits ==> shift.bits == 0xbf80_0000
            }
            &&& !(0x3400_0000 < movable_fraction.bits <= 0x7f80_0000) ==> shift.bits == 0
        },
{
    law_projectable_gaze(eye, mirror_x);
    law_center_moves_by_offset(eye, mirror_x, vertical);
}

/// Two eyes have centers where each has one: the left eye's unmirrored, then the right eye's
/// mirrored.
pub proof fn law_centers_are_those_of_the_two_eyes(
    eyes: [EyeProjection; 2],
    left: Option<Vec2>,
    right: Option<Vec2>,
    found: Option<[Vec2; 2]>,
)
    requires
        call_ensures(head_local_direction_to_center, (eyes[0], false), left),
        call_ensures(head_local_direction_to_center, (eyes[1], true), right),
        call_ensures(head_local_directions_to_centers, (eyes,), found),
    ensures
        found is Some <==> left is Some && right is Some,
        found matches Some(centers) ==> left == Some(centers[0]) && right == Some(centers[1]),
{
    law_each_eye_has_its_own_center(eyes[0], eyes[1]);
}

/// Numbers compare by their patterns.
pub proof fn law_numbers_compare_by_pattern(
    a: Binary32,
    b: Binary32,
    is_nan: bool,
    is_finite: bool,
    is_below: bool,
    is_at_most: bool,
)
    requires
        call_ensures(Binary32::is_nan, (a,), is_nan),
        call_ensures(Binary32::is_finite, (a,), is_finite),
        call_ensures(Binary32::is_below, (a, b), is_below),
        call_ensures(Binary32::is_at_most, (a, b), is_at_most),
    ensures
        is_nan <==> 0x7f80_0000 < a.bits < 0x8000_0000 || 0xff80_0000 < a.bits,
        is_finite <==> a.bits < 0x7f80_0000 || 0x8000_0000 <= a.bits < 0xff80_0000,
        is_nan || 0x7f80_0000 < b.bits < 0x8000_0000 || 0xff80_0000 < b.bits ==> !is_below
            && !is_at_most,
        !is_nan && (b.bits <= 0x7f80_0000 || 0x8000_0000 <= b.bits <= 0xff80_0000) ==> {
            &&& a.bits < 0x8000_0000 && b.bits < 0x8000_0000 ==> {
                &&& is_below <==> a.bits < b.bits
                &&& is_at_most <==> a.bits <= b.bits
            }
            &&& a.bits >= 0x8000_0000 && b.bits >= 0x8000_0000 ==> {
                &&& is_below <==> a.bits > b.bits
                &&& is_at_most <==> a.bits >= b.bits
            }
            &&& a.bits >= 0x8000_0000 && b.bits < 0x8000_0000 ==> {
                &&& is_at_most
                &&& is_below <==> !(a.bits == 0x8000_0000 && b.bits == 0)
            }
            &&& a.bits < 0x8000_0000 && b.bits >= 0x8000_0000 ==> {
                &&& !is_below
                &&& is_at_most <==> a.bits == 0 && b.bits == 0x8000_0000
            }
        },
{
    law_order_by_pattern(a, b);
    law_order_by_pattern(b, a);
}

/// Spans of time are counted in nanoseconds. What a difference leaves, put back, gives the longer
/// span again; a sum is exact unless it is too long.
pub proof fn law_spans_are_counted_in_nanoseconds(
    count: u64,
    nanos: Duration,
    micros: Duration,
    millis: Duration,
    a: Duration,
    b: Duration,
    difference: Duration,
    sum: Duration,
)
    requires
        call_ensures(Duration::from_nanos, (count,), nanos),
        call_ensures(Duration::from_micros, (count,), micros),
        call_ensures(Duration::from_millis, (count,), millis),
        call_ensures(Duration::saturating_sub, (a, b), difference),
        call_ensures(Duration::saturating_add, (a, b), sum),
    ensures
        nanos.nanos == count,
        micros.nanos == 1_000 * count,
        millis.nanos == 1_000_000 * count,
        a.nanos >= b.nanos ==> b.nanos + difference.nanos == a.nanos,
        a.nanos <= b.nanos ==> difference.nanos == 0,
        a.nanos + b.nanos <= u128::MAX ==> sum.nanos == a.nanos + b.nanos,
        a.nanos + b.nanos > u128::MAX ==> sum.nanos == u128::MAX,
{
}

/// Each source has its own name.
pub proof fn law_sources_have_names(source: GazeSource, name: &'static str)
    requires
        call_ensures(GazeSource::description, (source,), name),
    ensures
        source is ExternalUdp ==> name@ == "external UDP gaze"@,
        source is Headset ==> name@ == "headset gaze"@,
        source is Held ==> name@ == "last valid gaze (short hold)"@,
        source is Static ==> name@ == "configured static center"@,
{
}

} // verus!
