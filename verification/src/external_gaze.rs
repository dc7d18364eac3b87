//! Receives device-independent gaze samples from host-side eye trackers.
//!
//! The UDP wire format is fixed-size and little-endian:
//!
//! | Offset | Size | Field |
//! | --- | --- | --- |
//! | 0 | 4 | Magic bytes `AGAZ` |
//! | 4 | 1 | Protocol version (`1`) |
//! | 5 | 1 | Mode: `0` combined, `1` per-eye |
//! | 6 | 1 | Validity mask: bit 0 first/combined, bit 1 right |
//! | 7 | 1 | Reserved (`0`) |
//! | 8 | 4 | Wrapping packet sequence number |
//! | 12 | 4 | Sample age at send time, in microseconds |
//! | 16 | 12 | First/combined gaze direction: `x`, `y`, `z` |
//! | 28 | 12 | Right gaze direction: `x`, `y`, `z` |
//!
//! Directions are in head-local space (`+X` right, `+Y` up, `-Z` forward) and must have unit
//! length. Only the protocol is validated and its timing mapped into the tracking timeline: there
//! is no device-specific projection, angle limit or sensitivity scaling.

use crate::binary32::{
    law_order_by_pattern, law_value_of_fields, lemma_positive_patterns_order, Binary32, ONE_BITS,
};
use crate::duration::{nanos_since, Duration};
use crate::gaze::GazeSample;
use crate::projection::Vec3;
use vstd::arithmetic::power2::{
    lemma2_to64, lemma_pow2_adds, lemma_pow2_pos, lemma_pow2_unfold, pow2,
};
use vstd::prelude::*;

verus! {

pub const PROTOCOL_VERSION: u8 = 1;

pub const COMBINED_MODE: u8 = 0;

pub const PER_EYE_MODE: u8 = 1;

pub const PACKET_SIZE: usize = 40;

pub const DIRECTION_SIZE: usize = 12;

pub const FIRST_GAZE_OFFSET: usize = 16;

/// The bits of the validity mask that mean something.
pub const VALID_GAZE_MASK: u8 = 0b11;

/// How far the squared length of a direction may be from one: the bits of `0.02`.
pub const DIRECTION_LENGTH_SQUARED_TOLERANCE_BITS: u32 = 0x3ca3_d70a;

/// The bits of the least number within the tolerance of one.
const LEAST_LENGTH_SQUARED_BITS: u32 = 0x3f7a_e148;

/// The bits of the greatest number within the tolerance of one.
const GREATEST_LENGTH_SQUARED_BITS: u32 = 0x3f82_8f5c;

/// The age after which a sample is stale, in milliseconds.
pub const SAMPLE_STALE_TIMEOUT_MILLIS: u64 = 100;

/// The least time between two warnings about malformed packets, in milliseconds.
pub const MALFORMED_PACKET_LOG_INTERVAL_MILLIS: u64 = 1_000;

/// A valid sample out of a packet.
#[verifier::ext_equal]
#[derive(Clone, Copy, Debug)]
pub struct DecodedSample {
    pub sequence: u32,
    /// How old the sample was when it was sent.
    pub source_age: Duration,
    /// The unit gaze directions of the left eye and the right one.
    pub directions: [Vec3; 2],
}

/// What the arithmetic gives for a direction that was read from a packet.
#[derive(Clone, Copy, Debug, PartialEq, Eq)]
pub struct MeasuredDirection {
    pub length_squared: Binary32,
    /// The direction scaled to unit length, where that can be done.
    pub normalized: Option<Vec3>,
}

/// The little-endian value of the four bytes at an offset.
pub open spec fn le_u32(packet: Seq<u8>, offset: int) -> int {
    packet[offset] + packet[offset + 1] * 0x100 + packet[offset + 2] * 0x1_0000 + packet[offset + 3]
        * 0x100_0000
}

/// Where the direction of this index starts.
pub open spec fn direction_offset(index: int) -> int {
    FIRST_GAZE_OFFSET + index * DIRECTION_SIZE
}

/// The direction of this index as the packet gives it.
pub open spec fn raw_direction(packet: Seq<u8>, index: int) -> Vec3 {
    let offset = direction_offset(index);
    Vec3 {
        x: Binary32 { bits: le_u32(packet, offset) as u32 },
        y: Binary32 { bits: le_u32(packet, offset + 4) as u32 },
        z: Binary32 { bits: le_u32(packet, offset + 8) as u32 },
    }
}

/// Whether a squared length is a finite number within the tolerance of one. The distance is the
/// exact one. Taken in floating point it decides the same: the difference of a number and one is
/// exact from a half to two, and beyond that far larger than the tolerance.
pub open spec fn nearly_one(length_squared: Binary32) -> bool {
    let one = (Binary32 { bits: ONE_BITS }).units();
    let tolerance = (Binary32 { bits: DIRECTION_LENGTH_SQUARED_TOLERANCE_BITS }).units();
    length_squared.finite() && one - tolerance <= length_squared.units() <= one + tolerance
}

/// A direction counts if it has nearly unit length and could be normalized.
pub open spec fn accepted_direction(measured: MeasuredDirection) -> Option<Vec3> {
    if nearly_one(measured.length_squared) {
        measured.normalized
    } else {
        None
    }
}

/// That `measure` can give `measured` for a direction.
pub open spec fn measures<M: Fn(Vec3) -> MeasuredDirection>(
    measure: M,
    direction: Vec3,
    measured: MeasuredDirection,
) -> bool {
    call_ensures(measure, (direction,), measured)
}

/// Reads the little-endian number at an offset, if the packet reaches that far.
pub fn read_u32(packet: &[u8], offset: usize) -> (r: Option<u32>)
    requires
        offset + 4 <= usize::MAX,
    ensures
        match r {
            Some(value) => offset + 4 <= packet@.len() && value == le_u32(packet@, offset as int),
            None => packet@.len() < offset + 4,
        },
{
    if packet.len() < offset + 4 {
        return None;
    }
    let b0: u32 = packet[offset] as u32;
    let b1: u32 = packet[offset + 1] as u32;
    let b2: u32 = packet[offset + 2] as u32;
    let b3: u32 = packet[offset + 3] as u32;
    Some(b0 + b1 * 0x100 + b2 * 0x1_0000 + b3 * 0x100_0000)
}

/// Reads the little-endian floating-point number at an offset, if the packet reaches that far.
pub fn read_f32(packet: &[u8], offset: usize) -> (r: Option<Binary32>)
    requires
        offset + 4 <= usize::MAX,
    ensures
        match r {
            Some(value) => offset + 4 <= packet@.len() && value.bits == le_u32(
                packet@,
                offset as int,
            ),
            None => packet@.len() < offset + 4,
        },
{
    match read_u32(packet, offset) {
        Some(bits) => Some(Binary32 { bits }),
        None => None,
    }
}

/// Decides whether a direction counts, from what the arithmetic gave for it.
pub fn accept_direction(measured: MeasuredDirection) -> (r: Option<Vec3>)
    ensures
        r == accepted_direction(measured),
{
    let least = Binary32 { bits: LEAST_LENGTH_SQUARED_BITS };
    let greatest = Binary32 { bits: GREATEST_LENGTH_SQUARED_BITS };
    proof {
        lemma_nearly_one(measured.length_squared);
    }
    if measured.length_squared.is_finite() && least.is_at_most(measured.length_squared)
        && measured.length_squared.is_at_most(greatest) {
        measured.normalized
    } else {
        None
    }
}

/// Reads the direction of this index and decides whether it counts. `measure` does the arithmetic.
pub fn decode_direction<M>(packet: &[u8], index: usize, measure: &M) -> (r: Option<Vec3>)
    where M: Fn(Vec3) -> MeasuredDirection
    requires
        direction_offset(index as int) + 4 <= usize::MAX,
        forall|direction: Vec3| call_requires(*measure, (direction,)),
    ensures
        packet@.len() < direction_offset(index as int) + DIRECTION_SIZE ==> r is None,
        packet@.len() >= direction_offset(index as int) + DIRECTION_SIZE ==> exists|
            measured: MeasuredDirection,
        |
            #[trigger] measures(*measure, raw_direction(packet@, index as int), measured) && r
                == accepted_direction(measured),
{
    let offset: usize = FIRST_GAZE_OFFSET + index * DIRECTION_SIZE;
    if packet.len() < DIRECTION_SIZE || packet.len() - DIRECTION_SIZE < offset {
        return None;
    }
    let x = match read_f32(packet, offset) {
        Some(value) => value,
        None => return None,
    };
    let y = match read_f32(packet, offset + 4) {
        Some(value) => value,
        None => return None,
    };
    let z = match read_f32(packet, offset + 8) {
        Some(value) => value,
        None => return None,
    };
    let direction = Vec3 { x, y, z };
    assert(direction == raw_direction(packet@, index as int));
    let measured = measure(direction);
    assert(measures(*measure, direction, measured));
    accept_direction(measured)
}

/// Whether a mode allows a validity mask. Combined gaze has only the first direction; per-eye gaze
/// has either direction or both.
pub open spec fn mode_allows(mode: u8, validity_mask: u8) -> bool {
    ||| mode == COMBINED_MODE && validity_mask == 0b01
    ||| mode == PER_EYE_MODE && 0b01 <= validity_mask <= 0b11
}

/// Whether a packet starts with the characters `AGAZ`.
pub open spec fn has_magic(packet: Seq<u8>) -> bool {
    packet[0] == 0x41 && packet[1] == 0x47 && packet[2] == 0x41 && packet[3] == 0x5a
}

/// Whether the header of a packet is one that the protocol defines, and its sample is not stale.
pub open spec fn supported(packet: Seq<u8>) -> bool {
    &&& packet.len() == PACKET_SIZE
    &&& has_magic(packet)
    &&& packet[4] == PROTOCOL_VERSION
    &&& mode_allows(packet[5], packet[6])
    &&& packet[7] == 0
    &&& le_u32(packet, 12) <= SAMPLE_STALE_TIMEOUT_MILLIS * 1_000
}

/// Which of the two directions of a packet stands for the left eye. A valid direction stands in
/// for one that is not.
pub open spec fn left_index(validity_mask: u8) -> int {
    if validity_mask == 0b10 {
        1
    } else {
        0
    }
}

/// Which of the two directions of a packet stands for the right eye.
pub open spec fn right_index(validity_mask: u8) -> int {
    if validity_mask == 0b01 {
        0
    } else {
        1
    }
}

/// The sample of a supported packet whose directions were decided on: there is none unless both
/// count.
pub open spec fn packet_sample(packet: Seq<u8>, left: Option<Vec3>, right: Option<Vec3>) -> Option<
    DecodedSample,
> {
    match (left, right) {
        (Some(left_direction), Some(right_direction)) => Some(
            DecodedSample {
                sequence: le_u32(packet, 8) as u32,
                source_age: Duration { nanos: (le_u32(packet, 12) * 1_000) as u128 },
                directions: [left_direction, right_direction],
            },
        ),
        _ => None,
    }
}

/// What a packet decodes to, for the results that `measure` can give.
pub open spec fn decodes_to<M: Fn(Vec3) -> MeasuredDirection>(
    packet: Seq<u8>,
    measure: M,
    sample: Option<DecodedSample>,
) -> bool {
    if supported(packet) {
        let left = left_index(packet[6]);
        let right = right_index(packet[6]);
        exists|left_measured: MeasuredDirection, right_measured: MeasuredDirection|
            {
                &&& #[trigger] measures(measure, raw_direction(packet, left), left_measured)
                &&& #[trigger] measures(measure, raw_direction(packet, right), right_measured)
                &&& left == right ==> left_measured == right_measured
                &&& sample == packet_sample(
                    packet,
                    accepted_direction(left_measured),
                    accepted_direction(right_measured),
                )
            }
    } else {
        sample is None
    }
}

/// Decodes a packet. `measure` does the arithmetic on its directions.
pub fn decode_packet<M>(packet: &[u8], measure: &M) -> (r: Option<DecodedSample>)
    where M: Fn(Vec3) -> MeasuredDirection
    requires
        forall|direction: Vec3| call_requires(*measure, (direction,)),
    ensures
        decodes_to(packet@, *measure, r),
{
    if packet.len() != PACKET_SIZE {
        return None;
    }
    if packet[0] != 0x41 || packet[1] != 0x47 || packet[2] != 0x41 || packet[3] != 0x5a {
        return None;
    }
    let version: u8 = packet[4];
    let mode: u8 = packet[5];
    let validity_mask: u8 = packet[6];
    let reserved: u8 = packet[7];
    if version != PROTOCOL_VERSION || reserved != 0 {
        return None;
    }
    assert((validity_mask & !VALID_GAZE_MASK != 0) <==> validity_mask > 0b11) by (bit_vector);
    if validity_mask & !VALID_GAZE_MASK != 0 || validity_mask == 0 {
        return None;
    }
    let sequence: u32 = match read_u32(packet, 8) {
        Some(value) => value,
        None => return None,
    };
    let age_micros: u32 = match read_u32(packet, 12) {
        Some(value) => value,
        None => return None,
    };
    let source_age = Duration::from_micros(age_micros as u64);
    if source_age.nanos > Duration::from_millis(SAMPLE_STALE_TIMEOUT_MILLIS).nanos {
        return None;
    }
    if mode == COMBINED_MODE {
        if validity_mask != 0b01 {
            return None;
        }
    } else if mode != PER_EYE_MODE {
        return None;
    }
    assert(supported(packet@));
    let left = decode_direction(packet, if validity_mask == 0b10 { 1 } else { 0 }, measure);
    let ghost left_measured = choose|measured: MeasuredDirection|
        #[trigger] measures(
            *measure,
            raw_direction(packet@, left_index(validity_mask)),
            measured,
        ) && left == accepted_direction(measured);
    let mut right = left;
    let ghost mut right_measured = left_measured;
    if validity_mask == 0b11 {
        right = decode_direction(packet, 1, measure);
        proof {
            right_measured = choose|measured: MeasuredDirection|
                #[trigger] measures(*measure, raw_direction(packet@, 1), measured) && right
                    == accepted_direction(measured);
        }
    }
    let sample = match (left, right) {
        (Some(left_direction), Some(right_direction)) => Some(
            DecodedSample { sequence, source_age, directions: [left_direction, right_direction] },
        ),
        _ => None,
    };
    proof {
        assert(measures(
            *measure,
            raw_direction(packet@, left_index(validity_mask)),
            left_measured,
        ));
        assert(measures(
            *measure,
            raw_direction(packet@, right_index(validity_mask)),
            right_measured,
        ));
        assert(sample =~= packet_sample(packet@, left, right));
    }
    sample
}

/// How far a sequence number is ahead of another, going around.
pub open spec fn sequence_distance(sequence: u32, previous: u32) -> int {
    (sequence - previous) % 0x1_0000_0000
}

/// Whether a sequence number comes after another: it is ahead by less than half the way around.
pub open spec fn newer(sequence: u32, previous: u32) -> bool {
    0 < sequence_distance(sequence, previous) < 0x8000_0000
}

/// Decides whether a sequence number comes after another. The numbers wrap around.
pub fn sequence_is_newer(sequence: u32, previous: u32) -> (r: bool)
    ensures
        r == newer(sequence, previous),
{
    let distance: u32 = sequence.wrapping_sub(previous);
    distance != 0 && distance < 0x8000_0000
}

/// The last accepted sample and when it came in, on the clock of the receiver.
#[verifier::ext_equal]
#[derive(Clone, Copy, Debug)]
pub struct ReceivedSample {
    pub directions: [Vec3; 2],
    pub source_age: Duration,
    pub received_at: Duration,
}

/// What one run of the receiver remembers from packet to packet.
#[derive(Clone, Copy, Debug, PartialEq, Eq)]
pub struct PacketFilter {
    pub last_sequence: Option<u32>,
    pub last_accepted_at: Option<Duration>,
    pub last_malformed_log: Option<Duration>,
}

/// What became of a packet.
#[derive(Clone, Copy, Debug, PartialEq, Eq, Structural)]
pub enum PacketOutcome {
    /// It is malformed or not supported. `warn` says whether a warning is due.
    Malformed { warn: bool },
    /// It came out of order or twice.
    OutOfOrder,
    /// Its sample is now the latest.
    Accepted,
}

/// The age after which a sample is stale, in nanoseconds.
pub open spec fn stale_nanos() -> int {
    SAMPLE_STALE_TIMEOUT_MILLIS * 1_000_000
}

impl PacketFilter {
    /// A sequence number and the time of its packet are remembered together.
    pub open spec fn wf(self) -> bool {
        self.last_sequence is Some <==> self.last_accepted_at is Some
    }

    /// That a latest sample, if there is one, came in when one was last accepted, and was not stale
    /// when it was sent.
    pub open spec fn latest_fits(self, latest: Option<ReceivedSample>) -> bool {
        latest matches Some(sample) ==> {
            &&& self.last_accepted_at == Some(sample.received_at)
            &&& sample.source_age.nanos <= stale_nanos()
        }
    }

    /// Whether a sender may start anew: nothing was accepted, or not for so long that the last
    /// sample is stale.
    pub open spec fn restarted(self, now: Duration) -> bool {
        match self.last_accepted_at {
            Some(timestamp) => nanos_since(now, timestamp) > stale_nanos(),
            None => true,
        }
    }

    /// Whether a sequence number is in order now.
    pub open spec fn in_order(self, sequence: u32, now: Duration) -> bool {
        self.restarted(now) || match self.last_sequence {
            Some(previous) => newer(sequence, previous),
            None => true,
        }
    }

    /// Whether a malformed packet is worth a warning now.
    pub open spec fn warning_due(self, now: Duration) -> bool {
        match self.last_malformed_log {
            Some(timestamp) => nanos_since(now, timestamp) >= MALFORMED_PACKET_LOG_INTERVAL_MILLIS
                * 1_000_000,
            None => true,
        }
    }

    /// The filter after a packet that decoded to `sample`, or did not decode.
    pub open spec fn after(self, sample: Option<DecodedSample>, now: Duration) -> PacketFilter {
        match sample {
            None => PacketFilter {
                last_malformed_log: if self.warning_due(now) {
                    Some(now)
                } else {
                    self.last_malformed_log
                },
                ..self
            },
            Some(decoded) => if self.in_order(decoded.sequence, now) {
                PacketFilter {
                    last_sequence: Some(decoded.sequence),
                    last_accepted_at: Some(now),
                    ..self
                }
            } else {
                self
            },
        }
    }

    /// What becomes of a packet that decoded to `sample`, or did not decode.
    pub open spec fn outcome(self, sample: Option<DecodedSample>, now: Duration) -> PacketOutcome {
        match sample {
            None => PacketOutcome::Malformed { warn: self.warning_due(now) },
            Some(decoded) => if self.in_order(decoded.sequence, now) {
                PacketOutcome::Accepted
            } else {
                PacketOutcome::OutOfOrder
            },
        }
    }

    /// The latest sample after a packet that decoded to `sample`, or did not decode.
    pub open spec fn latest_after(
        self,
        latest: Option<ReceivedSample>,
        sample: Option<DecodedSample>,
        now: Duration,
    ) -> Option<ReceivedSample> {
        match sample {
            Some(decoded) if self.in_order(decoded.sequence, now) => Some(
                ReceivedSample {
                    directions: decoded.directions,
                    source_age: decoded.source_age,
                    received_at: now,
                },
            ),
            _ => latest,
        }
    }

    /// A filter that has seen no packet.
    pub fn new() -> (r: PacketFilter)
        ensures
            r == (PacketFilter {
                last_sequence: None,
                last_accepted_at: None,
                last_malformed_log: None,
            }),
            r.wf(),
    {
        PacketFilter { last_sequence: None, last_accepted_at: None, last_malformed_log: None }
    }

    /// Takes in what a packet decoded to, at the time `now`.
    pub fn receive_sample(
        &mut self,
        latest: &mut Option<ReceivedSample>,
        sample: Option<DecodedSample>,
        now: Duration,
    ) -> (r: PacketOutcome)
        ensures
            *final(self) == old(self).after(sample, now),
            *final(latest) == old(self).latest_after(*old(latest), sample, now),
            r == old(self).outcome(sample, now),
            old(self).wf() ==> final(self).wf(),
    {
        let decoded = match sample {
            Some(decoded) => decoded,
            None => {
                let warn = match self.last_malformed_log {
                    Some(timestamp) => now.saturating_sub(timestamp).nanos
                        >= Duration::from_millis(MALFORMED_PACKET_LOG_INTERVAL_MILLIS).nanos,
                    None => true,
                };
                if warn {
                    self.last_malformed_log = Some(now);
                }
                return PacketOutcome::Malformed { warn };
            },
        };
        let sequence_restarted = match self.last_accepted_at {
            Some(timestamp) => now.saturating_sub(timestamp).nanos > Duration::from_millis(
                SAMPLE_STALE_TIMEOUT_MILLIS,
            ).nanos,
            None => true,
        };
        let out_of_order = match self.last_sequence {
            Some(previous) => !sequence_is_newer(decoded.sequence, previous),
            None => false,
        };
        if !sequence_restarted && out_of_order {
            return PacketOutcome::OutOfOrder;
        }
        self.last_sequence = Some(decoded.sequence);
        self.last_accepted_at = Some(now);
        *latest = Some(
            ReceivedSample {
                directions: decoded.directions,
                source_age: decoded.source_age,
                received_at: now,
            },
        );
        PacketOutcome::Accepted
    }

    /// Takes in a packet at the time `now`. `measure` does the arithmetic on its directions.
    pub fn receive_packet<M>(
        &mut self,
        latest: &mut Option<ReceivedSample>,
        packet: &[u8],
        now: Duration,
        measure: &M,
    ) -> (r: PacketOutcome)
        where M: Fn(Vec3) -> MeasuredDirection
        requires
            forall|direction: Vec3| call_requires(*measure, (direction,)),
        ensures
            exists|sample: Option<DecodedSample>|
                {
                    &&& #[trigger] decodes_to(packet@, *measure, sample)
                    &&& *final(self) == old(self).after(sample, now)
                    &&& *final(latest) == old(self).latest_after(*old(latest), sample, now)
                    &&& r == old(self).outcome(sample, now)
                },
            old(self).wf() ==> final(self).wf(),
    {
        let sample = decode_packet(packet, measure);
        self.receive_sample(latest, sample, now)
    }
}

/// The latest sample on the timeline of `reference_timestamp`, if it is not stale at the time
/// `now`.
pub open spec fn current_sample(
    latest: Option<ReceivedSample>,
    now: Duration,
    reference_timestamp: Duration,
) -> Option<GazeSample> {
    match latest {
        None => None,
        Some(sample) => {
            let age = sample.source_age.nanos + nanos_since(now, sample.received_at);
            if age <= stale_nanos() {
                Some(
                    GazeSample {
                        sample_timestamp: Duration {
                            nanos: nanos_since(
                                reference_timestamp,
                                Duration { nanos: age as u128 },
                            ) as u128,
                        },
                        directions: sample.directions,
                    },
                )
            } else {
                None
            }
        },
    }
}

/// The latest sample, if the age that it was sent with and the time since then are together short
/// enough. Its timestamp is that age before `reference_timestamp`.
pub fn latest_sample(
    latest: &Option<ReceivedSample>,
    now: Duration,
    reference_timestamp: Duration,
) -> (r: Option<GazeSample>)
    ensures
        r == current_sample(*latest, now, reference_timestamp),
{
    let sample = match latest {
        Some(sample) => sample,
        None => return None,
    };
    let total_age = sample.source_age.saturating_add(now.saturating_sub(sample.received_at));
    if total_age.nanos <= Duration::from_millis(SAMPLE_STALE_TIMEOUT_MILLIS).nanos {
        Some(
            GazeSample {
                sample_timestamp: reference_timestamp.saturating_sub(total_age),
                directions: sample.directions,
            },
        )
    } else {
        None
    }
}

/// Forgets the latest sample.
pub fn clear_sample(latest: &mut Option<ReceivedSample>)
    ensures
        *final(latest) is None,
{
    *latest = None;
}

/// What the receiver thread shares with its users.
#[derive(Clone, Copy, Debug)]
pub struct Receiver {
    /// Whether the thread is to go on.
    pub running: bool,
    pub latest: Option<ReceivedSample>,
}

/// How far a stop has come.
#[derive(Clone, Copy, Debug, PartialEq, Eq, Structural)]
pub enum StopPhase {
    /// The thread is told to stop.
    Requested,
    /// The thread has ended.
    Joined,
}

impl Receiver {
    /// A receiver that does not run.
    pub fn new() -> (r: Receiver)
        ensures
            !r.running,
            r.latest is None,
    {
        Receiver { running: false, latest: None }
    }
}

/// Starts the receiver and says whether its thread is to be spawned: not if it runs already. A
/// sample of an earlier run is forgotten.
pub fn start_receiver(receiver: &mut Receiver) -> (spawn: bool)
    ensures
        spawn == !old(receiver).running,
        final(receiver).running,
        final(receiver).latest == (if spawn {
            None
        } else {
            old(receiver).latest
        }),
{
    if receiver.running {
        return false;
    }
    receiver.running = true;
    clear_sample(&mut receiver.latest);
    true
}

/// Takes note that the thread of a start could not be spawned.
pub fn receiver_not_spawned(receiver: &mut Receiver)
    ensures
        !final(receiver).running,
        final(receiver).latest == old(receiver).latest,
{
    receiver.running = false;
}

/// Stops the receiver, in two phases: the thread is told to stop; when it has ended, the sample is
/// forgotten.
pub fn stop_receiver(receiver: &mut Receiver, phase: StopPhase)
    ensures
        phase == StopPhase::Requested ==> !final(receiver).running && final(receiver).latest == old(
            receiver,
        ).latest,
        phase == StopPhase::Joined ==> final(receiver).latest is None && final(receiver).running
            == old(receiver).running,
{
    match phase {
        StopPhase::Requested => {
            receiver.running = false;
        },
        StopPhase::Joined => {
            clear_sample(&mut receiver.latest);
        },
    }
}

/// What the receiver thread meets.
#[derive(Clone, Copy, Debug)]
pub enum ReceiverEvent<'a> {
    /// The socket could not be bound.
    BindFailed,
    /// The read timeout of the socket could not be set.
    ConfigureFailed,
    /// The socket is ready.
    Listening,
    /// A packet came in at the time `now`.
    Packet { bytes: &'a [u8], now: Duration },
    /// No packet came in before the read timeout.
    NoPacket,
    /// The socket failed.
    ReceiveFailed,
}

/// What the receiver thread does next.
#[derive(Clone, Copy, Debug, PartialEq, Eq, Structural)]
pub struct ReceiverAction {
    /// Warn that a packet was malformed or not supported.
    pub warn_malformed: bool,
    /// Wait for a packet; if false, end.
    pub receive_again: bool,
}

/// One step of the receiver thread. Failures end it, as a stop does; a missing or bad packet does
/// not. `measure` does the arithmetic on the directions of a packet.
pub fn receiver_loop<M>(
    receiver: &mut Receiver,
    filter: &mut PacketFilter,
    event: ReceiverEvent,
    measure: &M,
) -> (r: ReceiverAction)
    where M: Fn(Vec3) -> MeasuredDirection
    requires
        forall|direction: Vec3| call_requires(*measure, (direction,)),
    ensures
        r.receive_again == final(receiver).running,
        final(receiver).running == (old(receiver).running && !(event is BindFailed || event is
            ConfigureFailed || event is ReceiveFailed)),
        event !is Packet ==> {
            &&& final(receiver).latest == old(receiver).latest
            &&& *final(filter) == *old(filter)
            &&& !r.warn_malformed
        },
        event matches ReceiverEvent::Packet { bytes, now } ==> exists|
            sample: Option<DecodedSample>,
        |
            {
                &&& #[trigger] decodes_to(bytes@, *measure, sample)
                &&& *final(filter) == old(filter).after(sample, now)
                &&& final(receiver).latest == old(filter).latest_after(
                    old(receiver).latest,
                    sample,
                    now,
                )
                &&& r.warn_malformed == (sample is None && old(filter).warning_due(now))
            },
        old(filter).wf() ==> final(filter).wf(),
{
    let mut warn_malformed = false;
    match event {
        ReceiverEvent::Packet { bytes, now } => {
            let outcome = filter.receive_packet(&mut receiver.latest, bytes, now, measure);
            warn_malformed = match outcome {
                PacketOutcome::Malformed { warn } => warn,
                _ => false,
            };
        },
        ReceiverEvent::BindFailed | ReceiverEvent::ConfigureFailed
        | ReceiverEvent::ReceiveFailed => {
            receiver.running = false;
        },
        ReceiverEvent::Listening | ReceiverEvent::NoPacket => {},
    }
    ReceiverAction { warn_malformed, receive_again: receiver.running }
}

/// The numbers within the tolerance of one are the patterns of one closed range.
proof fn lemma_nearly_one(v: Binary32)
    ensures
        nearly_one(v) <==> {
            &&& v.finite()
            &&& (Binary32 { bits: LEAST_LENGTH_SQUARED_BITS }).at_most(v)
            &&& v.at_most(Binary32 { bits: GREATEST_LENGTH_SQUARED_BITS })
        },
{
    let one = Binary32 { bits: ONE_BITS };
    let tolerance = Binary32 { bits: DIRECTION_LENGTH_SQUARED_TOLERANCE_BITS };
    let lowest = Binary32 { bits: LEAST_LENGTH_SQUARED_BITS };
    let too_low = Binary32 { bits: 0x3f7a_e147 };
    let highest = Binary32 { bits: GREATEST_LENGTH_SQUARED_BITS };
    let too_high = Binary32 { bits: 0x3f82_8f5d };
    // All six are multiples of the unit of the tolerance's last place.
    let place = pow2(120) as int;
    lemma_pow2_pos(120);
    lemma2_to64();
    lemma_pow2_adds(120, 5);
    lemma_pow2_adds(120, 6);
    assert(pow2(125) == 32 * place);
    assert(pow2(126) == 64 * place);
    assert(tolerance.units() == 0xa3_d70a * place);
    assert(one.units() == 0x80_0000 * pow2(126));
    assert(lowest.units() == 0xfa_e148 * pow2(125));
    assert(too_low.units() == 0xfa_e147 * pow2(125));
    assert(highest.units() == 0x82_8f5c * pow2(126));
    assert(too_high.units() == 0x82_8f5d * pow2(126));
    if v.is_negative() {
        assert(v.units() <= 0);
    } else {
        lemma_positive_patterns_order(lowest, v);
        lemma_positive_patterns_order(v, too_low);
        lemma_positive_patterns_order(v, highest);
        lemma_positive_patterns_order(too_high, v);
    }
}

/// The four bytes of a number, least significant first.
pub open spec fn le_bytes(value: u32) -> Seq<u8> {
    seq![
        (value % 0x100) as u8,
        (value / 0x100 % 0x100) as u8,
        (value / 0x1_0000 % 0x100) as u8,
        (value / 0x100_0000) as u8,
    ]
}

/// The twelve bytes of a direction.
pub open spec fn direction_bytes(direction: Vec3) -> Seq<u8> {
    le_bytes(direction.x.bits) + le_bytes(direction.y.bits) + le_bytes(direction.z.bits)
}

/// The packet that the wire format gives for its fields.
pub open spec fn packet_bytes(
    mode: u8,
    validity_mask: u8,
    sequence: u32,
    age_micros: u32,
    first: Vec3,
    right: Vec3,
) -> Seq<u8> {
    seq![0x41u8, 0x47u8, 0x41u8, 0x5au8, PROTOCOL_VERSION, mode, validity_mask, 0u8] + le_bytes(
        sequence,
    ) + le_bytes(age_micros) + direction_bytes(first) + direction_bytes(right)
}

/// Four bytes read back as the number that they were written for.
proof fn lemma_le_bytes(packet: Seq<u8>, offset: int, value: u32)
    requires
        0 <= offset,
        offset + 4 <= packet.len(),
        packet.subrange(offset, offset + 4) == le_bytes(value),
    ensures
        le_u32(packet, offset) == value,
{
    let part = packet.subrange(offset, offset + 4);
    assert(part[0] == packet[offset]);
    assert(part[1] == packet[offset + 1]);
    assert(part[2] == packet[offset + 2]);
    assert(part[3] == packet[offset + 3]);
}

/// A packet in the wire format is supported exactly if its mode allows its mask and its sample is
/// not stale, and each of its fields is read back.
pub proof fn law_packet_fields_are_read_back(
    mode: u8,
    validity_mask: u8,
    sequence: u32,
    age_micros: u32,
    first: Vec3,
    right: Vec3,
)
    ensures
        ({
            let packet = packet_bytes(mode, validity_mask, sequence, age_micros, first, right);
            &&& supported(packet) <==> mode_allows(mode, validity_mask) && age_micros
                <= SAMPLE_STALE_TIMEOUT_MILLIS * 1_000
            &&& packet[6] == validity_mask
            &&& le_u32(packet, 8) == sequence
            &&& le_u32(packet, 12) == age_micros
            &&& raw_direction(packet, 0) == first
            &&& raw_direction(packet, 1) == right
        }),
{
    let packet = packet_bytes(mode, validity_mask, sequence, age_micros, first, right);
    assert(packet.len() == PACKET_SIZE);
    assert(packet.subrange(8, 12) == le_bytes(sequence));
    lemma_le_bytes(packet, 8, sequence);
    assert(packet.subrange(12, 16) == le_bytes(age_micros));
    lemma_le_bytes(packet, 12, age_micros);
    assert(packet.subrange(16, 20) == le_bytes(first.x.bits));
    lemma_le_bytes(packet, 16, first.x.bits);
    assert(packet.subrange(20, 24) == le_bytes(first.y.bits));
    lemma_le_bytes(packet, 20, first.y.bits);
    assert(packet.subrange(24, 28) == le_bytes(first.z.bits));
    lemma_le_bytes(packet, 24, first.z.bits);
    assert(packet.subrange(28, 32) == le_bytes(right.x.bits));
    lemma_le_bytes(packet, 28, right.x.bits);
    assert(packet.subrange(32, 36) == le_bytes(right.y.bits));
    lemma_le_bytes(packet, 32, right.y.bits);
    assert(packet.subrange(36, 40) == le_bytes(right.z.bits));
    lemma_le_bytes(packet, 36, right.z.bits);
}

/// A supported packet decodes to the sample that was written into it, if the directions that its
/// mask names count. A mask that names one direction gives it to both eyes.
pub proof fn law_packets_decode_to_their_sample<M: Fn(Vec3) -> MeasuredDirection>(
    measure: M,
    mode: u8,
    validity_mask: u8,
    sequence: u32,
    age_micros: u32,
    first: Vec3,
    right: Vec3,
    first_measured: MeasuredDirection,
    right_measured: MeasuredDirection,
    sample: Option<DecodedSample>,
)
    requires
        mode_allows(mode, validity_mask),
        age_micros <= SAMPLE_STALE_TIMEOUT_MILLIS * 1_000,
        validity_mask != 0b10 ==> forall|measured: MeasuredDirection| #[trigger]
            measures(measure, first, measured) ==> measured == first_measured,
        validity_mask != 0b01 ==> forall|measured: MeasuredDirection| #[trigger]
            measures(measure, right, measured) ==> measured == right_measured,
        decodes_to(
            packet_bytes(mode, validity_mask, sequence, age_micros, first, right),
            measure,
            sample,
        ),
    ensures
        ({
            let left_eye = accepted_direction(
                if validity_mask == 0b10 {
                    right_measured
                } else {
                    first_measured
                },
            );
            let right_eye = accepted_direction(
                if validity_mask == 0b01 {
                    first_measured
                } else {
                    right_measured
                },
            );
            &&& sample is Some <==> left_eye is Some && right_eye is Some
            &&& sample matches Some(decoded) ==> {
                &&& decoded.sequence == sequence
                &&& decoded.source_age.nanos == age_micros * 1_000
                &&& Some(decoded.directions[0]) == left_eye
                &&& Some(decoded.directions[1]) == right_eye
            }
        }),
{
    law_packet_fields_are_read_back(mode, validity_mask, sequence, age_micros, first, right);
}

/// Whether two packets agree but for the bytes of a direction that the mask does not name.
pub open spec fn agree_on_named(packet: Seq<u8>, other: Seq<u8>) -> bool {
    &&& packet.len() == PACKET_SIZE
    &&& other.len() == PACKET_SIZE
    &&& forall|i: int|
        0 <= i < PACKET_SIZE && !(packet[6] == 0b01 && direction_offset(1) <= i) && !(packet[6]
            == 0b10 && direction_offset(0) <= i < direction_offset(1)) ==> #[trigger] packet[i]
            == other[i]
}

/// That `measure` gives one result for each direction.
pub open spec fn measures_once<M: Fn(Vec3) -> MeasuredDirection>(measure: M) -> bool {
    forall|direction: Vec3, one: MeasuredDirection, other: MeasuredDirection| #[trigger]
        measures(measure, direction, one) && #[trigger] measures(measure, direction, other) ==> one
            == other
}

/// The bytes of a direction that the mask does not name never matter: packets that differ in
/// nothing else can decode to the same and, where the arithmetic gives one result for each
/// direction, do.
pub proof fn law_unnamed_directions_never_matter<M: Fn(Vec3) -> MeasuredDirection>(
    packet: Seq<u8>,
    other: Seq<u8>,
    measure: M,
    sample: Option<DecodedSample>,
    other_sample: Option<DecodedSample>,
)
    requires
        agree_on_named(packet, other),
    ensures
        decodes_to(packet, measure, sample) == decodes_to(other, measure, sample),
        measures_once(measure) && decodes_to(packet, measure, sample) && decodes_to(
            other,
            measure,
            other_sample,
        ) ==> sample == other_sample,
{
    assert(le_u32(packet, 8) == le_u32(other, 8));
    assert(le_u32(packet, 12) == le_u32(other, 12));
    assert(supported(packet) == supported(other));
    let left = left_index(packet[6]);
    let right = right_index(packet[6]);
    if supported(packet) {
        assert(packet[6] == other[6]);
        assert(raw_direction(packet, left) == raw_direction(other, left));
        assert(raw_direction(packet, right) == raw_direction(other, right));
    }
}

/// Four bytes are the ones that their value is written as.
proof fn lemma_le_u32(packet: Seq<u8>, offset: int)
    requires
        0 <= offset,
        offset + 4 <= packet.len(),
    ensures
        0 <= le_u32(packet, offset) <= u32::MAX,
        packet.subrange(offset, offset + 4) == le_bytes(le_u32(packet, offset) as u32),
{
    let value = le_u32(packet, offset) as u32;
    assert(packet.subrange(offset, offset + 4) =~= seq![
        packet[offset],
        packet[offset + 1],
        packet[offset + 2],
        packet[offset + 3],
    ]);
    assert(value % 0x100 == packet[offset]);
    assert(value / 0x100 % 0x100 == packet[offset + 1]);
    assert(value / 0x1_0000 % 0x100 == packet[offset + 2]);
    assert(value / 0x100_0000 == packet[offset + 3]);
}

/// Nothing but the wire format is supported: a supported packet is the one that its fields are
/// written as.
pub proof fn law_supported_packets_are_in_wire_format(packet: Seq<u8>)
    requires
        supported(packet),
    ensures
        packet == packet_bytes(
            packet[5],
            packet[6],
            le_u32(packet, 8) as u32,
            le_u32(packet, 12) as u32,
            raw_direction(packet, 0),
            raw_direction(packet, 1),
        ),
{
    lemma_le_u32(packet, 8);
    lemma_le_u32(packet, 12);
    lemma_le_u32(packet, 16);
    lemma_le_u32(packet, 20);
    lemma_le_u32(packet, 24);
    lemma_le_u32(packet, 28);
    lemma_le_u32(packet, 32);
    lemma_le_u32(packet, 36);
    let written = packet_bytes(
        packet[5],
        packet[6],
        le_u32(packet, 8) as u32,
        le_u32(packet, 12) as u32,
        raw_direction(packet, 0),
        raw_direction(packet, 1),
    );
    assert(written =~= packet.take(8) + packet.subrange(8, 12) + packet.subrange(12, 16) + (
    packet.subrange(16, 20) + packet.subrange(20, 24) + packet.subrange(24, 28)) + (packet.subrange(
        28,
        32,
    ) + packet.subrange(32, 36) + packet.subrange(36, 40)));
    assert(written =~= packet);
}

/// No sequence number comes after itself, and of two numbers at most one comes after the other.
/// One of them does, unless they are equal or half the way around apart.
pub proof fn law_sequence_order(a: u32, b: u32)
    ensures
        !newer(a, a),
        !(newer(a, b) && newer(b, a)),
        a != b && sequence_distance(a, b) != 0x8000_0000 ==> newer(a, b) || newer(b, a),
{
}

/// A sender that counts on, also past the largest number, stays in order as long as it skips less
/// than half the way around.
pub proof fn law_sequence_may_wrap(previous: u32, steps: int)
    requires
        0 < steps < 0x8000_0000,
    ensures
        newer(((previous + steps) % 0x1_0000_0000) as u32, previous),
{
}

/// Until an accepted sample is stale, no sample is accepted whose sequence number does not come
/// after its own: not the same one again either. Such a sample changes nothing.
pub proof fn law_late_samples_are_ignored(
    filter: PacketFilter,
    latest: Option<ReceivedSample>,
    accepted: DecodedSample,
    accepted_at: Duration,
    late: DecodedSample,
    now: Duration,
)
    requires
        filter.outcome(Some(accepted), accepted_at) == PacketOutcome::Accepted,
        !newer(late.sequence, accepted.sequence),
        nanos_since(now, accepted_at) <= stale_nanos(),
    ensures
        ({
            let next = filter.after(Some(accepted), accepted_at);
            &&& next.outcome(Some(late), now) == PacketOutcome::OutOfOrder
            &&& next.after(Some(late), now) == next
            &&& next.latest_after(latest, Some(late), now) == latest
        }),
{
}

/// A sender whose last accepted sample is stale may start at any sequence number.
pub proof fn law_senders_may_restart(filter: PacketFilter, sample: DecodedSample, now: Duration)
    requires
        filter.restarted(now),
    ensures
        filter.outcome(Some(sample), now) == PacketOutcome::Accepted,
{
}

/// A malformed packet touches neither the latest sample nor the order of the others. Warnings
/// about such packets are no closer together than their interval.
pub proof fn law_malformed_packets_are_harmless(
    filter: PacketFilter,
    latest: Option<ReceivedSample>,
    first: Duration,
    second: Duration,
)
    ensures
        filter.latest_after(latest, None, first) == latest,
        forall|sequence: u32, now: Duration|
            filter.after(None, first).in_order(sequence, now) == filter.in_order(sequence, now),
        filter.outcome(None, first) == (PacketOutcome::Malformed { warn: true })
            ==> filter.after(None, first).outcome(None, second) == (PacketOutcome::Malformed {
            warn: nanos_since(second, first) >= MALFORMED_PACKET_LOG_INTERVAL_MILLIS * 1_000_000,
        }),
{
}

/// The latest sample is the one that was accepted last, unless it was forgotten, and was not stale
/// when it was sent: every packet keeps this so.
pub proof fn law_latest_is_last_accepted<M: Fn(Vec3) -> MeasuredDirection>(
    filter: PacketFilter,
    latest: Option<ReceivedSample>,
    packet: Seq<u8>,
    measure: M,
    sample: Option<DecodedSample>,
    now: Duration,
)
    requires
        decodes_to(packet, measure, sample),
        filter.latest_fits(latest),
    ensures
        filter.after(sample, now).latest_fits(filter.latest_after(latest, sample, now)),
        filter.after(sample, now).latest_fits(None),
{
}

/// A sample that a packet brought is current when it comes in, as old as it was sent.
pub proof fn law_accepted_samples_are_current<M: Fn(Vec3) -> MeasuredDirection>(
    filter: PacketFilter,
    latest: Option<ReceivedSample>,
    packet: Seq<u8>,
    measure: M,
    sample: DecodedSample,
    now: Duration,
    reference_timestamp: Duration,
)
    requires
        decodes_to(packet, measure, Some(sample)),
        filter.outcome(Some(sample), now) == PacketOutcome::Accepted,
    ensures
        current_sample(
            filter.latest_after(latest, Some(sample), now),
            now,
            reference_timestamp,
        ) == Some(
            GazeSample {
                sample_timestamp: Duration {
                    nanos: nanos_since(reference_timestamp, sample.source_age) as u128,
                },
                directions: sample.directions,
            },
        ),
{
    assert(sample.source_age.nanos <= stale_nanos());
    assert(nanos_since(now, now) == 0);
}

/// A sample that is handed out is at most as old as the timeout allows, and never from after the
/// reference.
pub proof fn law_current_samples_are_fresh(
    latest: Option<ReceivedSample>,
    now: Duration,
    reference_timestamp: Duration,
)
    ensures
        current_sample(latest, now, reference_timestamp) matches Some(sample) ==> {
            &&& sample.sample_timestamp.nanos <= reference_timestamp.nanos
            &&& reference_timestamp.nanos - sample.sample_timestamp.nanos <= stale_nanos()
        },
{
}

/// Once the latest sample is stale it stays so.
pub proof fn law_stale_samples_stay_stale(
    latest: Option<ReceivedSample>,
    now: Duration,
    later: Duration,
    reference_timestamp: Duration,
    later_reference: Duration,
)
    requires
        now.nanos <= later.nanos,
        current_sample(latest, now, reference_timestamp) is None,
    ensures
        current_sample(latest, later, later_reference) is None,
{
}

/// Which measured directions count, by the pattern of the squared length: those from two percent
/// below one to two percent above. What counts is the normalized direction, in all three of its
/// components.
pub proof fn law_accepted_direction_is_the_normalized_one(measured: MeasuredDirection)
    ensures
        accepted_direction(measured) == (if 0x3f7a_e148 <= measured.length_squared.bits
            <= 0x3f82_8f5c {
            measured.normalized
        } else {
            None
        }),
{
    lemma_nearly_one(measured.length_squared);
    law_order_by_pattern(Binary32 { bits: 0x3f7a_e148 }, measured.length_squared);
    law_order_by_pattern(measured.length_squared, Binary32 { bits: 0x3f82_8f5c });
}

/// The tolerance in numbers: a direction that could be normalized counts exactly where its squared
/// length is finite and within two percent of one.
pub proof fn law_tolerance_is_two_percent(measured: MeasuredDirection)
    requires
        measured.normalized is Some,
    ensures
        ({
            let one = (0x80_0000 * pow2(126)) as int;
            accepted_direction(measured) is Some <==> measured.length_squared.finite() && 49 * one
                <= 50 * measured.length_squared.units() <= 51 * one
        }),
{
    let v = measured.length_squared;
    law_accepted_direction_is_the_normalized_one(measured);
    let lowest = Binary32 { bits: 0x3f7a_e148 };
    let too_low = Binary32 { bits: 0x3f7a_e147 };
    let highest = Binary32 { bits: 0x3f82_8f5c };
    let too_high = Binary32 { bits: 0x3f82_8f5d };
    lemma_pow2_pos(125);
    law_value_of_fields(false, 126, 0x7a_e148, lowest);
    law_value_of_fields(false, 126, 0x7a_e147, too_low);
    law_value_of_fields(false, 127, 0x02_8f5c, highest);
    law_value_of_fields(false, 127, 0x02_8f5d, too_high);
    let place = pow2(125) as int;
    assert(pow2(126) == 2 * place) by {
        lemma_pow2_unfold(126);
    }
    assert(lowest.units() == 0xfa_e148 * place);
    assert(too_low.units() == 0xfa_e147 * place);
    assert(highest.units() == 0x82_8f5c * pow2(126));
    assert(too_high.units() == 0x82_8f5d * pow2(126));
    let one = (0x80_0000 * pow2(126)) as int;
    assert(one == 0x100_0000 * place);
    let lowest_units = lowest.units();
    let too_low_units = too_low.units();
    assert(50 * too_low_units < 49 * one <= 50 * lowest_units) by (nonlinear_arith)
        requires
            place > 0,
            one == 0x100_0000 * place,
            lowest_units == 0xfa_e148 * place,
            too_low_units == 0xfa_e147 * place,
    ;
    let highest_units = highest.units();
    let too_high_units = too_high.units();
    let upper_place = pow2(126) as int;
    assert(50 * highest_units <= 51 * one < 50 * too_high_units) by (nonlinear_arith)
        requires
            upper_place > 0,
            one == 0x80_0000 * upper_place,
            highest_units == 0x82_8f5c * upper_place,
            too_high_units == 0x82_8f5d * upper_place,
    ;
    law_order_by_pattern(v, too_low);
    if v.is_negative() {
        assert(v.units() <= 0);
    } else {
        lemma_positive_patterns_order(lowest, v);
        lemma_positive_patterns_order(v, too_low);
        lemma_positive_patterns_order(v, highest);
        lemma_positive_patterns_order(too_high, v);
    }
}

/// Each byte of a packet by its place. For arithmetic that gives `f` of a direction, a packet
/// decodes exactly where its header is that of the protocol, its age is at most 100 milliseconds
/// and the directions that its mask names count. The sample then has the sequence number and the
/// age of the packet, and the normalized directions of its own fields, that of the left eye first.
pub proof fn law_sample_comes_from_the_bytes<M: Fn(Vec3) -> MeasuredDirection>(
    p: Seq<u8>,
    measure: M,
    f: spec_fn(Vec3) -> MeasuredDirection,
    sample: Option<DecodedSample>,
)
    requires
        decodes_to(p, measure, sample),
        forall|direction: Vec3, measured: MeasuredDirection| #[trigger]
            call_ensures(measure, (direction,), measured) ==> measured == f(direction),
    ensures
        ({
            let word = |i: int|
                p[i] + 0x100 * p[i + 1] + 0x1_0000 * p[i + 2] + 0x100_0000 * p[i + 3];
            let vector = |i: int|
                Vec3 {
                    x: Binary32 { bits: word(i) as u32 },
                    y: Binary32 { bits: word(i + 4) as u32 },
                    z: Binary32 { bits: word(i + 8) as u32 },
                };
            let left = f(
                if p[6] == 2 {
                    vector(28)
                } else {
                    vector(16)
                },
            );
            let right = f(
                if p[6] == 1 {
                    vector(16)
                } else {
                    vector(28)
                },
            );
            let counts = |m: MeasuredDirection|
                m.normalized is Some && 0x3f7a_e148 <= m.length_squared.bits <= 0x3f82_8f5c;
            &&& sample is Some <==> {
                &&& p.len() == 40
                &&& p[0] == 0x41 && p[1] == 0x47 && p[2] == 0x41 && p[3] == 0x5a
                &&& p[4] == 1
                &&& (p[5] == 0 && p[6] == 1) || (p[5] == 1 && 1 <= p[6] <= 3)
                &&& p[7] == 0
                &&& word(12) <= 100_000
                &&& counts(left)
                &&& counts(right)
            }
            &&& sample matches Some(decoded) ==> {
                &&& decoded.sequence == word(8)
                &&& decoded.source_age.nanos == 1_000 * word(12)
                &&& left.normalized == Some(decoded.directions[0])
                &&& right.normalized == Some(decoded.directions[1])
            }
        }),
{
    if supported(p) {
        let (left_measured, right_measured) = choose|
            left_measured: MeasuredDirection,
            right_measured: MeasuredDirection,
        |
            {
                &&& #[trigger] measures(
                    measure,
                    raw_direction(p, left_index(p[6])),
                    left_measured,
                )
                &&& #[trigger] measures(
                    measure,
                    raw_direction(p, right_index(p[6])),
                    right_measured,
                )
                &&& left_index(p[6]) == right_index(p[6]) ==> left_measured == right_measured
                &&& sample == packet_sample(
                    p,
                    accepted_direction(left_measured),
                    accepted_direction(right_measured),
                )
            };
        assert(call_ensures(measure, (raw_direction(p, left_index(p[6])),), left_measured));
        assert(call_ensures(measure, (raw_direction(p, right_index(p[6])),), right_measured));
        law_accepted_direction_is_the_normalized_one(left_measured);
        law_accepted_direction_is_the_normalized_one(right_measured);
    }
}

/// A sequence number that is `steps` ahead of another, going around, comes after it exactly if the
/// steps are fewer than half the way around.
pub proof fn law_newer_is_less_than_half_ahead(sequence: u32, previous: u32, steps: int)
    requires
        0 <= steps < 0x1_0000_0000,
        sequence == previous + steps || sequence == previous + steps - 0x1_0000_0000,
    ensures
        newer(sequence, previous) <==> 1 <= steps <= 0x7fff_ffff,
{
}

/// A sample that is ahead of the last accepted one by less than half the way around is accepted at
/// any time, however many were lost between them: it becomes the latest, with its own directions
/// and age, and its sequence number and time are remembered.
pub proof fn law_newer_samples_are_accepted(
    filter: PacketFilter,
    latest: Option<ReceivedSample>,
    sample: DecodedSample,
    previous: u32,
    steps: int,
    now: Duration,
)
    requires
        filter.last_sequence == Some(previous),
        1 <= steps <= 0x7fff_ffff,
        sample.sequence == previous + steps || sample.sequence == previous + steps - 0x1_0000_0000,
    ensures
        filter.outcome(Some(sample), now) == PacketOutcome::Accepted,
        filter.after(Some(sample), now).last_sequence == Some(sample.sequence),
        filter.after(Some(sample), now).last_accepted_at == Some(now),
        filter.after(Some(sample), now).last_malformed_log == filter.last_malformed_log,
        filter.latest_after(latest, Some(sample), now) matches Some(received)
            && received.directions == sample.directions && received.source_age == sample.source_age
            && received.received_at == now,
{
}

/// A sample is also accepted, and remembered in the same way, where none was before or where more
/// than 100 milliseconds have passed since.
pub proof fn law_first_samples_are_accepted(
    filter: PacketFilter,
    latest: Option<ReceivedSample>,
    sample: DecodedSample,
    now: Duration,
)
    requires
        filter.last_sequence is None || match filter.last_accepted_at {
            Some(last) => now.nanos > last.nanos + 100_000_000,
            None => true,
        },
    ensures
        filter.outcome(Some(sample), now) == PacketOutcome::Accepted,
        filter.after(Some(sample), now).last_sequence == Some(sample.sequence),
        filter.after(Some(sample), now).last_accepted_at == Some(now),
        filter.after(Some(sample), now).last_malformed_log == filter.last_malformed_log,
        filter.latest_after(latest, Some(sample), now) matches Some(received)
            && received.directions == sample.directions && received.source_age == sample.source_age
            && received.received_at == now,
{
}

/// Up to 100 milliseconds after a sample was accepted, one that is not ahead of it, or ahead by
/// half the way around or more, is refused and changes nothing.
pub proof fn law_samples_not_ahead_are_refused(
    filter: PacketFilter,
    latest: Option<ReceivedSample>,
    sample: DecodedSample,
    previous: u32,
    steps: int,
    last: Duration,
    now: Duration,
)
    requires
        filter.last_sequence == Some(previous),
        filter.last_accepted_at == Some(last),
        steps == 0 || 0x8000_0000 <= steps < 0x1_0000_0000,
        sample.sequence == previous + steps || sample.sequence == previous + steps - 0x1_0000_0000,
        now.nanos <= last.nanos + 100_000_000,
    ensures
        filter.outcome(Some(sample), now) == PacketOutcome::OutOfOrder,
        filter.after(Some(sample), now) == filter,
        filter.latest_after(latest, Some(sample), now) == latest,
{
}

/// A packet that does not decode changes nothing but when the last warning was: one is due where
/// there was none, or none for a second.
pub proof fn law_malformed_packets_only_warn(
    filter: PacketFilter,
    latest: Option<ReceivedSample>,
    now: Duration,
)
    ensures
        ({
            let due = match filter.last_malformed_log {
                Some(last) => now.nanos >= last.nanos + 1_000_000_000,
                None => true,
            };
            &&& filter.outcome(None, now) == (PacketOutcome::Malformed { warn: due })
            &&& filter.after(None, now).last_malformed_log == (if due {
                Some(now)
            } else {
                filter.last_malformed_log
            })
            &&& filter.after(None, now).last_sequence == filter.last_sequence
            &&& filter.after(None, now).last_accepted_at == filter.last_accepted_at
            &&& filter.latest_after(latest, None, now) == latest
        }),
{
}

/// The latest sample is handed out as long as its age at sending and the time since it came in are
/// together at most 100 milliseconds: with its own directions, and dated back by that age from the
/// reference, but not to before the start of the timeline.
pub proof fn law_sample_is_dated_back_by_its_age(
    received: ReceivedSample,
    waited: nat,
    now: Duration,
    reference_timestamp: Duration,
)
    requires
        now.nanos == received.received_at.nanos + waited || (waited == 0 && now.nanos
            < received.received_at.nanos),
    ensures
        ({
            let age = received.source_age.nanos + waited;
            let found = current_sample(Some(received), now, reference_timestamp);
            &&& found is Some <==> age <= 100_000_000
            &&& found matches Some(sample) ==> {
                &&& sample.directions == received.directions
                &&& age <= reference_timestamp.nanos ==> sample.sample_timestamp.nanos + age
                    == reference_timestamp.nanos
                &&& age > reference_timestamp.nanos ==> sample.sample_timestamp.nanos == 0
            }
        }),
        current_sample(None, now, reference_timestamp) is None,
{
}

/// A sample keeps its place on the timeline: asked for later, with a reference that went on by as
/// much as the clock, it has the same timestamp and directions as before.
pub proof fn law_sample_keeps_its_timestamp(
    received: ReceivedSample,
    now: Duration,
    reference_timestamp: Duration,
    later: Duration,
    later_reference: Duration,
)
    requires
        received.received_at.nanos <= now.nanos <= later.nanos,
        later_reference.nanos - reference_timestamp.nanos == later.nanos - now.nanos,
        received.source_age.nanos + (now.nanos - received.received_at.nanos)
            <= reference_timestamp.nanos,
        current_sample(Some(received), later, later_reference) is Some,
    ensures
        current_sample(Some(received), now, reference_timestamp) matches Some(before)
            && current_sample(Some(received), later, later_reference) matches Some(after)
            && before.sample_timestamp == after.sample_timestamp && before.directions
            == after.directions,
{
}

} // verus!
