use gaze_foveation::binary32::Binary32;
use gaze_foveation::duration::Duration;
use gaze_foveation::external_gaze::{
    accept_direction, clear_sample, decode_direction, decode_packet, latest_sample, read_f32,
    read_u32, receiver_loop, receiver_not_spawned, sequence_is_newer, start_receiver,
    stop_receiver, MeasuredDirection, PacketFilter, PacketOutcome, Receiver, ReceiverAction,
    ReceiverEvent, StopPhase,
};
use gaze_foveation::projection::Vec3;

fn number(value: f32) -> Binary32 {
    Binary32 { bits: value.to_bits() }
}

fn vector(x: f32, y: f32, z: f32) -> Vec3 {
    Vec3 { x: number(x), y: number(y), z: number(z) }
}

fn measure(direction: Vec3) -> MeasuredDirection {
    let x = f32::from_bits(direction.x.bits);
    let y = f32::from_bits(direction.y.bits);
    let z = f32::from_bits(direction.z.bits);
    let length_squared = x * x + y * y + z * z;
    let scale = 1.0 / length_squared.sqrt();
    MeasuredDirection {
        length_squared: number(length_squared),
        normalized: if scale.is_finite() && scale > 0.0 {
            Some(vector(x * scale, y * scale, z * scale))
        } else {
            None
        },
    }
}

fn packet(
    mode: u8,
    mask: u8,
    sequence: u32,
    age_micros: u32,
    first: [f32; 3],
    right: [f32; 3],
) -> Vec<u8> {
    let mut bytes = Vec::new();
    bytes.extend_from_slice(b"AGAZ");
    bytes.extend_from_slice(&[1, mode, mask, 0]);
    bytes.extend_from_slice(&sequence.to_le_bytes());
    bytes.extend_from_slice(&age_micros.to_le_bytes());
    for value in first.iter().chain(right.iter()) {
        bytes.extend_from_slice(&value.to_le_bytes());
    }
    bytes
}

const FORWARD: [f32; 3] = [0.0, 0.0, -1.0];
const RIGHTWARD: [f32; 3] = [0.6, 0.0, -0.8];

fn valid_packet() -> Vec<u8> {
    packet(1, 0b11, 7, 2_500, FORWARD, RIGHTWARD)
}

fn rejected(bytes: &[u8]) -> bool {
    decode_packet(bytes, &measure).is_none()
}

#[test]
fn numbers_are_little_endian() {
    let bytes = [9, 0x78, 0x56, 0x34, 0x12];
    assert_eq!(read_u32(&bytes, 1), Some(0x1234_5678));
    assert_eq!(read_u32(&bytes, 2), None);
    assert_eq!(read_u32(&[], 0), None);
    let one = 1.0_f32.to_le_bytes();
    assert_eq!(read_f32(&one, 0), Some(number(1.0)));
    assert_eq!(read_f32(&one, 1), None);
}

#[test]
fn per_eye_packet_decodes() {
    let sample = decode_packet(&valid_packet(), &measure).unwrap();
    assert_eq!(sample.sequence, 7);
    assert_eq!(sample.source_age, Duration::from_micros(2_500));
    assert_eq!(sample.directions[0], vector(0.0, 0.0, -1.0));
    let right = sample.directions[1];
    assert!((f32::from_bits(right.x.bits) - 0.6).abs() < 1e-6);
    assert!((f32::from_bits(right.z.bits) + 0.8).abs() < 1e-6);
}

#[test]
fn combined_packet_gives_both_eyes_the_first_direction() {
    let sample = decode_packet(&packet(0, 0b01, 1, 0, FORWARD, [9.0; 3]), &measure).unwrap();
    assert_eq!(sample.directions, [vector(0.0, 0.0, -1.0); 2]);
}

#[test]
fn one_valid_eye_stands_in_for_the_other() {
    let left_only = decode_packet(&packet(1, 0b01, 1, 0, FORWARD, [9.0; 3]), &measure).unwrap();
    assert_eq!(left_only.directions, [vector(0.0, 0.0, -1.0); 2]);
    let right_only = decode_packet(&packet(1, 0b10, 1, 0, [9.0; 3], FORWARD), &measure).unwrap();
    assert_eq!(right_only.directions, [vector(0.0, 0.0, -1.0); 2]);
}

#[test]
fn bytes_of_an_unnamed_direction_never_matter() {
    let decoded = |bytes: Vec<u8>| {
        let sample = decode_packet(&bytes, &measure).unwrap();
        (sample.sequence, sample.source_age, sample.directions)
    };
    for other in [[0.0; 3], [f32::NAN; 3], [f32::INFINITY, 1.0, 2.0], FORWARD] {
        for mode in [0, 1] {
            assert_eq!(
                decoded(packet(mode, 0b01, 3, 4, RIGHTWARD, other)),
                decoded(packet(mode, 0b01, 3, 4, RIGHTWARD, RIGHTWARD))
            );
        }
        assert_eq!(
            decoded(packet(1, 0b10, 3, 4, other, RIGHTWARD)),
            decoded(packet(1, 0b10, 3, 4, RIGHTWARD, RIGHTWARD))
        );
        assert!(rejected(&packet(1, 0b01, 3, 100_001, RIGHTWARD, other)));
    }
}

#[test]
fn header_errors_are_rejected() {
    assert!(!rejected(&valid_packet()));
    assert!(rejected(&[]));
    assert!(rejected(&valid_packet()[..39]));
    let mut longer = valid_packet();
    longer.push(0);
    assert!(rejected(&longer));
    for (offset, value) in [
        (0, b'B'),
        (1, b'g'),
        (2, 0),
        (3, b'A'),
        (4, 0),
        (4, 2),
        (5, 2),
        (5, 0),
        (6, 0),
        (6, 0b100),
        (6, 0b111),
        (7, 1),
    ] {
        let mut bytes = valid_packet();
        bytes[offset] = value;
        assert!(rejected(&bytes), "byte {} set to {}", offset, value);
    }
}

#[test]
fn combined_mode_takes_only_the_first_bit() {
    assert!(!rejected(&packet(0, 0b01, 1, 0, FORWARD, FORWARD)));
    assert!(rejected(&packet(0, 0b10, 1, 0, FORWARD, FORWARD)));
    assert!(rejected(&packet(0, 0b11, 1, 0, FORWARD, FORWARD)));
}

#[test]
fn stale_packets_are_rejected() {
    assert!(!rejected(&packet(1, 0b11, 1, 100_000, FORWARD, FORWARD)));
    assert!(rejected(&packet(1, 0b11, 1, 100_001, FORWARD, FORWARD)));
    assert!(rejected(&packet(1, 0b11, 1, u32::MAX, FORWARD, FORWARD)));
}

#[test]
fn either_bad_direction_rejects_a_per_eye_packet() {
    assert!(rejected(&packet(1, 0b11, 1, 0, FORWARD, [0.0; 3])));
    assert!(rejected(&packet(1, 0b11, 1, 0, [0.0; 3], FORWARD)));
    assert!(rejected(&packet(1, 0b01, 1, 0, [f32::NAN, 0.0, -1.0], FORWARD)));
    assert!(rejected(&packet(1, 0b10, 1, 0, FORWARD, [0.0, f32::INFINITY, 0.0])));
}

#[test]
fn direction_length_is_checked_like_floating_point_does() {
    let unit = vector(0.0, 0.0, -1.0);
    let check = |length_squared: f32| {
        let measured = MeasuredDirection {
            length_squared: number(length_squared),
            normalized: Some(unit),
        };
        let expected = length_squared.is_finite() && (length_squared - 1.0).abs() <= 0.02;
        let found = accept_direction(measured);
        assert_eq!(found.is_some(), expected, "{}", length_squared);
        assert_eq!(found, if expected { Some(unit) } else { None });
    };
    for value in [
        0.0,
        -0.0,
        -1.0,
        0.5,
        1.0,
        2.0,
        1e-45,
        f32::MAX,
        f32::INFINITY,
        f32::NEG_INFINITY,
        f32::NAN,
    ] {
        check(value);
    }
    for near in [0.98_f32, 1.02_f32, 0.97, 1.03] {
        for bits in near.to_bits() - 200..near.to_bits() + 200 {
            check(f32::from_bits(bits));
        }
    }
    assert_eq!(
        accept_direction(MeasuredDirection { length_squared: number(1.0), normalized: None }),
        None
    );
}

#[test]
fn directions_are_read_by_index() {
    let bytes = valid_packet();
    assert_eq!(decode_direction(&bytes, 0, &measure), Some(vector(0.0, 0.0, -1.0)));
    assert!(decode_direction(&bytes, 1, &measure).is_some());
    assert_eq!(decode_direction(&bytes, 2, &measure), None);
    assert_eq!(decode_direction(&bytes[..39], 1, &measure), None);
}

#[test]
fn sequence_numbers_wrap() {
    assert!(sequence_is_newer(1, 0));
    assert!(!sequence_is_newer(0, 0));
    assert!(!sequence_is_newer(0, 1));
    assert!(sequence_is_newer(0, u32::MAX));
    assert!(!sequence_is_newer(u32::MAX, 0));
    assert!(sequence_is_newer(0x7fff_ffff, 0));
    assert!(!sequence_is_newer(0x8000_0000, 0));
    assert!(!sequence_is_newer(0, 0x8000_0000));
}

fn receive(
    filter: &mut PacketFilter,
    receiver: &mut Receiver,
    sequence: u32,
    now_millis: u64,
) -> PacketOutcome {
    let bytes = packet(1, 0b11, sequence, 0, FORWARD, FORWARD);
    filter.receive_packet(
        &mut receiver.latest,
        &bytes,
        Duration::from_millis(now_millis),
        &measure,
    )
}

#[test]
fn late_and_repeated_packets_are_ignored() {
    let mut filter = PacketFilter::new();
    let mut receiver = Receiver::new();
    assert_eq!(receive(&mut filter, &mut receiver, 5, 1_000), PacketOutcome::Accepted);
    let before = filter;
    assert_eq!(receive(&mut filter, &mut receiver, 5, 1_001), PacketOutcome::OutOfOrder);
    assert_eq!(receive(&mut filter, &mut receiver, 4, 1_100), PacketOutcome::OutOfOrder);
    assert_eq!(filter, before);
    assert_eq!(receiver.latest.unwrap().received_at, Duration::from_millis(1_000));
    assert_eq!(receive(&mut filter, &mut receiver, 6, 1_100), PacketOutcome::Accepted);
    assert_eq!(receiver.latest.unwrap().received_at, Duration::from_millis(1_100));
}

#[test]
fn senders_may_restart_after_a_pause() {
    let mut filter = PacketFilter::new();
    let mut receiver = Receiver::new();
    assert_eq!(receive(&mut filter, &mut receiver, 500, 1_000), PacketOutcome::Accepted);
    assert_eq!(receive(&mut filter, &mut receiver, 1, 1_100), PacketOutcome::OutOfOrder);
    assert_eq!(receive(&mut filter, &mut receiver, 1, 1_101), PacketOutcome::Accepted);
    assert_eq!(filter.last_sequence, Some(1));
}

#[test]
fn malformed_packets_are_warned_about_once_a_second() {
    let mut filter = PacketFilter::new();
    let mut latest = None;
    let mut at = |millis: u64| {
        filter.receive_sample(&mut latest, None, Duration::from_millis(millis))
    };
    assert_eq!(at(100), PacketOutcome::Malformed { warn: true });
    assert_eq!(at(600), PacketOutcome::Malformed { warn: false });
    assert_eq!(at(1_099), PacketOutcome::Malformed { warn: false });
    assert_eq!(at(1_100), PacketOutcome::Malformed { warn: true });
    assert!(latest.is_none());
    assert_eq!(filter.last_sequence, None);
    assert_eq!(filter.last_accepted_at, None);
}

#[test]
fn latest_sample_is_dated_back_and_expires() {
    let mut filter = PacketFilter::new();
    let mut receiver = Receiver::new();
    let bytes = packet(1, 0b11, 1, 30_000, FORWARD, FORWARD);
    let outcome = filter.receive_packet(
        &mut receiver.latest,
        &bytes,
        Duration::from_millis(1_000),
        &measure,
    );
    assert_eq!(outcome, PacketOutcome::Accepted);
    let reference = Duration::from_millis(5_000);
    let now = latest_sample(&receiver.latest, Duration::from_millis(1_000), reference).unwrap();
    assert_eq!(now.sample_timestamp, Duration::from_millis(4_970));
    assert_eq!(now.directions, [vector(0.0, 0.0, -1.0); 2]);
    let later = latest_sample(&receiver.latest, Duration::from_millis(1_070), reference).unwrap();
    assert_eq!(later.sample_timestamp, Duration::from_millis(4_900));
    assert!(latest_sample(&receiver.latest, Duration::from_millis(1_071), reference).is_none());
    let early = latest_sample(
        &receiver.latest,
        Duration::from_millis(1_000),
        Duration::from_millis(10),
    );
    assert_eq!(early.unwrap().sample_timestamp, Duration::from_nanos(0));
    clear_sample(&mut receiver.latest);
    assert!(latest_sample(&receiver.latest, Duration::from_millis(1_000), reference).is_none());
}

#[test]
fn receiver_starts_once_and_stops_in_two_phases() {
    let mut filter = PacketFilter::new();
    let mut receiver = Receiver::new();
    receive(&mut filter, &mut receiver, 1, 0);
    assert!(start_receiver(&mut receiver));
    assert!(receiver.running);
    assert!(receiver.latest.is_none());
    receive(&mut filter, &mut receiver, 2, 1);
    assert!(!start_receiver(&mut receiver));
    assert!(receiver.running);
    assert!(receiver.latest.is_some());
    stop_receiver(&mut receiver, StopPhase::Requested);
    assert!(!receiver.running);
    assert!(receiver.latest.is_some());
    stop_receiver(&mut receiver, StopPhase::Joined);
    assert!(!receiver.running);
    assert!(receiver.latest.is_none());
    assert!(start_receiver(&mut receiver));
    receiver_not_spawned(&mut receiver);
    assert!(!receiver.running);
}

#[test]
fn receiver_goes_on_until_it_fails_or_is_stopped() {
    let go_on = ReceiverAction { warn_malformed: false, receive_again: true };
    let end = ReceiverAction { warn_malformed: false, receive_again: false };
    let mut filter = PacketFilter::new();
    let mut receiver = Receiver::new();
    start_receiver(&mut receiver);
    assert_eq!(receiver_loop(&mut receiver, &mut filter, ReceiverEvent::Listening, &measure), go_on);
    assert_eq!(receiver_loop(&mut receiver, &mut filter, ReceiverEvent::NoPacket, &measure), go_on);
    let bytes = valid_packet();
    let event = ReceiverEvent::Packet { bytes: &bytes, now: Duration::from_millis(1) };
    assert_eq!(receiver_loop(&mut receiver, &mut filter, event, &measure), go_on);
    assert_eq!(filter.last_sequence, Some(7));
    assert_eq!(receiver.latest.unwrap().received_at, Duration::from_millis(1));
    let bad = ReceiverEvent::Packet { bytes: &bytes[1..], now: Duration::from_millis(2) };
    assert_eq!(
        receiver_loop(&mut receiver, &mut filter, bad, &measure),
        ReceiverAction { warn_malformed: true, receive_again: true }
    );
    assert_eq!(receiver_loop(&mut receiver, &mut filter, bad, &measure), go_on);
    for failure in [
        ReceiverEvent::BindFailed,
        ReceiverEvent::ConfigureFailed,
        ReceiverEvent::ReceiveFailed,
    ] {
        receiver.running = true;
        assert_eq!(receiver_loop(&mut receiver, &mut filter, failure, &measure), end);
        assert!(!receiver.running);
        assert!(receiver.latest.is_some());
    }
    receiver.running = true;
    stop_receiver(&mut receiver, StopPhase::Requested);
    assert_eq!(receiver_loop(&mut receiver, &mut filter, ReceiverEvent::NoPacket, &measure), end);
}
