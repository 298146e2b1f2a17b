use swivel::audio::device::{choose_format, echo_risk, pick_buffer_size, supports_native_rate, BufferChoice, BufferRange, DeviceKind, Direction, EchoRisk, FormatRange};
use swivel::audio::device::in_use;
use swivel::audio::engine::{
    Chirp, Command, Devices, EngineState, SlotCounters, Stats, Step,
};
use swivel::audio::jitter::{target_step, Buffer, Decision, TargetStep};
use swivel::audio::packet::{Activation, Numbering, OutgoingFrame, Packet, SlotOwners};
use swivel::config::{JITTER_MAX_FRAMES, JITTER_MIN_FRAMES, JITTER_SLACK_FRAMES, MAX_PACKET_BYTES, MAX_PEERS};
use swivel::net::audio_wire::{AudioPacket, FLAG_TALKSPURT_START, HEADER_LEN};

fn offered() -> Vec<String> {
    vec!["MacBook Pro Microphone".into(), "Scarlett Solo".into()]
}

#[test]
fn a_stored_device_that_is_here_is_the_one_in_use() {
    let name = in_use(Some("Scarlett Solo"), &offered(), Some("MacBook Pro Microphone"));
    assert_eq!(name.as_deref(), Some("Scarlett Solo"));
}

#[test]
fn a_stored_device_that_went_away_falls_back_to_the_default() {
    let name = in_use(Some("Blue Yeti"), &offered(), Some("MacBook Pro Microphone"));
    assert_eq!(name.as_deref(), Some("MacBook Pro Microphone"));
}

#[test]
fn no_stored_device_is_the_system_default() {
    let name = in_use(None, &offered(), Some("MacBook Pro Microphone"));
    assert_eq!(name.as_deref(), Some("MacBook Pro Microphone"));
}

#[test]
fn a_machine_with_no_device_at_all_has_none_in_use() {
    assert_eq!(in_use(None, &[], None), None);
    assert_eq!(in_use(Some("Blue Yeti"), &[], None), None);
}

fn packet(seq: u16, flags: u8) -> Packet {
    Packet::empty().with_header(seq, seq as u32 * 480, flags)
}

fn feed(buffer: &mut Buffer, seqs: &[u16]) {
    for (i, seq) in seqs.iter().enumerate() {
        let flags = if i == 0 { FLAG_TALKSPURT_START } else { 0 };
        buffer.insert(packet(*seq, flags));
    }
}

#[test]
fn it_primes_before_it_plays() {
    let mut buffer = Buffer::new();
    feed(&mut buffer, &[0]);

    // One packet held, target of two. It waits.
    assert_eq!(buffer.take(2).0, Decision::Prime);

    buffer.insert(packet(1, 0));
    assert_eq!(buffer.take(2).0, Decision::Play);
}

#[test]
fn it_plays_in_order() {
    let mut buffer = Buffer::new();
    feed(&mut buffer, &[0, 1, 2]);

    for expected in 0..3u16 {
        let (decision, packet) = buffer.take(1);
        assert_eq!(decision, Decision::Play);
        assert_eq!(packet.unwrap().seq(), expected);
    }
}

#[test]
fn it_reorders_a_late_arrival() {
    let mut buffer = Buffer::new();
    feed(&mut buffer, &[0]);
    buffer.insert(packet(2, 0));
    // Packet 1 arrives after packet 2.
    buffer.insert(packet(1, 0));

    for expected in 0..3u16 {
        let (_, p) = buffer.take(1);
        assert_eq!(p.unwrap().seq(), expected, "order must be restored");
    }
}

#[test]
fn a_missing_packet_becomes_concealment() {
    let mut buffer = Buffer::new();
    feed(&mut buffer, &[0]);
    buffer.insert(packet(2, 0));

    assert_eq!(buffer.take(1).0, Decision::Play); // 0
    assert_eq!(buffer.take(1).0, Decision::Conceal); // 1 never arrived
    assert_eq!(buffer.conceal_run(), 1);
    assert_eq!(buffer.take(1).0, Decision::Play); // 2
    assert_eq!(buffer.conceal_run(), 0);
}

#[test]
fn a_packet_that_arrives_after_its_turn_is_refused() {
    let mut buffer = Buffer::new();
    feed(&mut buffer, &[0, 1]);
    buffer.take(1);
    buffer.take(1);

    assert!(!buffer.insert(packet(0, 0)), "a played frame cannot return");
}

#[test]
fn the_buffer_does_not_creep_deeper_than_the_target() {
    let mut buffer = Buffer::new();
    feed(&mut buffer, &[0]);
    for seq in 1..20u16 {
        buffer.insert(packet(seq, 0));
    }

    // Play frames until the trim has brought the depth back down.
    let target = 2;
    for _ in 0..20 {
        buffer.take(target);
    }
    assert!(
        buffer.held() <= target + JITTER_SLACK_FRAMES,
        "held {} frames, which is latency creep",
        buffer.held()
    );
}

#[test]
fn a_sequence_wrap_is_handled() {
    let mut buffer = Buffer::new();
    feed(&mut buffer, &[65_534]);
    buffer.insert(packet(65_535, 0));
    buffer.insert(packet(0, 0));
    buffer.insert(packet(1, 0));

    for expected in [65_534u16, 65_535, 0, 1] {
        let (decision, p) = buffer.take(1);
        assert_eq!(decision, Decision::Play, "wrap broke playback at {expected}");
        assert_eq!(p.unwrap().seq(), expected);
    }
}

#[test]
fn a_new_talkspurt_restarts_the_buffer() {
    let mut buffer = Buffer::new();
    feed(&mut buffer, &[0, 1]);
    buffer.take(1);

    // The sender went quiet and came back far ahead.
    buffer.insert(packet(9000, FLAG_TALKSPURT_START));
    let (decision, p) = buffer.take(1);
    assert_eq!(decision, Decision::Play);
    assert_eq!(p.unwrap().seq(), 9000, "a talkspurt must not conceal the gap");
}

#[test]
fn fec_can_see_the_next_packet() {
    let mut buffer = Buffer::new();
    feed(&mut buffer, &[0]);
    buffer.insert(packet(2, 0));
    assert_eq!(buffer.take(1).0, Decision::Play); // 0

    // Frame 1 never arrived. `take` reports the gap and steps past it, so
    // the next packet is now at the play position and Opus can rebuild the
    // lost frame from its in-band FEC.
    assert_eq!(buffer.take(1).0, Decision::Conceal);
    assert_eq!(buffer.peek_next().map(|p| p.seq()), Some(2));
}

#[test]
fn an_empty_buffer_conceals_once_started_and_primes_before() {
    let mut buffer = Buffer::new();
    assert_eq!(buffer.take(1).0, Decision::Prime);
    feed(&mut buffer, &[0]);
    assert_eq!(buffer.take(1).0, Decision::Play);
    assert_eq!(buffer.take(1).0, Decision::Conceal);
    buffer.reset();
    assert_eq!(buffer.held(), 0);
    assert_eq!(buffer.take(1).0, Decision::Prime);
}

#[test]
fn any_target_primes_a_buffer_that_has_not_started() {
    let mut buffer = Buffer::new();
    let (decision, none) = buffer.take(usize::MAX);
    assert_eq!(decision, Decision::Prime);
    assert!(none.is_none());
    feed(&mut buffer, &[0, 1, 2, 3]);
    assert_eq!(buffer.take(1).0, Decision::Play);
    // Once playing, a huge target only means nothing is trimmed.
    let (decision, played) = buffer.take(usize::MAX);
    assert_eq!(decision, Decision::Play);
    assert_eq!(played.unwrap().seq(), 1);
    assert_eq!(buffer.held(), 2);
    buffer.reset();
    let (decision, none) = buffer.take(usize::MAX);
    assert_eq!(decision, Decision::Prime);
    assert!(none.is_none());
}

#[test]
fn a_duplicate_packet_replaces_the_first_and_is_held_once() {
    let mut buffer = Buffer::new();
    assert!(buffer.insert(packet(0, FLAG_TALKSPURT_START)));
    assert!(buffer.insert(packet(0, 0)));
    assert_eq!(buffer.held(), 1);
}

#[test]
fn the_estimator_target_grows_at_once_and_shrinks_by_one() {
    assert_eq!(target_step(5, 2, false), TargetStep::Grow(5));
    assert_eq!(target_step(100, 2, false), TargetStep::Grow(JITTER_MAX_FRAMES as u32));
    assert_eq!(target_step(1, 4, false), TargetStep::Hold);
    assert_eq!(target_step(1, 4, true), TargetStep::Shrink(3));
    assert_eq!(target_step(-7, JITTER_MIN_FRAMES as u32, true), TargetStep::Hold);
    assert_eq!(target_step(3, 3, true), TargetStep::Hold);
}

fn wire_packet(seq: u16, payload: &[u8]) -> Packet {
    Packet::from_wire(&AudioPacket {
        seq,
        timestamp: seq as u32 * 480,
        flags: FLAG_TALKSPURT_START,
        payload,
    })
    .unwrap()
}

#[test]
fn a_packet_keeps_its_payload() {
    let p = wire_packet(3, &[9, 8, 7]);
    assert_eq!(p.seq(), 3);
    assert_eq!(p.timestamp(), 3 * 480);
    assert_eq!(p.payload(), &[9, 8, 7]);
    assert!(!p.is_empty());
}

#[test]
fn an_oversized_payload_is_refused() {
    let big = vec![0u8; MAX_PACKET_BYTES + 1];
    assert!(Packet::from_wire(&AudioPacket {
        seq: 0,
        timestamp: 0,
        flags: 0,
        payload: &big,
    })
    .is_none());
}

fn id(n: u8) -> [u8; 32] {
    [n; 32]
}

fn slot_of(a: Option<Activation>) -> usize {
    match a.unwrap() {
        Activation::Existing(i) | Activation::Fresh(i) => i,
    }
}

#[test]
fn slots_are_handed_out_and_returned() {
    let mut table = SlotOwners::new();

    let a = slot_of(table.activate(id(1)));
    let b = slot_of(table.activate(id(2)));
    assert_ne!(a, b);
    assert_eq!(table.index_of(id(1)), Some(a));
    assert!(table.slot(a).active);

    assert_eq!(table.deactivate(id(1)), Some(a));
    assert_eq!(table.index_of(id(1)), None);
    assert!(!table.slot(a).active);

    // The freed slot is reused.
    assert_eq!(table.activate(id(3)), Some(Activation::Fresh(a)));
}

#[test]
fn activating_twice_keeps_the_same_slot_and_generation() {
    let mut table = SlotOwners::new();
    let first = table.activate(id(1));
    assert!(matches!(first, Some(Activation::Fresh(_))));
    let generation = table.slot(slot_of(first)).generation;

    let second = table.activate(id(1));

    // The same slot, and not a fresh one: the stream is not reset.
    assert_eq!(second, Some(Activation::Existing(slot_of(first))));
    assert_eq!(
        table.slot(slot_of(first)).generation,
        generation,
        "reactivating a peer must not reset its stream"
    );
}

#[test]
fn reassigning_a_slot_bumps_the_generation() {
    let mut table = SlotOwners::new();
    let index = slot_of(table.activate(id(1)));
    let before = table.slot(index).generation;

    table.deactivate(id(1));
    let same = table.activate(id(2));

    // A new owner gets the slot fresh, which throws away the old stream.
    assert_eq!(same, Some(Activation::Fresh(index)));
    assert!(table.slot(index).generation > before);
}

#[test]
fn a_slot_given_to_a_new_owner_starts_over() {
    let mut table = SlotOwners::new();
    let idle = table.slot(0);
    assert!(!idle.active);
    assert_eq!((idle.generation, idle.target_frames), (0, 2));
    assert_eq!((idle.concealed, idle.late, idle.overrun), (0, 0, 0));

    assert_eq!(table.activate(id(1)), Some(Activation::Fresh(0)));
    let fresh = table.slot(0);
    assert!(fresh.active);
    assert_eq!((fresh.generation, fresh.target_frames), (1, 2));
    assert_eq!((fresh.concealed, fresh.late, fresh.overrun), (0, 0, 0));

    // Leaving bumps the generation again; the other slots are untouched.
    table.deactivate(id(1));
    assert_eq!(table.slot(0).generation, 2);
    assert!(!table.slot(0).active);
    assert_eq!(table.slot(1), idle);

    // Clearing retires only the slots that had an owner.
    table.activate(id(2));
    table.activate(id(3));
    table.clear();
    assert_eq!((table.slot(0).generation, table.slot(0).active), (4, false));
    assert_eq!((table.slot(1).generation, table.slot(1).active), (2, false));
    assert_eq!(table.slot(2), idle);
}

#[test]
fn the_table_runs_out_gracefully() {
    let mut table = SlotOwners::new();
    for n in 1..=MAX_PEERS as u8 {
        assert!(table.activate(id(n)).is_some());
    }
    assert_eq!(table.activate(id(200)), None);

    let freed = table.clear();
    assert_eq!(freed.len(), MAX_PEERS);
    assert!(table.active_peers().is_empty());
    assert!(table.activate(id(200)).is_some());
}

#[test]
fn active_peers_come_in_slot_order() {
    let mut table = SlotOwners::new();
    table.activate(id(1));
    table.activate(id(2));
    table.activate(id(3));
    table.deactivate(id(2));
    assert_eq!(table.active_peers(), vec![id(1), id(3)]);
    assert_eq!(table.clear(), vec![0, 2]);
}

#[test]
fn the_engine_state_round_trips_through_its_code() {
    for s in [EngineState::Idle, EngineState::Listening, EngineState::Live] {
        assert_eq!(EngineState::from_code(s.code()), s);
    }
    assert_eq!(EngineState::Live.code(), 2);
    assert_eq!(EngineState::from_code(77), EngineState::Idle);
}

#[test]
fn arming_opens_the_microphone_once() {
    let d = Devices::started(true);
    assert_eq!(d.state, EngineState::Listening);
    assert_eq!(d.plan(Command::Arm), vec![Step::OpenMicrophone]);
    let s = d.settle(Command::Arm, true, false);
    assert!(s.devices.microphone && s.devices.armed);
    assert!(s.rebuild_report);
    assert_eq!(s.devices.plan(Command::Arm), Vec::new());
}

#[test]
fn a_microphone_that_will_not_open_chirps() {
    let d = Devices::started(true);
    let s = d.settle(Command::Arm, false, false);
    assert_eq!(s.fault, Some(Chirp::Fault));
    assert!(!s.devices.microphone && !s.devices.armed);
}

#[test]
fn transmitting_goes_live_and_disarming_returns_to_listening() {
    let d = Devices::started(true).settle(Command::Arm, true, false).devices;
    let live = d.settle(Command::Transmit(true), false, false).devices;
    assert_eq!(live.state, EngineState::Live);
    assert!(live.transmitting);
    assert_eq!(live.plan(Command::Disarm), vec![Step::CloseMicrophone]);
    let rest = live.settle(Command::Disarm, false, false).devices;
    assert_eq!(rest.state, EngineState::Listening);
    assert!(!rest.microphone && !rest.transmitting && !rest.armed);
}

#[test]
fn reopening_rebuilds_the_speaker_and_shutdown_stops() {
    let d = Devices::started(false).settle(Command::Arm, true, false).devices;
    assert_eq!(d.state, EngineState::Idle);
    assert_eq!(
        d.plan(Command::Reopen),
        vec![Step::CloseSpeaker, Step::NewSlotTable, Step::OpenSpeaker, Step::CloseMicrophone]
    );
    let r = d.settle(Command::Reopen, false, true).devices;
    assert!(r.speaker && !r.microphone && !r.armed);
    assert_eq!(r.state, EngineState::Listening);
    assert_eq!(r.plan(Command::Shutdown), vec![Step::ClearSlots, Step::CloseSpeaker]);
    let s = r.settle(Command::Shutdown, false, false);
    assert!(s.stop);
    assert_eq!(s.devices.state, EngineState::Idle);
    assert_eq!(Devices::started(true).plan(Command::Chirp(Chirp::Fault)), vec![Step::PlayChirp(Chirp::Fault)]);
}

#[test]
fn stats_sum_every_slot() {
    let slots = [
        SlotCounters { played: 10, concealed: 1, late: 0, overrun: 2 },
        SlotCounters { played: 5, concealed: 0, late: 3, overrun: 0 },
    ];
    let s = Stats::collect(7, 1, 0, &slots);
    assert_eq!(
        s,
        Stats { encoded: 7, send_dropped: 1, encode_errors: 0, played: 15, concealed: 1, late: 3, overrun: 2 }
    );
}

#[test]
fn an_outgoing_frame_holds_a_full_packet() {
    let mut frame = OutgoingFrame::empty();
    assert!(frame.wire().is_empty());
    let payload = vec![7u8; MAX_PACKET_BYTES];

    let n = frame
        .encode(1, 480, FLAG_TALKSPURT_START, &payload)
        .expect("the buffer must fit the largest packet the codec can make");
    assert_eq!(n, frame.wire().len());
    assert_eq!(frame.wire().len(), HEADER_LEN + MAX_PACKET_BYTES);

    let parsed = AudioPacket::decode(frame.wire()).unwrap();
    assert_eq!(parsed.seq, 1);
    assert_eq!(parsed.payload.len(), MAX_PACKET_BYTES);
    assert!(parsed.is_talkspurt_start());

    // A payload too large for any packet leaves the frame as it was.
    let before = frame.wire().to_vec();
    assert!(frame.encode(2, 960, 0, &vec![0u8; MAX_PACKET_BYTES + 1]).is_err());
    assert_eq!(frame.wire(), before.as_slice());
}

#[test]
fn only_the_first_frame_after_silence_starts_a_talkspurt() {
    let mut n = Numbering::new();
    assert_eq!(n.header(), (0, 0, FLAG_TALKSPURT_START));
    n.advance();
    assert_eq!(n.header(), (1, 480, 0));
    n.silence();
    n.advance();
    assert_eq!(n.header(), (2, 960, FLAG_TALKSPURT_START));
    let mut w = Numbering { seq: u16::MAX, timestamp: u32::MAX - 10, talking: true };
    w.advance();
    assert_eq!((w.seq, w.timestamp), (0, 469));
}

#[test]
fn audio_from_a_peer_outside_the_session_is_dropped() {
    let mut table = SlotOwners::new();
    table.activate(id(1));
    table.activate(id(2));
    let payload = [1u8, 2, 3];
    let datagram = AudioPacket { seq: 9, timestamp: 9 * 480, flags: 0, payload: &payload };
    let (slot, p) = table.route(id(2), &datagram).unwrap();
    assert_eq!(slot, 1);
    assert_eq!(p.seq(), 9);
    assert_eq!(p.payload(), &payload);
    assert!(table.route(id(3), &datagram).is_none());
    let big = vec![0u8; MAX_PACKET_BYTES + 1];
    let oversized = AudioPacket { seq: 1, timestamp: 0, flags: 0, payload: &big };
    assert!(table.route(id(1), &oversized).is_none());
}

#[test]
fn only_a_real_speaker_is_an_echo_risk() {
    assert_eq!(echo_risk(Direction::Output, DeviceKind::Speaker), EchoRisk::Likely);
    assert_eq!(echo_risk(Direction::Output, DeviceKind::Headset), EchoRisk::Unlikely);
    assert_eq!(echo_risk(Direction::Output, DeviceKind::Other), EchoRisk::Unknown);
    assert_eq!(echo_risk(Direction::Input, DeviceKind::Speaker), EchoRisk::Unlikely);
}

#[test]
fn the_native_rate_is_preferred_and_the_buffer_held_to_its_range() {
    let slow = FormatRange { min_rate: 8_000, max_rate: 16_000, channels: 1, buffer: None };
    let fast = FormatRange { min_rate: 44_100, max_rate: 96_000, channels: 0, buffer: Some(BufferRange { min: 512, max: 4096 }) };
    let c = choose_format(&[slow, fast]).unwrap();
    assert_eq!((c.index, c.rate, c.native, c.channels), (1, 48_000, true, 1));
    assert_eq!(c.buffer, BufferChoice::Fixed(512));
    // No format runs at 48 kHz: the highest rate wins, the last of equals.
    let a = FormatRange { min_rate: 8_000, max_rate: 32_000, channels: 2, buffer: Some(BufferRange { min: 16, max: 1024 }) };
    let c = choose_format(&[slow, a, a]).unwrap();
    assert_eq!((c.index, c.rate, c.native), (2, 32_000, false));
    assert_eq!(c.buffer, BufferChoice::Fixed(256));
    assert_eq!(choose_format(&[]), None);
    assert!(supports_native_rate(&[slow, fast]));
    assert!(!supports_native_rate(&[slow]));
    assert_eq!(pick_buffer_size(Some(BufferRange { min: 16, max: 128 })), BufferChoice::Fixed(128));
    assert_eq!(pick_buffer_size(None), BufferChoice::Default);
}

#[test]
fn nothing_but_arming_or_talking_opens_the_microphone() {
    for speaker in [false, true] {
        let d = Devices::started(speaker);
        for command in [
            Command::Transmit(false),
            Command::Disarm,
            Command::Chirp(Chirp::Fault),
            Command::Reopen,
            Command::Shutdown,
        ] {
            assert!(!d.plan(command).contains(&Step::OpenMicrophone));
            assert!(!d.settle(command, true, true).devices.microphone);
        }
        assert_eq!(d.plan(Command::Arm), vec![Step::OpenMicrophone]);
        assert_eq!(d.plan(Command::Transmit(true)), vec![Step::OpenMicrophone]);
    }
}

#[test]
fn with_nothing_arriving_the_buffer_drains() {
    let mut buffer = Buffer::new();
    let seqs: Vec<u16> = (0..12).collect();
    feed(&mut buffer, &seqs);
    for _ in 0..16 {
        buffer.take(2);
    }
    assert_eq!(buffer.held(), 0);
    // A buffer still waiting for its target holds fewer than the target.
    let mut waiting = Buffer::new();
    feed(&mut waiting, &[0]);
    for _ in 0..16 {
        assert_eq!(waiting.take(3).0, Decision::Prime);
    }
    assert_eq!(waiting.held(), 1);
}
