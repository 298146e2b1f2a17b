use swivel::net::peer::{offer, Held, Offer};
use swivel::net::peer::Redial;
use swivel::config::{MAX_MESSAGE, MAX_PACKET_BYTES, PROTOCOL_VERSION};
use swivel::net::audio_wire::{
    seq_delta, seq_newer, AudioPacket, WireError, FLAG_TALKSPURT_START, HEADER_LEN, VERSION,
};
use swivel::net::control::{clean_name, frame_header, frame_length, Control, FrameError, Reaction};
use swivel::net::peer::{
    backoff_for, dialer_of, BackoffJitter, JITTER_SEED, keep_existing, key_at_most, path_kind, PathInfo, rtt_from_stored, rtt_to_stored, xorshift,
    RTT_UNMEASURED,
};
use swivel::state::PathKind;

fn id(n: u8) -> [u8; 32] {
    ed25519_dalek::SigningKey::from_bytes(&[n; 32]).verifying_key().to_bytes()
}

#[test]
fn a_packet_survives_a_round_trip() {
    let payload = [1u8, 2, 3, 4, 5];
    let mut buf = [0u8; 64];
    let n = AudioPacket::encode_into(7, 480 * 7, FLAG_TALKSPURT_START, &payload, &mut buf).unwrap();
    assert_eq!(n, HEADER_LEN + payload.len());

    let p = AudioPacket::decode(&buf[..n]).unwrap();
    assert_eq!(p.seq, 7);
    assert_eq!(p.timestamp, 480 * 7);
    assert_eq!(p.payload, &payload);
    assert!(p.is_talkspurt_start());
}

#[test]
fn a_short_datagram_is_refused() {
    assert_eq!(AudioPacket::decode(&[]).unwrap_err(), WireError::TooShort);
    assert_eq!(AudioPacket::decode(&[0u8; 7]).unwrap_err(), WireError::TooShort);
    // A header with no payload carries no audio.
    let mut buf = [0u8; 8];
    buf[0] = (VERSION << 4) | 1;
    assert_eq!(AudioPacket::decode(&buf).unwrap_err(), WireError::TooShort);
}

#[test]
fn a_future_version_is_refused_not_misread() {
    let mut buf = [0u8; 16];
    buf[0] = (9 << 4) | 1;
    assert_eq!(AudioPacket::decode(&buf).unwrap_err(), WireError::UnknownVersion(9));
}

#[test]
fn an_unknown_kind_is_refused() {
    let mut buf = [0u8; 16];
    buf[0] = (VERSION << 4) | 7;
    assert_eq!(AudioPacket::decode(&buf).unwrap_err(), WireError::UnknownKind(7));
}

#[test]
fn an_oversized_payload_is_refused_at_both_ends() {
    let payload = vec![0u8; MAX_PACKET_BYTES + 1];
    let mut buf = vec![0u8; MAX_PACKET_BYTES + 64];
    assert_eq!(
        AudioPacket::encode_into(0, 0, 0, &payload, &mut buf).unwrap_err(),
        WireError::PayloadTooLarge
    );

    let mut wire = vec![0u8; HEADER_LEN + MAX_PACKET_BYTES + 1];
    wire[0] = (VERSION << 4) | 1;
    assert_eq!(AudioPacket::decode(&wire).unwrap_err(), WireError::PayloadTooLarge);
}

#[test]
fn a_small_buffer_is_refused() {
    let mut buf = [0u8; 4];
    assert_eq!(
        AudioPacket::encode_into(0, 0, 0, &[1, 2, 3], &mut buf).unwrap_err(),
        WireError::BufferTooSmall
    );
}

#[test]
fn sequence_comparison_survives_a_wrap() {
    assert!(seq_newer(5, 4));
    assert!(!seq_newer(4, 5));
    assert!(!seq_newer(5, 5));

    // Across the wrap point 65535 -> 0.
    assert!(seq_newer(0, 65_535));
    assert!(seq_newer(3, 65_530));
    assert!(!seq_newer(65_535, 0));
}

#[test]
fn sequence_distance_survives_a_wrap() {
    assert_eq!(seq_delta(10, 7), 3);
    assert_eq!(seq_delta(7, 10), -3);
    assert_eq!(seq_delta(2, 65_535), 3);
    assert_eq!(seq_delta(65_535, 2), -3);
    assert_eq!(seq_delta(0, 0), 0);
}

#[test]
fn a_timestamp_wrap_is_representable() {
    // A u32 of samples at 48 kHz wraps after about 24.8 hours. Confirm the
    // encoder does not clamp it.
    let mut buf = [0u8; 16];
    let n = AudioPacket::encode_into(0, u32::MAX, 0, &[9], &mut buf).unwrap();
    assert_eq!(AudioPacket::decode(&buf[..n]).unwrap().timestamp, u32::MAX);
}

#[test]
fn a_packet_is_written_little_endian() {
    let mut buf = [0u8; 16];
    let n = AudioPacket::encode_into(0x0102, 0x0304_0506, 0, &[0xaa], &mut buf).unwrap();
    assert_eq!(&buf[..n], &[0x11, 0, 0x02, 0x01, 0x06, 0x05, 0x04, 0x03, 0xaa]);
}

#[test]
fn members_convert_both_ways() {
    let ids = vec![id(1), id(2), id(3)];
    let wire = Control::ids_as_members(ids.clone());
    assert_eq!(Control::members_as_ids(&wire), ids);
}

#[test]
fn a_bad_member_is_skipped_not_fatal() {
    let mut wire = Control::ids_as_members(vec![id(1)]);
    // [2; 32] does not decompress to a point on the curve.
    assert!(ed25519_dalek::VerifyingKey::from_bytes(&[2u8; 32]).is_err());
    wire.push([2u8; 32]);
    wire.push(id(2));

    let parsed = Control::members_as_ids(&wire);
    assert_eq!(parsed, vec![id(1), id(2)]);
}

#[test]
fn a_hostile_name_is_cleaned() {
    let cleaned = clean_name(&format!("a\nb\u{0}{}", "x".repeat(100)));
    assert!(cleaned.len() <= 40);
    assert!(!cleaned.contains('\n'));
    assert!(cleaned.starts_with("abxxx"));
    assert_eq!(cleaned.chars().count(), 40);
}

#[test]
fn a_frame_length_round_trips() {
    assert_eq!(frame_header(300), Ok([44, 1]));
    assert_eq!(frame_length([44, 1]), Ok(300));
    assert_eq!(frame_header(0), Ok([0, 0]));
    assert_eq!(frame_header(MAX_MESSAGE + 1), Err(FrameError::TooLarge));
    assert_eq!(frame_length([0, 0]), Err(FrameError::Empty));
    assert_eq!(frame_length([0xff, 0xff]), Err(FrameError::ClaimsTooMuch(0xffff)));
}

#[test]
fn a_ping_is_answered_and_a_hello_claims_a_clean_name() {
    assert!(matches!(Control::Ping { nonce: 9 }.reaction(), Reaction::Pong(9)));
    assert!(matches!(Control::Pong { nonce: 4 }.reaction(), Reaction::ProbeAnswered(4)));
    match (Control::Hello { name: "Ma\u{7}ggie".into(), version: PROTOCOL_VERSION + 1 }).reaction() {
        Reaction::ClaimName { name, other_version } => {
            assert_eq!(name, "Maggie");
            assert!(other_version);
        }
        other => panic!("unexpected {other:?}"),
    }
    assert!(matches!(
        (Control::Presence { available: true, dnd: true, muted: false }).reaction(),
        Reaction::SetPresence { dnd: true, muted: false }
    ));
    assert!(matches!(Control::SessionClose { session: 1 }.reaction(), Reaction::Ignore));
}

#[test]
fn the_tie_break_picks_the_same_connection_on_both_sides() {
    let a = id(1);
    let b = id(2);

    // Side A holds: one it dialled, one B dialled.
    let a_dialed = dialer_of(true, a, b);
    let a_accepted = dialer_of(false, a, b);
    let a_keeps_own = key_at_most(&a_dialed, &a_accepted);

    // Side B holds the mirror image.
    let b_dialed = dialer_of(true, b, a);
    let b_accepted = dialer_of(false, b, a);
    let b_keeps_own = key_at_most(&b_dialed, &b_accepted);

    // Exactly one side keeps the connection it dialled.
    assert!(a_keeps_own != b_keeps_own, "the rule must pick one dialer, not both");
    assert_eq!(keep_existing(true, false, a, b), a_keeps_own);
    assert_eq!(a_keeps_own, a_dialed <= a_accepted);
}

#[test]
fn backoff_grows_and_then_holds() {
    let table = [1u64, 2, 5, 15, 30];
    let first = backoff_for(0, u64::MAX);
    let last = backoff_for(table.len() * 4, u64::MAX);

    assert!(first >= table[0] * 1000);
    assert!(first < table[1] * 1000);

    let cap = table[table.len() - 1] * 1000;
    assert!(last >= cap);
    assert!(last <= cap + cap / 5);
    assert_eq!(backoff_for(2, 0), 5000);
}

#[test]
fn backoff_jitter_is_not_constant() {
    let mut jitter = BackoffJitter::new();
    let samples: Vec<u64> = (0..8).map(|_| jitter.backoff(2)).collect();
    let all_same = samples.windows(2).all(|w| w[0] == w[1]);
    assert!(!all_same, "jitter must vary or peers reconnect in lockstep");
}

#[test]
fn rtt_starts_unmeasured() {
    assert_eq!(rtt_from_stored(RTT_UNMEASURED), None);
    let stored = rtt_to_stored(17);
    assert_eq!(rtt_from_stored(stored), Some(17));
    assert_eq!(rtt_to_stored(u128::MAX), RTT_UNMEASURED - 1);
}

#[test]
fn path_defaults_to_unknown() {
    let stored = PathKind::Unknown.code();
    assert_eq!(PathKind::from_code(stored), PathKind::Unknown);
    let stored = PathKind::Relay.code();
    assert_eq!(PathKind::from_code(stored), PathKind::Relay);
    assert_eq!(PathKind::Direct.short(), "DIR");
}

#[test]
fn the_selected_path_is_the_one_reported() {
    let relay = PathInfo { ip: false, relay: true, selected: false };
    let direct_selected = PathInfo { ip: true, relay: false, selected: true };
    let odd = PathInfo { ip: false, relay: false, selected: false };
    // A relay held open as a standby is not reported while a direct path carries the traffic.
    assert_eq!(path_kind(&[relay, direct_selected]), PathKind::Direct);
    // With nothing selected, the first known kind stands in.
    assert_eq!(path_kind(&[odd, relay]), PathKind::Relay);
    assert_eq!(path_kind(&[odd]), PathKind::Unknown);
    assert_eq!(path_kind(&[]), PathKind::Unknown);
    let odd_selected = PathInfo { ip: false, relay: false, selected: true };
    assert_eq!(path_kind(&[relay, odd_selected]), PathKind::Unknown);
}

#[test]
fn a_failed_dial_waits_longer_until_connected() {
    let mut r = Redial::new();
    assert_eq!(r.failed(0), 1000);
    assert_eq!(r.failed(0), 2000);
    assert_eq!(r.failed(0), 5000);
    r.connected();
    assert_eq!(r.attempt, 0);
    assert_eq!(r.failed(0), 1000);
    let mut worn = Redial { attempt: usize::MAX };
    assert_eq!(worn.failed(0), 30_000);
    assert_eq!(worn.attempt, usize::MAX);
}

#[test]
fn a_live_duplicate_is_settled_by_the_smaller_dialer() {
    let a = id(1);
    let b = id(2);
    let (small, large) = if a <= b { (a, b) } else { (b, a) };
    // The small side holds the connection it dialled; the large side's dial arrives.
    assert_eq!(offer(Some(Held { alive: true, dialed_by_me: true }), false, small, large), Offer::Refuse);
    // The large side holds its own dial; the small side's dial replaces it.
    assert_eq!(
        offer(Some(Held { alive: true, dialed_by_me: true }), false, large, small),
        Offer::Take { close_held: true }
    );
    assert_eq!(offer(Some(Held { alive: false, dialed_by_me: true }), false, large, small), Offer::Take { close_held: false });
    assert_eq!(offer(None, true, a, b), Offer::Take { close_held: false });
}

#[test]
fn the_jitter_generator_moves_from_its_seed() {
    let mut jitter = BackoffJitter::new();
    assert_eq!(jitter.state, JITTER_SEED);
    assert_eq!(jitter.backoff(2), 5497);
    assert_eq!(jitter.state, 0x7f6c_280b_eaa8_e3e7);
    assert_eq!(jitter.backoff(2), 5892);
    assert_eq!(xorshift(JITTER_SEED), 0x7f6c_280b_eaa8_e3e7);
}
