use swivel::cli::device_rows;
use swivel::cli::{contact_row, knock_row};
use swivel::cli::update::tag_from_redirect;
use swivel::cli::fmt::{bottom, label, now_secs, relative_time, relative_time_at, top, width, Table};
use swivel::cli::resolve_device;
use swivel::cli::tui::{presence, render, render_table};
use swivel::cli::update::{
    file_with_sig_extension, is_newer, new_signing_key, release_key, release_signature, signing_key_texts, CURRENT, parse_version, update_available, verify_release, UpdateError,
};
use ed25519_dalek::Signer;
use swivel::cli::DeviceChoiceError;
use swivel::state::{AudioCounters, KnockView, MicState, PathKind, PeerView, UiState};

#[test]
fn relative_time_reads_naturally() {
    let now = now_secs();
    assert_eq!(relative_time(now), "just now");
    assert_eq!(relative_time(now - 120), "2m ago");
    assert_eq!(relative_time(now - 7_200), "2h ago");
    assert_eq!(relative_time(now - 86_400 * 3), "3d ago");
}

#[test]
fn relative_time_at_covers_every_range() {
    assert_eq!(relative_time_at(1_000, 2_000), "in the future");
    assert_eq!(relative_time_at(1_000, 1_000 - 59), "just now");
    assert_eq!(relative_time_at(100_000_000, 100_000_000 - 86_400 * 31), "long ago");
    assert_eq!(relative_time_at(i64::MAX, i64::MIN), "long ago");
    assert_eq!(relative_time_at(i64::MIN, i64::MAX), "in the future");
}

#[test]
fn a_box_top_is_the_width_asked_for() {
    let line = top("YOUR KEY", 40);
    assert_eq!(width(&line), 40);
    assert!(line.starts_with("┌─ YOUR KEY "));
    assert!(line.ends_with('┐'));
}

#[test]
fn a_long_label_does_not_panic() {
    let line = top(&"X".repeat(80), 40);
    assert!(line.ends_with('┐'));
}

#[test]
fn a_box_bottom_and_a_rule_have_their_widths() {
    assert_eq!(bottom(5), "└───┘");
    assert_eq!(bottom(0), "└┘");
    let rule = label("CONTACTS");
    assert_eq!(width(&rule), 70);
    assert!(rule.starts_with("  CONTACTS ─"));
}

#[test]
fn a_table_lines_up_its_columns() {
    let mut table = Table::new(&["A", "NAME"]);
    table.row(vec!["long cell".to_string(), "x".to_string()]);
    table.row(vec!["b".to_string(), "y".to_string()]);
    assert_eq!(table.widths(), vec![9, 4]);
    let lines = table.render("  ");
    assert_eq!(lines, vec!["  A          NAME", "  long cell  x", "  b          y"]);
    assert_eq!(render_table(&table), "  A          NAME\n  long cell  x\n  b          y\n");
}

#[test]
fn versions_parse_with_and_without_the_prefix() {
    assert_eq!(parse_version("v1.2.3"), Some((1, 2, 3)));
    assert_eq!(parse_version("1.2.3"), Some((1, 2, 3)));
    assert_eq!(parse_version("v10.0.100"), Some((10, 0, 100)));
}

#[test]
fn malformed_versions_are_refused() {
    assert_eq!(parse_version("1.2"), None);
    assert_eq!(parse_version("1.2.3.4"), None);
    assert_eq!(parse_version("release-1"), None);
    assert_eq!(parse_version(""), None);
}

#[test]
fn version_triples_order_correctly() {
    // Tuple comparison must match semver ordering, or an update loops or
    // never fires.
    assert!(parse_version("0.10.0") > parse_version("0.9.9"));
    assert!(parse_version("1.0.0") > parse_version("0.99.99"));
    assert!(parse_version("0.2.1") > parse_version("0.2.0"));
    assert!(is_newer((0, 10, 0), (0, 9, 9)));
    assert!(!is_newer((0, 2, 0), (0, 2, 0)));
}

#[test]
fn the_build_version_parses() {
    assert!(
        parse_version(CURRENT).is_some(),
        "CARGO_PKG_VERSION must stay three plain numbers or update breaks"
    );
}

#[test]
fn an_update_is_offered_only_for_a_newer_tag() {
    assert_eq!(update_available("0.1.0", "v0.2.0"), Ok(true));
    assert_eq!(update_available("0.2.0", "v0.2.0"), Ok(false));
    assert_eq!(update_available("0.2.0", "nightly"), Err(UpdateError::TagNotAVersion));
    assert_eq!(update_available("dev", "v1.0.0"), Err(UpdateError::OwnVersionMalformed));
}

#[test]
fn the_sig_name_appends_rather_than_replaces() {
    assert_eq!(file_with_sig_extension("/a/swivel"), "/a/swivel.sig");
    // A dotted name must not lose part of itself.
    assert_eq!(file_with_sig_extension("/a/swivel-0.2.0"), "/a/swivel-0.2.0.sig");
}

#[test]
fn a_signature_round_trips() {
    let key = ed25519_dalek::SigningKey::from_bytes(&[7u8; 32]);
    let message = b"one release artifact";
    let signature = key.sign(message);
    let key_hex = data_encoding::HEXLOWER.encode(key.verifying_key().as_bytes());
    let sig_hex = data_encoding::HEXLOWER.encode(&signature.to_bytes());

    assert_eq!(verify_release(&key_hex, &sig_hex, message), Ok(()));

    // One flipped bit must fail.
    let mut tampered = message.to_vec();
    tampered[0] ^= 1;
    assert_eq!(
        verify_release(&key_hex, &sig_hex, &tampered),
        Err(UpdateError::SignatureMismatch)
    );
}

#[test]
fn a_broken_key_or_signature_is_named() {
    assert_eq!(verify_release("zz", "00", b"x"), Err(UpdateError::KeyNotHex));
    assert_eq!(verify_release("0011", "00", b"x"), Err(UpdateError::KeyWrongLength));
    let bad_point = "02".repeat(32);
    assert_eq!(verify_release(&bad_point, "00", b"x"), Err(UpdateError::KeyInvalid));
    let key = ed25519_dalek::SigningKey::from_bytes(&[7u8; 32]);
    let key_hex = data_encoding::HEXLOWER.encode(key.verifying_key().as_bytes());
    assert_eq!(verify_release(&key_hex, "0g", b"x"), Err(UpdateError::SignatureNotHex));
    assert_eq!(
        verify_release(&key_hex, "0011", b"x"),
        Err(UpdateError::SignatureWrongLength)
    );
}

#[test]
fn a_device_is_chosen_by_number_or_by_part_of_its_name() {
    let names = vec!["MacBook Pro Microphone".to_string(), "Scarlett Solo".to_string(), "Scarlett 2i2".to_string()];
    assert_eq!(resolve_device("2", &names).unwrap(), "Scarlett Solo");
    assert_eq!(resolve_device("macbook", &names).unwrap(), "MacBook Pro Microphone");
    assert!(matches!(resolve_device("yeti", &names), Err(DeviceChoiceError::NoMatch)));
    match resolve_device("scarlett", &names) {
        Err(DeviceChoiceError::Ambiguous(v)) => assert_eq!(v, vec!["Scarlett Solo", "Scarlett 2i2"]),
        other => panic!("unexpected {other:?}"),
    }
    assert!(matches!(resolve_device("1", &[]), Err(DeviceChoiceError::NoDevices)));
}

fn peer(slot: u8, name: &str) -> PeerView {
    PeerView {
        endpoint_id: [slot; 32],
        slot: Some(slot),
        name: name.to_string(),
        online: true,
        rtt_ms: Some(12),
        path: PathKind::Direct,
        dnd: false,
        muted: false,
        live: false,
        speaking: false,
    }
}

#[test]
fn the_headless_roster_reads_as_a_table() {
    let mut state = UiState::default();
    assert_eq!(
        render(&state),
        "\n  endpoint offline   microphone closed\n  no contacts. run `walkie add wt1…` in another shell.\n"
    );

    state.online = true;
    state.mic = MicState::Live;
    let mut maggie = peer(1, "Maggie");
    maggie.live = true;
    maggie.speaking = true;
    let mut will = peer(3, "Will");
    will.online = false;
    will.rtt_ms = None;
    will.path = PathKind::Unknown;
    state.peers = vec![maggie, will];
    state.knocks = vec![KnockView { endpoint_id: [0xab; 32], claimed: None }];
    state.audio = AudioCounters { sent: 2, refused: 0, encoded: 3, played: 4, concealed: 5, late: 6, overrun: 7 };

    let text = render(&state);
    let expected = "\n  endpoint online   microphone LIVE\n\
        \x20 audio  encoded 3  sent 2  refused 0  |  played 4  concealed 5  late 6  overrun 7\n\
        \n\
        \x20    SLOT  NAME    STATE     RTT   PATH\n\
        \x20 »  1     Maggie  speaking  12ms  DIR\n\
        \x20    3     Will    offline   -\n\
        \x20 waiting: (no name) ababababab   approve with `walkie approve ababababab`\n";
    assert_eq!(text, expected);
}

#[test]
fn a_roster_word_says_the_first_thing_that_holds() {
    assert_eq!(presence(false, true, true, true), "offline");
    assert_eq!(presence(true, true, true, true), "speaking");
    assert_eq!(presence(true, false, true, true), "muted");
    assert_eq!(presence(true, false, false, true), "dnd");
    assert_eq!(presence(true, false, false, false), "online");
}

#[test]
fn the_device_listing_marks_what_is_in_use() {
    let names = vec!["Built-in".to_string(), "Scarlett".to_string()];
    let rows = device_rows(&names, None, Some("Built-in"));
    assert_eq!(rows, vec![vec!["*", "1", "Built-in", "system default"], vec![" ", "2", "Scarlett", ""]]);
    let rows = device_rows(&names, Some("Scarlett"), Some("Built-in"));
    assert_eq!(rows, vec![vec![" ", "1", "Built-in", ""], vec!["*", "2", "Scarlett", ""]]);
    let rows = device_rows(&names, Some("Gone"), Some("Built-in"));
    assert_eq!(rows[0][0], " ");
    assert_eq!(rows[1][0], " ");
}

#[test]
fn contact_and_knock_lines_read_naturally() {
    let key = [0x0f; 32];
    assert_eq!(
        contact_row(Some(2), "Maggie", Some(1_000), 1_000 + 7_200, true, &key),
        vec!["2", "Maggie", "2h ago", "auto", "0f0f0f0f0f"]
    );
    assert_eq!(contact_row(None, "Will", None, 0, false, &key), vec!["-", "Will", "never", "knock", "0f0f0f0f0f"]);
    assert_eq!(knock_row(None, 10, 20, &key), vec!["(no name)", "just now", "0f0f0f0f0f"]);
}

#[test]
fn the_latest_tag_is_read_from_the_redirect() {
    assert_eq!(
        tag_from_redirect("https://example.org/o/swivel/releases/tag/v0.3.1\n").as_deref(),
        Some("v0.3.1")
    );
    assert_eq!(tag_from_redirect("https://example.org/tag/x/tag/v2").as_deref(), Some("v2"));
    assert_eq!(tag_from_redirect("https://example.org/releases/tag/"), None);
    assert_eq!(tag_from_redirect("https://example.org/releases"), None);
    assert_eq!(tag_from_redirect(""), None);
}

fn release_pair() -> (String, String) {
    signing_key_texts([9u8; 32])
}

#[test]
fn a_signing_key_is_kept_as_hex() {
    let (secret_hex, public_hex) = release_pair();
    assert_eq!(secret_hex, "09".repeat(32));
    let expected = ed25519_dalek::SigningKey::from_bytes(&[9u8; 32]).verifying_key();
    assert_eq!(public_hex, data_encoding::HEXLOWER.encode(expected.as_bytes()));
    assert_eq!(release_key(&public_hex), Ok(expected.to_bytes()));
    let (fresh_secret, fresh_public) = new_signing_key();
    assert_eq!((fresh_secret.len(), fresh_public.len()), (64, 64));
    assert_ne!(fresh_secret, secret_hex);
}

#[test]
fn a_release_is_signed_with_the_embedded_key_only() {
    let (secret_hex, public_hex) = release_pair();
    let file = b"the release binary";
    // The key file may end with a newline.
    let key_file = format!("{secret_hex}\n");
    let sig = release_signature(&key_file, &public_hex, file).unwrap();
    let expected = ed25519_dalek::SigningKey::from_bytes(&[9u8; 32]).sign(file);
    assert_eq!(sig, data_encoding::HEXLOWER.encode(&expected.to_bytes()));
    assert_eq!(verify_release(&public_hex, &sig, file), Ok(()));

    let (_, other_public) = signing_key_texts([10u8; 32]);
    assert_eq!(
        release_signature(&key_file, &other_public, file),
        Err(UpdateError::SigningKeyMismatch)
    );
    assert_eq!(release_signature("not hex", &public_hex, file), Err(UpdateError::SigningKeyNotHex));
    assert_eq!(release_signature("0011", &public_hex, file), Err(UpdateError::SigningKeyWrongLength));
    assert_eq!(release_signature(&key_file, "zz", file), Err(UpdateError::KeyNotHex));
}
