use swivel::ui::events::{classify, on_menu_action, on_roster_action, on_shortcut, submit_field, Effect, Shortcut, UiCommand};
use swivel::ui::demo::{demo_id, demo_state};
use swivel::state::{LinkFacts, MicState, PathKind, PeerView, UiState};
use swivel::ui::roster::{header_status, key_action, row_detail, Action, RosterFilter};
use swivel::ui::statusitem::{describe_menu, devices_menu, main_menu, title_for, MenuAction, MenuItem};

fn state(mic: MicState, slots: Vec<u8>, online: bool, dnd: bool) -> UiState {
    let mut s = UiState::default();
    s.online = online;
    s.dnd = dnd;
    s.mic = mic;
    s.live_slots = slots;
    s
}

#[test]
fn the_icon_shows_the_live_slots() {
    let title = title_for(&state(MicState::Live, vec![3, 5], true, false));
    assert_eq!(title, "((3 5))");
}

#[test]
fn an_open_but_silent_microphone_is_shown() {
    // The panel arms the microphone before a contact is chosen. That state
    // must be visible, or the icon would claim the microphone is shut while
    // the device is open.
    let title = title_for(&state(MicState::Armed, vec![], true, false));
    assert_eq!(title, "((o))");
    assert_ne!(title, title_for(&state(MicState::Closed, vec![], true, false)));
}

#[test]
fn the_icon_shows_every_other_state() {
    assert_eq!(title_for(&state(MicState::Closed, vec![], true, false)), "((·))");
    assert_eq!(title_for(&state(MicState::Muted, vec![1], true, false)), "((/))");
    assert_eq!(title_for(&state(MicState::Closed, vec![], true, true)), "((x))");
    assert_eq!(title_for(&state(MicState::Closed, vec![], false, false)), "((~))");
}

#[test]
fn offline_beats_every_other_state() {
    // A user who is offline cannot be live, and showing "live" would be a
    // lie that costs trust.
    let title = title_for(&state(MicState::Live, vec![2], false, false));
    assert_eq!(title, "((~))");
}

fn peer(slot: u8, name: &str) -> PeerView {
    PeerView::from_contact(
        [slot; 32],
        Some(slot),
        name.to_string(),
        Some(LinkFacts {
            connected: true,
            rtt_ms: Some(12),
            path: PathKind::Direct,
            dnd: false,
            muted: false,
            speaking: false,
        }),
    )
}

#[test]
fn a_contact_nobody_has_heard_of_is_offline() {
    let p = PeerView::from_contact([1; 32], Some(1), "Ada".into(), None);
    assert!(!p.online && !p.speaking && !p.live);
    assert_eq!(p.path, PathKind::Unknown);
    let q = PeerView::from_contact(
        [2; 32],
        None,
        "Bo".into(),
        Some(LinkFacts { connected: false, rtt_ms: None, path: PathKind::Relay, dnd: false, muted: false, speaking: true }),
    );
    assert!(!q.speaking, "only a connected peer can be speaking");
}

#[test]
fn a_row_says_what_the_peer_is_doing() {
    let mut p = peer(1, "Maggie");
    assert_eq!(row_detail(&p), "12ms  DIR");
    p.muted = true;
    assert_eq!(row_detail(&p), "muted");
    p.online = false;
    assert_eq!(row_detail(&p), "");
}

#[test]
fn keys_map_to_actions() {
    assert_eq!(key_action('3'), Some(Action::ToggleSlot(3)));
    assert_eq!(key_action('0'), Some(Action::EndSession));
    assert_eq!(key_action('/'), Some(Action::FocusField));
    assert_eq!(key_action('A'), Some(Action::ApproveFirstKnock));
    assert_eq!(key_action('q'), None);
}

#[test]
fn the_filter_shows_names_and_slots() {
    let mut s = UiState::default();
    s.online = true;
    s.peers = vec![peer(1, "Maggie Henry"), peer(3, "Will Tachau")];
    let mut f = RosterFilter::new();
    assert_eq!(f.visible_peers(&s), vec![0, 1]);
    assert!(f.set_filter("  WILL "));
    assert_eq!(f.text(), "will");
    assert!(!f.set_filter("will"));
    assert_eq!(f.visible_peers(&s), vec![1]);
    f.set_filter("1");
    assert_eq!(f.visible_peers(&s), vec![0]);
    f.set_filter("wt1abc");
    assert_eq!(f.visible_peers(&s), vec![0, 1]);
}

#[test]
fn the_header_says_who_and_how() {
    let mut s = state(MicState::Live, vec![1, 3], true, false);
    assert_eq!(header_status(&s), "live  1 3");
    s.online = false;
    assert_eq!(header_status(&s), "connecting");
}

#[test]
fn the_menu_has_the_devices_above_copy_my_key() {
    let menu = main_menu();
    assert_eq!(menu.len(), 9);
    assert!(matches!(menu[6], MenuItem::Devices));
    match &menu[8] {
        MenuItem::Entry { title, action, key, .. } => {
            assert_eq!(title, "Quit swivel");
            assert_eq!(*action, MenuAction::Quit);
            assert_eq!(*key, Some('q'));
        }
        _ => panic!("the last entry quits"),
    }
}

#[test]
fn the_device_menu_ticks_the_device_in_use() {
    let inputs = vec!["Built-in".to_string(), "Scarlett Solo".to_string()];
    let outputs = vec!["Speakers".to_string()];
    let menu = devices_menu(true, Some("Scarlett Solo"), None, &inputs, Some("Built-in"), &outputs, Some("Speakers"));
    // echo, separator, reset, then two sections of a separator, a header and the devices.
    assert_eq!(menu.len(), 3 + 2 + 2 + 2 + 1);
    let ticked: Vec<(String, bool)> = menu
        .iter()
        .filter_map(|i| match i {
            MenuItem::Entry { title, ticked, .. } => Some((title.clone(), *ticked)),
            _ => None,
        })
        .collect();
    assert_eq!(
        ticked,
        vec![
            ("Cancel echo".to_string(), true),
            ("Use the system defaults".to_string(), false),
            ("   Built-in".to_string(), false),
            ("   Scarlett Solo".to_string(), true),
            ("   Speakers".to_string(), true),
        ]
    );
    match &menu[6] {
        MenuItem::Entry { action, .. } => assert_eq!(*action, MenuAction::ChooseInput(1)),
        _ => panic!("the second microphone"),
    }
}

#[test]
fn the_demo_roster_shows_every_state() {
    let calm = demo_state(false);
    assert_eq!(calm.my_name, "nick");
    assert_eq!(calm.my_id, Some(demo_id(9)));
    assert_eq!(calm.peers.len(), 6);
    assert_eq!(calm.mic, MicState::Closed);
    assert!(calm.live_slots.is_empty());
    assert_eq!(calm.knocks[0].claimed.as_deref(), Some("Jun Park"));
    let live = demo_state(true);
    assert_eq!(live.live_slots, vec![1, 3]);
    assert!(live.peers[0].speaking && live.peers[1].live && !live.peers[2].live);
    assert_eq!(title_for(&live), "((1 3))");
    let expected = ed25519_dalek::SigningKey::from_bytes(&[1u8; 32]).verifying_key().to_bytes();
    assert_eq!(live.peers[0].endpoint_id, expected);
}

#[test]
fn a_published_snapshot_starts_closed() {
    let s = UiState::published("nick".into(), [9; 32], true, vec![peer(1, "A")], Vec::new(), true);
    assert_eq!(s.my_id, Some([9; 32]));
    assert_eq!(s.mic, MicState::Closed);
    assert!(s.dnd && s.online && s.live_slots.is_empty() && s.fault.is_none());
    assert_eq!(s.peers.len(), 1);
}

fn names(effects: &[Effect]) -> Vec<String> {
    effects
        .iter()
        .map(|e| match e {
            Effect::Send(c) => match c {
                UiCommand::AddTicket(t) => format!("add {t}"),
                UiCommand::SetDevice { input, name } => format!("device {input} {name:?}"),
                other => format!("{other:?}"),
            },
            other => format!("{other:?}"),
        })
        .collect()
}

#[test]
fn shortcuts_open_drop_and_mute() {
    assert_eq!(classify(7, 7, 8, 9), Some(Shortcut::Talk));
    assert_eq!(classify(9, 7, 8, 9), Some(Shortcut::Mute));
    assert_eq!(classify(1, 7, 8, 9), None);
    assert_eq!(names(&on_shortcut(Shortcut::Talk)), vec!["ShowPanel"]);
    assert_eq!(names(&on_shortcut(Shortcut::Drop)), vec!["EndSession", "HidePanel", "DisarmIfIdle"]);
    assert_eq!(names(&on_shortcut(Shortcut::Mute)), vec!["ToggleMute"]);
}

#[test]
fn the_field_adds_a_key_or_searches() {
    assert_eq!(names(&submit_field("   ")), vec!["FocusRoster"]);
    assert_eq!(names(&submit_field("  WT1abc ")), vec!["add WT1abc", "ClearField", "FocusRoster"]);
    assert!(submit_field("maggie").is_empty());
}

#[test]
fn escape_clears_the_field_before_it_closes_the_panel() {
    assert_eq!(names(&on_roster_action(Action::Close, "wil")), vec!["ClearField", "FocusRoster"]);
    assert_eq!(names(&on_roster_action(Action::Close, " ")), vec!["HidePanel", "DisarmIfIdle"]);
    assert_eq!(names(&on_roster_action(Action::ToggleSlot(4), "")), vec!["ToggleSlot(4)"]);
    assert_eq!(names(&on_roster_action(Action::CopyKey, "")), vec!["CopyKey", "NoteKeyCopied"]);
}

#[test]
fn a_device_that_went_away_is_not_chosen() {
    let inputs = vec!["Built-in".to_string()];
    let outputs = vec!["Speakers".to_string()];
    assert_eq!(
        names(&on_menu_action(MenuAction::ChooseInput(0), false, &inputs, &outputs)),
        vec!["device true Some(\"Built-in\")"]
    );
    assert!(on_menu_action(MenuAction::ChooseOutput(3), false, &inputs, &outputs).is_empty());
    assert_eq!(
        names(&on_menu_action(MenuAction::ResetDevices, false, &inputs, &outputs)),
        vec!["device true None", "device false None"]
    );
    assert_eq!(names(&on_menu_action(MenuAction::TogglePanel, true, &inputs, &outputs)), vec!["HidePanel", "DisarmIfIdle"]);
    assert_eq!(names(&on_menu_action(MenuAction::TogglePanel, false, &inputs, &outputs)), vec!["ShowPanel"]);
    assert_eq!(names(&on_menu_action(MenuAction::Quit, false, &inputs, &outputs)), vec!["Quit", "Terminate"]);
}

#[test]
fn the_menu_reads_as_text_with_its_ticks() {
    let inputs = vec!["Built-in".to_string()];
    let devices = devices_menu(false, None, None, &inputs, Some("Built-in"), &[], None);
    let text = describe_menu(&main_menu(), &devices);
    let expected = "[ ] Open swivel   ⌃⌥⌘T\n--\n[ ] Mute microphone   ⌃⌥⌘M\n[ ] Do not disturb\n\
        [ ] End session   ⌃⌥⌘⎋\n--\n[ ] Audio devices\n  [ ] Cancel echo\n  --\n\
        \x20 [x] Use the system defaults\n  --\n  [ ] Microphone\n  [x]    Built-in\n  --\n\
        \x20 [ ] Speaker\n[ ] Copy my key\n[ ] Quit swivel\n";
    assert_eq!(text, expected);
}
