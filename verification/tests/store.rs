use swivel::keys::{endpoint_id_of, key_from_text, key_text, short_id};
use swivel::store::contacts::{
    find_contact, lowest_free_slot, plan_set_slot, slot_from_row, ContactEntry, ContactError, SlotMove,
};
use swivel::store::knocks::{admission, approval_name, find_waiting, Admission, KnockEntry};
use swivel::store::ticket::{ticket_body, ticket_text, Ticket, TicketError, TICKET_VERSION};
use swivel::store::{migration_for, Migration, SCHEMA_VERSION};
use swivel::net::control::clean_name;

fn id(n: u8) -> [u8; 32] {
    ed25519_dalek::SigningKey::from_bytes(&[n; 32]).verifying_key().to_bytes()
}

/// Adds a contact the way the store does: an existing one keeps its slot,
/// a new one takes the lowest free slot.
fn add(contacts: &mut Vec<ContactEntry>, key: [u8; 32], name: &str) -> ContactEntry {
    let key_text = data_encoding::HEXLOWER.encode(&key);
    if let Some(c) = contacts.iter_mut().find(|c| c.key_text == key_text) {
        c.name = name.to_string();
        return c.clone();
    }
    let taken: Vec<u8> = contacts.iter().filter_map(|c| c.slot).collect();
    let c = ContactEntry { name: name.to_string(), key_text, slot: lowest_free_slot(&taken) };
    contacts.push(c.clone());
    c
}

fn set_slot(contacts: &mut [ContactEntry], who: usize, slot: u8) -> Result<(), ContactError> {
    match plan_set_slot(slot, contacts[who].slot)? {
        SlotMove::Unchanged => {}
        SlotMove::Swap { occupant_gets } => {
            if let Some(other) = contacts.iter().position(|c| c.slot == Some(slot)) {
                contacts[other].slot = occupant_gets;
            }
            contacts[who].slot = Some(slot);
        }
    }
    Ok(())
}

#[test]
fn the_first_contact_gets_slot_one() {
    let mut contacts = Vec::new();
    let c = add(&mut contacts, id(1), "maggie");
    assert_eq!(c.slot, Some(1));
}

#[test]
fn slots_fill_the_lowest_gap() {
    let mut contacts = Vec::new();
    add(&mut contacts, id(1), "a");
    let b = add(&mut contacts, id(2), "b");
    add(&mut contacts, id(3), "c");
    assert_eq!(b.slot, Some(2));

    contacts.retain(|c| c.key_text != b.key_text);
    let d = add(&mut contacts, id(4), "d");
    assert_eq!(d.slot, Some(2), "a freed slot is reused");
}

#[test]
fn contacts_past_nine_have_no_slot() {
    let mut contacts = Vec::new();
    for n in 1..=9u8 {
        assert!(add(&mut contacts, id(n), &format!("p{n}")).slot.is_some());
    }
    let tenth = add(&mut contacts, id(10), "p10");
    assert_eq!(tenth.slot, None);
}

#[test]
fn set_slot_swaps_rather_than_fails() {
    let mut contacts = Vec::new();
    let a = add(&mut contacts, id(1), "a");
    let b = add(&mut contacts, id(2), "b");
    assert_eq!((a.slot, b.slot), (Some(1), Some(2)));

    set_slot(&mut contacts, 1, 1).unwrap();

    assert_eq!(contacts[1].slot, Some(1));
    assert_eq!(contacts[0].slot, Some(2));
}

#[test]
fn set_slot_to_an_empty_number_moves_without_a_partner() {
    let mut contacts = Vec::new();
    add(&mut contacts, id(1), "a");
    set_slot(&mut contacts, 0, 7).unwrap();
    assert_eq!(contacts[0].slot, Some(7));
    assert!(contacts.iter().all(|c| c.slot != Some(1)));
}

#[test]
fn a_slot_outside_the_range_is_refused() {
    assert!(matches!(plan_set_slot(0, Some(1)), Err(ContactError::BadSlot(0))));
    assert!(matches!(plan_set_slot(10, Some(1)), Err(ContactError::BadSlot(10))));
    assert_eq!(ContactError::BadSlot(10).message("x"), "slot 10 is not between 1 and 9");
    assert!(matches!(plan_set_slot(3, Some(3)), Ok(SlotMove::Unchanged)));
}

#[test]
fn adding_twice_updates_the_name() {
    let mut contacts = Vec::new();
    let first = add(&mut contacts, id(1), "maggie");
    let second = add(&mut contacts, id(1), "Maggie Henry");
    assert_eq!(first.slot, second.slot);
    assert_eq!(second.name, "Maggie Henry");
    assert_eq!(contacts.len(), 1);
}

#[test]
fn find_by_slot_name_and_key() {
    let mut contacts = Vec::new();
    let c = add(&mut contacts, id(1), "Maggie Henry");

    assert_eq!(find_contact(&contacts, "1").unwrap(), 0);
    assert_eq!(find_contact(&contacts, "maggie").unwrap(), 0);
    assert_eq!(find_contact(&contacts, "MAGGIE HENRY").unwrap(), 0);
    let prefix = &c.key_text[..8];
    assert_eq!(find_contact(&contacts, prefix).unwrap(), 0);
    assert!(find_contact(&contacts, "nobody").is_err());
    assert_eq!(
        find_contact(&contacts, "nobody").unwrap_err().message("nobody"),
        "no contact matches nobody"
    );
}

#[test]
fn an_ambiguous_name_lists_the_candidates() {
    let mut contacts = Vec::new();
    add(&mut contacts, id(1), "Will Tachau");
    add(&mut contacts, id(2), "Willow Smith");
    let e = find_contact(&contacts, "wil").unwrap_err().message("wil");
    assert!(e.contains("Will Tachau") && e.contains("Willow Smith"), "{e}");
    assert_eq!(e, "no contact matches wil. It matches 2 contacts: Will Tachau, Willow Smith");
}

#[test]
fn a_stored_slot_is_read_back_only_when_it_is_a_slot() {
    assert_eq!(slot_from_row(Some(3)), Some(3));
    assert_eq!(slot_from_row(Some(0)), None);
    assert_eq!(slot_from_row(Some(256)), None);
    assert_eq!(slot_from_row(None), None);
}

#[test]
fn an_unknown_endpoint_knocks() {
    assert_eq!(admission(false, None), Admission::Knock);
}

#[test]
fn a_contact_is_admitted() {
    assert_eq!(admission(true, None), Admission::Contact);
    assert_eq!(admission(true, Some(true)), Admission::Contact);
}

#[test]
fn approval_creates_a_contact_with_a_slot() {
    let name = approval_name(None, Some("Will"), "abcdef0123");
    assert_eq!(name, "Will");
    let mut contacts = Vec::new();
    let c = add(&mut contacts, id(1), &name);
    assert_eq!(c.name, "Will");
    assert_eq!(c.slot, Some(1));
    assert_eq!(approval_name(Some("W"), Some("Will"), "k"), "W");
    assert_eq!(approval_name(None, None, &short_id(&id(1))), short_id(&id(1)));
}

#[test]
fn a_blocked_endpoint_stays_blocked() {
    assert_eq!(admission(false, Some(true)), Admission::Blocked);
    assert_eq!(admission(false, Some(false)), Admission::Knock);
}

#[test]
fn a_claimed_name_cannot_be_long_or_contain_control_characters() {
    let nasty = format!("bad\nname\u{0}{}", "x".repeat(200));
    let claimed = clean_name(&nasty);
    assert!(claimed.len() <= 40);
    assert!(!claimed.contains('\n'));
    assert!(!claimed.contains('\u{0}'));
}

#[test]
fn migrate_is_idempotent() {
    assert_eq!(migration_for(0), Migration::CreateSchema);
    assert_eq!(migration_for(SCHEMA_VERSION), Migration::UpToDate);
    assert_eq!(migration_for(SCHEMA_VERSION), Migration::UpToDate);
    assert_eq!(migration_for(SCHEMA_VERSION + 1), Migration::TooNew(SCHEMA_VERSION + 1));
}

fn same(a: &Ticket, b: &Ticket) -> bool {
    a.endpoint_id == b.endpoint_id && a.name == b.name
}

#[test]
fn a_ticket_survives_a_round_trip() {
    let ticket = Ticket::new(id(7), "Maggie Henry");
    let text = ticket.encode();
    assert!(text.starts_with("wt1"));
    assert!(same(&Ticket::decode(&text).unwrap(), &ticket));
}

#[test]
fn whitespace_and_case_do_not_matter() {
    let ticket = Ticket::new(id(7), "will");
    let text = ticket.encode();
    let messy = format!("  {}  ", text.to_uppercase());
    assert!(same(&Ticket::decode(&messy).unwrap(), &ticket));
}

#[test]
fn a_name_with_unicode_survives() {
    let ticket = Ticket::new(id(7), "Zoë 🎙");
    assert!(same(&Ticket::decode(&ticket.encode()).unwrap(), &ticket));
}

#[test]
fn a_missing_prefix_says_so() {
    let e = Ticket::decode("hello").unwrap_err();
    assert!(e.message().contains("starts with"), "{e:?}");
}

#[test]
fn a_bad_character_says_so() {
    let e = Ticket::decode("wt1!!!!").unwrap_err();
    assert!(e.message().contains("not valid"), "{e:?}");
}

#[test]
fn a_truncated_ticket_says_so() {
    let ticket = Ticket::new(id(7), "will").encode();
    let cut = &ticket[..ticket.len() / 2];
    let e = Ticket::decode(cut).unwrap_err();
    assert!(e.message().contains("truncated") || e.message().contains("not valid"), "{e:?}");
}

#[test]
fn a_future_ticket_or_a_bad_key_is_named() {
    assert_eq!(
        TicketError::Version(2).message(),
        "the key is format version 2, and this build reads version 1. Use a newer walkie."
    );
    assert!(matches!(Ticket::from_fields(2, id(1), "x".into()), Err(TicketError::Version(2))));
    assert!(matches!(Ticket::from_fields(1, [2u8; 32], "x".into()), Err(TicketError::BadKey)));
}

fn knock(key: &str, claimed: Option<&str>) -> KnockEntry {
    KnockEntry { key_text: key.to_string(), claimed: claimed.map(str::to_string) }
}

#[test]
fn a_waiting_endpoint_is_found_by_key_or_by_the_name_it_claimed() {
    let knocks = vec![
        knock("ab12cd", Some("Dana")),
        knock("ab34ef", None),
        knock("9f0000", Some("Eli")),
    ];
    // The whole key or its start, with spaces and capitals ignored.
    assert_eq!(find_waiting(&knocks, "ab34ef", true), Some(1));
    assert_eq!(find_waiting(&knocks, "  9F ", true), Some(2));
    assert_eq!(find_waiting(&knocks, "\u{3000}ab34ef\t\n", true), Some(1));
    // An ambiguous start picks the first knock.
    assert_eq!(find_waiting(&knocks, "ab", true), Some(0));
    // A claimed name counts only when names are allowed, and only whole.
    assert_eq!(find_waiting(&knocks, "dana", true), Some(0));
    assert_eq!(find_waiting(&knocks, "dana", false), None);
    assert_eq!(find_waiting(&knocks, "el", true), None);
    assert_eq!(find_waiting(&knocks, "zz", true), None);
}

#[test]
fn a_ticket_body_is_the_version_the_key_and_the_name() {
    let ticket = Ticket::new(id(7), "will");
    let body = ticket_body(&ticket.encode()).unwrap();
    assert_eq!(body[0], TICKET_VERSION);
    assert_eq!(&body[1..33], &id(7)[..]);
    assert_eq!(body.len(), 33 + 1 + 4);
    assert_eq!(ticket_text(&[1, 2, 3]), "wt1aebag");
    assert_eq!(ticket_body("WT1AEBAG").unwrap(), vec![1, 2, 3]);
}

#[test]
fn a_key_is_stored_as_hex_and_read_back() {
    let key = id(7);
    assert_eq!(endpoint_id_of(&[7u8; 32]), key);
    let text = key_text(&key);
    assert_eq!(text, data_encoding::HEXLOWER.encode(&key));
    assert_eq!(key_from_text(&text), Some(key));
    assert_eq!(key_from_text(&text.to_uppercase()), None);
    assert_eq!(key_from_text("0011"), None);
    assert_eq!(key_from_text(&text[..63]), None);
}
