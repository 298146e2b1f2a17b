//! Contacts and slot numbers.
//!
//! A slot is the number you press to talk to a person. It is the whole point
//! of the interaction model, so slot assignment must never surprise the user.
use vstd::prelude::*;

use crate::config::MAX_SLOT;
use crate::text::{
    append, chars_of, decimal, decimal_string, lowercase, parse_u64, parse_u64_spec, starts_with, starts_with_spec, string_of,
    to_lowercase, trim, trimmed,
};

verus! {

/// True when `s` appears in `taken`.
pub open spec fn slot_taken(taken: Seq<u8>, s: u8) -> bool {
    exists|i: int| 0 <= i < taken.len() && taken[i] == s
}

/// The lowest slot from one to `MAX_SLOT` that `taken` does not hold.
pub open spec fn lowest_free_spec(taken: Seq<u8>) -> Option<u8> {
    if exists|s: u8| 1 <= s <= MAX_SLOT && !#[trigger] slot_taken(taken, s) {
        Some(
            choose|s: u8|
                1 <= s <= MAX_SLOT && !#[trigger] slot_taken(taken, s) && forall|t: u8|
                    1 <= t < s ==> #[trigger] slot_taken(taken, t),
        )
    } else {
        None
    }
}

fn is_taken(taken: &[u8], s: u8) -> (r: bool)
    ensures
        r == slot_taken(taken@, s),
{
    let mut i: usize = 0;
    while i < taken.len()
        invariant
            i <= taken@.len(),
            forall|j: int| 0 <= j < i ==> taken@[j] != s,
        decreases taken@.len() - i,
    {
        if taken[i] == s {
            return true;
        }
        i = i + 1;
    }
    false
}

/// The lowest free slot, given the slots already taken. A freed slot is
/// reused before a higher one, and past `MAX_SLOT` there is none.
pub fn lowest_free_slot(taken: &[u8]) -> (r: Option<u8>)
    ensures
        r == lowest_free_spec(taken@),
        r matches Some(s) ==> 1 <= s <= MAX_SLOT && !slot_taken(taken@, s),
{
    let mut s: u8 = 1;
    while s <= MAX_SLOT
        invariant
            1 <= s <= MAX_SLOT + 1,
            forall|t: u8| 1 <= t < s ==> #[trigger] slot_taken(taken@, t),
        decreases MAX_SLOT + 1 - s,
    {
        if !is_taken(taken, s) {
            proof {
                let c = lowest_free_spec(taken@)->Some_0;
                assert(1 <= c <= MAX_SLOT && !slot_taken(taken@, c));
                if c < s {
                    assert(slot_taken(taken@, c));
                } else if c > s {
                    assert(slot_taken(taken@, s));
                }
            }
            return Some(s);
        }
        s = s + 1;
    }
    proof {
        assert forall|t: u8| 1 <= t <= MAX_SLOT implies #[trigger] slot_taken(taken@, t) by {}
    }
    None
}

/// The slot a stored row carries: a number from one to 255, or none.
pub fn slot_from_row(raw: Option<i64>) -> (r: Option<u8>)
    ensures
        r == match raw {
            Some(v) => if 1 <= v <= 255 {
                Some(v as u8)
            } else {
                None::<u8>
            },
            None => None::<u8>,
        },
{
    match raw {
        Some(v) => if 1 <= v && v <= 255 {
            Some(v as u8)
        } else {
            None
        },
        None => None,
    }
}

/// Why a contact operation was refused.
#[derive(Debug, Clone)]
pub enum ContactError {
    /// The slot is not between one and `MAX_SLOT`.
    BadSlot(u8),
    /// No contact matches the text.
    NoSuchContact,
    /// Several contacts match the text; these names.
    Ambiguous(Vec<String>),
}

/// What moving a contact to a slot does.
#[derive(Debug, Clone, Copy, PartialEq, Eq, Structural)]
pub enum SlotMove {
    /// The contact already holds the slot.
    Unchanged,
    /// The contact takes the slot, and the contact that held it, if any,
    /// takes the moving contact's old slot (possibly none).
    Swap { occupant_gets: Option<u8> },
}

/// How to move a contact that holds `current` to `slot`.
///
/// If another contact holds the slot, the two swap. A swap never fails, and
/// it never silently leaves a contact without a number it had.
pub fn plan_set_slot(slot: u8, current: Option<u8>) -> (r: Result<SlotMove, ContactError>)
    ensures
        (slot == 0 || slot > MAX_SLOT) ==> (match r {
            Err(ContactError::BadSlot(s)) => s == slot,
            _ => false,
        }),
        (1 <= slot <= MAX_SLOT && current == Some(slot)) ==> (match r {
            Ok(SlotMove::Unchanged) => true,
            _ => false,
        }),
        (1 <= slot <= MAX_SLOT && current != Some(slot)) ==> (match r {
            Ok(SlotMove::Swap { occupant_gets }) => occupant_gets == current,
            _ => false,
        }),
{
    if slot == 0 || slot > MAX_SLOT {
        return Err(ContactError::BadSlot(slot));
    }
    match current {
        Some(s) => if s == slot {
            return Ok(SlotMove::Unchanged);
        },
        None => {},
    }
    Ok(SlotMove::Swap { occupant_gets: current })
}

/// Every contact's slot after contact `who` moves to `slot`: the contact that
/// held `slot`, if any, takes `who`'s old slot.
pub open spec fn after_move(slots: Seq<Option<u8>>, who: int, slot: u8) -> Seq<Option<u8>> {
    Seq::new(
        slots.len(),
        |k: int|
            if k == who {
                Some(slot)
            } else if slots[k] == Some(slot) {
                slots[who]
            } else {
                slots[k]
            },
    )
}

/// No slot is held by two contacts.
pub open spec fn slots_distinct(slots: Seq<Option<u8>>) -> bool {
    forall|i: int, j: int|
        0 <= i < j < slots.len() && (#[trigger] slots[i]) is Some ==> slots[i] != #[trigger] slots[j]
}

/// Moving a contact to a slot keeps every slot held by at most one contact,
/// gives the moving contact its slot, and leaves every contact that had a
/// slot with one.
pub proof fn lemma_move_keeps_slots_distinct(slots: Seq<Option<u8>>, who: int, slot: u8)
    requires
        slots_distinct(slots),
        0 <= who < slots.len(),
    ensures
        slots_distinct(after_move(slots, who, slot)),
        after_move(slots, who, slot)[who] == Some(slot),
        forall|k: int|
            0 <= k < slots.len() && k != who && (#[trigger] slots[k]) is Some && slots[who] is Some
                ==> after_move(slots, who, slot)[k] is Some,
{
    let m = after_move(slots, who, slot);
    assert forall|i: int, j: int|
        0 <= i < j < m.len() && (#[trigger] m[i]) is Some implies m[i] != #[trigger] m[j] by {
        if i != who && j != who {
            if slots[i] != Some(slot) && slots[j] != Some(slot) {
            } else if slots[i] == Some(slot) && slots[j] == Some(slot) {
            } else if slots[i] == Some(slot) {
                if slots[who] == slots[j] && slots[j] is Some {
                    if who < j {
                        assert(slots[who] != slots[j]);
                    } else {
                        assert(slots[j] != slots[who]);
                    }
                }
            } else {
                if slots[who] == slots[i] && slots[i] is Some {
                    if who < i {
                        assert(slots[who] != slots[i]);
                    } else {
                        assert(slots[i] != slots[who]);
                    }
                }
            }
        }
    }
}

/// What a contact lookup sees of one contact: its name, its key as text, and
/// its slot.
#[derive(Debug, Clone)]
pub struct ContactEntry {
    pub name: String,
    pub key_text: String,
    pub slot: Option<u8>,
}

/// True when the lowercase `needle` matches a contact by name or by the
/// start of its key.
pub open spec fn matches_contact(needle: Seq<char>, c: ContactEntry) -> bool {
    lowercase(c.name@) == needle || starts_with_spec(lowercase(c.name@), needle) || starts_with_spec(
        c.key_text@,
        needle,
    )
}

/// The positions of the contacts a lowercase needle matches, in order.
pub open spec fn matching_contacts(cs: Seq<ContactEntry>, needle: Seq<char>) -> Seq<usize>
    decreases cs.len(),
{
    if cs.len() == 0 {
        Seq::empty()
    } else {
        let before = matching_contacts(cs.drop_last(), needle);
        if matches_contact(needle, cs.last()) {
            before.push((cs.len() - 1) as usize)
        } else {
            before
        }
    }
}

/// The position of the first contact holding slot `s`, if any.
pub open spec fn slot_holder(cs: Seq<ContactEntry>, s: u8) -> Option<int> {
    if exists|i: int| 0 <= i < cs.len() && #[trigger] cs[i].slot == Some(s) {
        Some(
            choose|i: int|
                0 <= i < cs.len() && #[trigger] cs[i].slot == Some(s) && forall|j: int|
                    0 <= j < i ==> #[trigger] cs[j].slot != Some(s),
        )
    } else {
        None
    }
}

/// The slot number a needle names, if it parses as one.
pub open spec fn needle_slot(needle: Seq<char>) -> Option<u8> {
    match parse_u64_spec(needle) {
        Some(v) => if v <= 255 {
            Some(v as u8)
        } else {
            None
        },
        None => None,
    }
}

fn holder_of(contacts: &[ContactEntry], s: u8) -> (r: Option<usize>)
    ensures
        r is Some <==> slot_holder(contacts@, s) is Some,
        r matches Some(i) ==> i == slot_holder(contacts@, s)->Some_0,
{
    let mut i: usize = 0;
    while i < contacts.len()
        invariant
            i <= contacts@.len(),
            forall|j: int| 0 <= j < i ==> #[trigger] contacts@[j].slot != Some(s),
        decreases contacts@.len() - i,
    {
        if contacts[i].slot == Some(s) {
            proof {
                let c = slot_holder(contacts@, s)->Some_0;
                if c < i {
                    assert(contacts@[c].slot == Some(s));
                } else if c > i {
                    assert(contacts@[i as int].slot == Some(s));
                }
            }
            return Some(i);
        }
        i = i + 1;
    }
    None
}

/// Finds a contact by slot number, by name, or by the start of a key.
///
/// The needle is trimmed. A slot number that some contact holds picks that
/// contact. Otherwise the needle, ignoring case, must match exactly one
/// contact's name, the start of its name, or the start of its key.
pub fn find_contact(contacts: &[ContactEntry], needle: &str) -> (r: Result<usize, ContactError>)
    ensures
        ({
            let n = trimmed(needle@);
            let by_slot = match needle_slot(n) {
                Some(s) => slot_holder(contacts@, s),
                None => None,
            };
            let m = matching_contacts(contacts@, lowercase(n));
            &&& by_slot is Some ==> r == Ok::<usize, ContactError>(by_slot->Some_0 as usize)
            &&& (by_slot is None && m.len() == 1) ==> r == Ok::<usize, ContactError>(m[0])
            &&& (by_slot is None && m.len() == 0) ==> (match r {
                Err(ContactError::NoSuchContact) => true,
                _ => false,
            })
            &&& (by_slot is None && m.len() > 1) ==> (match r {
                Err(ContactError::Ambiguous(names)) => names@.len() == m.len() && forall|k: int|
                    0 <= k < m.len() ==> #[trigger] names@[k]@ == contacts@[m[k] as int].name@,
                _ => false,
            })
        }),
{
    let trimmed_needle = trim(needle);
    let n = chars_of(trimmed_needle);
    match parse_u64(n.as_slice()) {
        Some(v) => {
            if v <= 255 {
                match holder_of(contacts, v as u8) {
                    Some(i) => return Ok(i),
                    None => {},
                }
            }
        },
        None => {},
    }
    let lower = to_lowercase(trimmed_needle);
    let needle_chars = chars_of(lower.as_str());
    let mut found: Vec<usize> = Vec::new();
    let mut i: usize = 0;
    while i < contacts.len()
        invariant
            i <= contacts@.len(),
            needle_chars@ == lowercase(trimmed(needle@)),
            found@ == matching_contacts(contacts@.subrange(0, i as int), needle_chars@),
            forall|k: int| 0 <= k < found@.len() ==> #[trigger] found@[k] < i,
        decreases contacts@.len() - i,
    {
        proof {
            assert(contacts@.subrange(0, i + 1).drop_last() =~= contacts@.subrange(0, i as int));
        }
        let name_lower = chars_of(to_lowercase(contacts[i].name.as_str()).as_str());
        let key = chars_of(contacts[i].key_text.as_str());
        let hit = crate::text::chars_equal(name_lower.as_slice(), needle_chars.as_slice())
            || starts_with(name_lower.as_slice(), needle_chars.as_slice()) || starts_with(
            key.as_slice(),
            needle_chars.as_slice(),
        );
        if hit {
            found.push(i);
        }
        i = i + 1;
    }
    assert(contacts@.subrange(0, contacts@.len() as int) =~= contacts@);
    if found.len() == 1 {
        return Ok(found[0]);
    }
    if found.len() == 0 {
        return Err(ContactError::NoSuchContact);
    }
    let mut names: Vec<String> = Vec::new();
    let mut k: usize = 0;
    while k < found.len()
        invariant
            k <= found@.len(),
            forall|j: int| 0 <= j < found@.len() ==> #[trigger] found@[j] < contacts@.len(),
            names@.len() == k,
            forall|j: int| 0 <= j < k ==> #[trigger] names@[j]@ == contacts@[found@[j] as int].name@,
        decreases found@.len() - k,
    {
        let name = string_of(chars_of(contacts[found[k]].name.as_str()).as_slice());
        names.push(name);
        k = k + 1;
    }
    Err(ContactError::Ambiguous(names))
}


/// Names joined by a comma and a space.
pub open spec fn joined_names(names: Seq<String>) -> Seq<char>
    decreases names.len(),
{
    if names.len() == 0 {
        Seq::empty()
    } else if names.len() == 1 {
        names[0]@
    } else {
        joined_names(names.drop_last()) + ", "@ + names.last()@
    }
}

impl ContactError {
    /// What the user is told, for the text they looked a contact up by.
    pub open spec fn message_spec(self, needle: Seq<char>) -> Seq<char> {
        match self {
            ContactError::BadSlot(s) => "slot "@ + decimal(s as nat) + " is not between 1 and 9"@,
            ContactError::NoSuchContact => "no contact matches "@ + needle,
            ContactError::Ambiguous(names) => "no contact matches "@ + needle + ". It matches "@
                + decimal(names@.len()) + " contacts: "@ + joined_names(names@),
        }
    }

    /// What the user is told, for the text they looked a contact up by.
    pub fn message(&self, needle: &str) -> (r: String)
        ensures
            r@ == self.message_spec(needle@),
    {
        let mut out = String::new();
        match self {
            ContactError::BadSlot(s) => {
                append(&mut out, "slot ");
                append(&mut out, decimal_string(*s as u64).as_str());
                append(&mut out, " is not between 1 and 9");
            },
            ContactError::NoSuchContact => {
                append(&mut out, "no contact matches ");
                append(&mut out, needle);
            },
            ContactError::Ambiguous(names) => {
                append(&mut out, "no contact matches ");
                append(&mut out, needle);
                append(&mut out, ". It matches ");
                append(&mut out, decimal_string(names.len() as u64).as_str());
                append(&mut out, " contacts: ");
                let ghost head = out@;
                let mut i: usize = 0;
                while i < names.len()
                    invariant
                        i <= names@.len(),
                        out@ == head + joined_names(names@.subrange(0, i as int)),
                    decreases names@.len() - i,
                {
                    proof {
                        assert(names@.subrange(0, i + 1).drop_last() =~= names@.subrange(0, i as int));
                    }
                    if i > 0 {
                        append(&mut out, ", ");
                    }
                    append(&mut out, names[i].as_str());
                    i = i + 1;
                    proof {
                        if i == 1 {
                            assert(out@ =~= head + joined_names(names@.subrange(0, i as int)));
                        } else {
                            assert(out@ =~= head + joined_names(names@.subrange(0, i as int)));
                        }
                    }
                }
                assert(names@.subrange(0, names@.len() as int) =~= names@);
            },
        }
        out
    }
}

} // verus!
