//! The decisions behind the command line: table formatting, device choice,
//! and updates.
pub mod fmt;
pub mod update;
pub mod tui;

use vstd::prelude::*;

use crate::text::{
    chars_of, decimal, contains, contains_spec, lowercase, parse_u64, parse_u64_spec, string_of, to_lowercase,
};

verus! {

/// Why a device could not be chosen.
#[derive(Debug, Clone)]
pub enum DeviceChoiceError {
    /// The machine reports no such devices.
    NoDevices,
    /// No device name contains the text.
    NoMatch,
    /// Several device names contain the text; these ones.
    Ambiguous(Vec<String>),
}

/// The position a device number picks: `1` is the first device.
pub open spec fn number_choice(wanted: Seq<char>, count: nat) -> Option<nat> {
    match parse_u64_spec(wanted) {
        Some(v) => if 1 <= v && v <= count {
            Some((v - 1) as nat)
        } else {
            None
        },
        None => None,
    }
}

/// The names whose lowercase form contains `needle`, in their order.
pub open spec fn matching(names: Seq<String>, needle: Seq<char>) -> Seq<String>
    decreases names.len(),
{
    if names.len() == 0 {
        Seq::empty()
    } else {
        let before = matching(names.drop_last(), needle);
        if contains_spec(lowercase(names.last()@), needle) {
            before.push(names.last())
        } else {
            before
        }
    }
}

/// Turns a number or a name fragment into a device name.
///
/// A number picks by position. Anything else is matched, ignoring case,
/// against every name, and must match exactly one.
pub fn resolve_device(wanted: &str, available: &[String]) -> (r: Result<String, DeviceChoiceError>)
    ensures
        available@.len() == 0 ==> match r {
            Err(DeviceChoiceError::NoDevices) => true,
            _ => false,
        },
        available@.len() > 0 && number_choice(wanted@, available@.len()) is Some ==> match r {
            Ok(s) => s@ == available@[number_choice(wanted@, available@.len())->Some_0 as int]@,
            _ => false,
        },
        available@.len() > 0 && number_choice(wanted@, available@.len()) is None ==> {
            let m = matching(available@, lowercase(wanted@));
            &&& m.len() == 1 ==> match r {
                Ok(s) => s@ == m[0]@,
                _ => false,
            }
            &&& m.len() == 0 ==> match r {
                Err(DeviceChoiceError::NoMatch) => true,
                _ => false,
            }
            &&& m.len() > 1 ==> match r {
                Err(DeviceChoiceError::Ambiguous(v)) => v@.map_values(|x: String| x@) == m.map_values(
                    |x: String| x@,
                ),
                _ => false,
            }
        },
{
    if available.len() == 0 {
        return Err(DeviceChoiceError::NoDevices);
    }
    let wanted_chars = chars_of(wanted);
    match parse_u64(wanted_chars.as_slice()) {
        Some(number) => {
            if number >= 1 && number <= available.len() as u64 {
                let k = (number - 1) as usize;
                return Ok(string_of(chars_of(available[k].as_str()).as_slice()));
            }
        },
        None => {},
    }
    let lower = to_lowercase(wanted);
    let needle = chars_of(lower.as_str());
    let mut matches: Vec<String> = Vec::new();
    let mut i: usize = 0;
    while i < available.len()
        invariant
            i <= available@.len(),
            needle@ == lowercase(wanted@),
            matches@.map_values(|x: String| x@) == matching(
                available@.subrange(0, i as int),
                needle@,
            ).map_values(|x: String| x@),
        decreases available@.len() - i,
    {
        let name_lower = to_lowercase(available[i].as_str());
        let hit = contains(chars_of(name_lower.as_str()).as_slice(), needle.as_slice());
        let ghost prev = matching(available@.subrange(0, i as int), needle@);
        let ghost next = matching(available@.subrange(0, i + 1), needle@);
        proof {
            assert(available@.subrange(0, i + 1).drop_last() =~= available@.subrange(0, i as int));
            assert(available@.subrange(0, i + 1).last() == available@[i as int]);
            assert(hit == contains_spec(lowercase(available@[i as int]@), needle@));
            assert(next == if hit {
                prev.push(available@[i as int])
            } else {
                prev
            });
        }
        let ghost old_matches = matches@;
        if hit {
            let copy = string_of(chars_of(available[i].as_str()).as_slice());
            matches.push(copy);
            assert(matches@.map_values(|x: String| x@) =~= old_matches.map_values(|x: String| x@).push(
                copy@,
            ));
            assert(next.map_values(|x: String| x@) =~= prev.map_values(|x: String| x@).push(
                available@[i as int]@,
            ));
        }
        i = i + 1;
    }
    assert(available@.subrange(0, available@.len() as int) =~= available@);
    let ghost m = matching(available@, lowercase(wanted@));
    assert(matches@.len() == m.len());
    if matches.len() == 1 {
        assert(matches@.map_values(|x: String| x@)[0] == m.map_values(|x: String| x@)[0]);
        let only = string_of(chars_of(matches[0].as_str()).as_slice());
        return Ok(only);
    }
    if matches.len() == 0 {
        return Err(DeviceChoiceError::NoMatch);
    }
    Err(DeviceChoiceError::Ambiguous(matches))
}


/// Whether `name` is the device in use, for the device listing: the stored
/// choice when there is one, the system default otherwise. A stored device
/// the host no longer offers marks none.
pub open spec fn listed_in_use(name: Seq<char>, current: Option<Seq<char>>, default: Option<Seq<char>>) -> bool {
    match current {
        Some(chosen) => chosen == name,
        None => default == Some(name),
    }
}

/// The cells of one line of the device listing: the in-use mark, the number
/// to choose it by, its name, and a note when it is the system default that
/// is being followed.
pub open spec fn device_row_spec(
    index: nat,
    name: Seq<char>,
    current: Option<Seq<char>>,
    default: Option<Seq<char>>,
) -> Seq<Seq<char>> {
    seq![
        if listed_in_use(name, current, default) {
            "*"@
        } else {
            " "@
        },
        decimal(index + 1),
        name,
        if current is None && default == Some(name) {
            "system default"@
        } else {
            Seq::empty()
        },
    ]
}

/// Whether two texts are equal.
fn same_text(a: &str, b: &str) -> (r: bool)
    ensures
        r == (a@ == b@),
{
    crate::text::chars_equal(chars_of(a).as_slice(), chars_of(b).as_slice())
}

/// The lines of the device listing for one direction, in the host's order.
pub fn device_rows(names: &[String], current: Option<&str>, default: Option<&str>) -> (r: Vec<
    Vec<String>,
>)
    requires
        names@.len() < u64::MAX,
    ensures
        r@.len() == names@.len(),
        forall|i: int|
            0 <= i < r@.len() ==> (#[trigger] r@[i])@.map_values(|c: String| c@) == device_row_spec(
                i as nat,
                names@[i]@,
                crate::ui::statusitem::text_of(current),
                crate::ui::statusitem::text_of(default),
            ),
{
    let mut rows: Vec<Vec<String>> = Vec::new();
    let mut i: usize = 0;
    while i < names.len()
        invariant
            i <= names@.len(),
            names@.len() < u64::MAX,
            rows@.len() == i,
            forall|k: int|
                0 <= k < i ==> (#[trigger] rows@[k])@.map_values(|c: String| c@) == device_row_spec(
                    k as nat,
                    names@[k]@,
                    crate::ui::statusitem::text_of(current),
                    crate::ui::statusitem::text_of(default),
                ),
        decreases names@.len() - i,
    {
        let name = names[i].as_str();
        let is_default = match default {
            Some(d) => same_text(d, name),
            None => false,
        };
        let in_use = match current {
            Some(chosen) => same_text(chosen, name),
            None => is_default,
        };
        let mut mark = String::new();
        crate::text::append(&mut mark, if in_use { "*" } else { " " });
        let number = crate::text::decimal_string(i as u64 + 1);
        let mut title = String::new();
        crate::text::append(&mut title, name);
        let mut note = String::new();
        if current.is_none() && is_default {
            crate::text::append(&mut note, "system default");
        }
        let row = vec![mark, number, title, note];
        assert(row@.map_values(|c: String| c@) =~= device_row_spec(
            i as nat,
            names@[i as int]@,
            crate::ui::statusitem::text_of(current),
            crate::ui::statusitem::text_of(default),
        ));
        rows.push(row);
        i = i + 1;
    }
    rows
}

/// The cells of a contact's line in `swivel list`: slot, name, when it was
/// last seen from `now`, whether it opens without a knock, and its short key.
pub open spec fn contact_row_spec(
    slot: Option<u8>,
    name: Seq<char>,
    last_seen: Option<i64>,
    now: i64,
    auto_open: bool,
    key: crate::keys::EndpointId,
) -> Seq<Seq<char>> {
    seq![
        match slot {
            Some(s) => decimal(s as nat),
            None => "-"@,
        },
        name,
        match last_seen {
            Some(t) => crate::cli::fmt::relative_time_spec(now, t),
            None => "never"@,
        },
        if auto_open {
            "auto"@
        } else {
            "knock"@
        },
        crate::keys::short_id_spec(key),
    ]
}

/// A contact's line in `swivel list`.
pub fn contact_row(
    slot: Option<u8>,
    name: &str,
    last_seen: Option<i64>,
    now: i64,
    auto_open: bool,
    key: &crate::keys::EndpointId,
) -> (r: Vec<String>)
    ensures
        r@.map_values(|c: String| c@) == contact_row_spec(slot, name@, last_seen, now, auto_open, *key),
{
    let slot_text = match slot {
        Some(s) => crate::text::decimal_string(s as u64),
        None => string_of(chars_of("-").as_slice()),
    };
    let seen = match last_seen {
        Some(t) => crate::cli::fmt::relative_time_at(now, t),
        None => string_of(chars_of("never").as_slice()),
    };
    let opens = string_of(chars_of(if auto_open { "auto" } else { "knock" }).as_slice());
    let row = vec![slot_text, string_of(chars_of(name).as_slice()), seen, opens, crate::keys::short_id(key)];
    assert(row@.map_values(|c: String| c@) =~= contact_row_spec(slot, name@, last_seen, now, auto_open, *key));
    row
}

/// The cells of a waiting endpoint's line in `swivel list`: the name it
/// claimed, when it first knocked, and its short key.
pub open spec fn knock_row_spec(
    claimed: Option<Seq<char>>,
    first_seen: i64,
    now: i64,
    key: crate::keys::EndpointId,
) -> Seq<Seq<char>> {
    seq![
        match claimed {
            Some(c) => c,
            None => "(no name)"@,
        },
        crate::cli::fmt::relative_time_spec(now, first_seen),
        crate::keys::short_id_spec(key),
    ]
}

/// A waiting endpoint's line in `swivel list`.
pub fn knock_row(claimed: Option<&str>, first_seen: i64, now: i64, key: &crate::keys::EndpointId) -> (r:
    Vec<String>)
    ensures
        r@.map_values(|c: String| c@) == knock_row_spec(
            crate::ui::statusitem::text_of(claimed),
            first_seen,
            now,
            *key,
        ),
{
    let name = string_of(chars_of(match claimed {
        Some(c) => c,
        None => "(no name)",
    }).as_slice());
    let row = vec![name, crate::cli::fmt::relative_time_at(now, first_seen), crate::keys::short_id(key)];
    assert(row@.map_values(|c: String| c@) =~= knock_row_spec(
        crate::ui::statusitem::text_of(claimed),
        first_seen,
        now,
        *key,
    ));
    row
}

} // verus!
